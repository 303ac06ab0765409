//! Boundedness of the spring integrator.
//!
//! For the reference parameters (mass one, stiffness one hundred, damping
//! ten) the integrator contracts an energy of the state — squared
//! displacement from the target plus a weighted squared velocity — in
//! every step in which the energy is large, and keeps it small otherwise.
//! The oscillation therefore stays bounded at every frame distance: it
//! converges toward the target region and cannot diverge.

use vstd::prelude::*;
use crate::fixed::{
    lemma_tdiv_common_factor, lemma_tdiv_quotient_bound, lemma_tdiv_rem, lemma_tdiv_scale_cancel,
    sat64, tdiv, SCALE,
};
use crate::interpolations::{spec_spring_state, spec_spring_step, SpringProperties};

verus! {

/// The energy of a spring state: squared displacement from the target plus
/// a weighted squared velocity.
pub open spec fn spec_spring_energy(d: int, v: int) -> int {
    d * d + 9000 * v * v
}

/// The reference spring parameters in fixed point: mass one, stiffness one
/// hundred, damping ten.
pub open spec fn spec_reference_spring() -> SpringProperties {
    SpringProperties { mass: 1000000, damping: 10000000, stiffness: 100000000 }
}

/// One step of the reference spring never increases the energy while the
/// energy is at least `10^12`; below that threshold the step keeps the
/// energy under `2.5 * 10^12`.
#[verifier::rlimit(100)]
#[verifier::spinoff_prover]
proof fn lemma_spring_step_energy(pos: int, vel: int, target: int)
    requires
        -3_200_000_000_000_000 <= pos <= 3_200_000_000_000_000,
        -1_000_000_000_000_000 <= target <= 1_000_000_000_000_000,
        -100_000_000_000_000 <= vel <= 100_000_000_000_000,
    ensures
        spec_spring_energy(pos - target, vel) >= 1_000_000_000_000 ==> spec_spring_energy(
            spec_spring_step(pos, vel, target, spec_reference_spring()).0 - target,
            spec_spring_step(pos, vel, target, spec_reference_spring()).1,
        ) <= spec_spring_energy(pos - target, vel),
        spec_spring_energy(pos - target, vel) < 1_000_000_000_000 ==> spec_spring_energy(
            spec_spring_step(pos, vel, target, spec_reference_spring()).0 - target,
            spec_spring_step(pos, vel, target, spec_reference_spring()).1,
        ) <= 2_500_000_000_000,
{
    let props = spec_reference_spring();
    let d = pos - target;
    assert(sat64(d) == d);

    // the force and acceleration divisions collapse to plain truncating
    // quotients of the displacement and the velocity
    lemma_tdiv_common_factor(d, 100000000, 10000);
    lemma_tdiv_common_factor(vel, 10000000, 100);
    let u = tdiv(d, 10000);
    let w = tdiv(vel, 100);
    let sf = -tdiv((props.stiffness as int) * sat64(d), 1_000_000_000_000);
    let df = -tdiv((props.damping as int) * vel, 1_000_000_000);
    assert(sf == -u);
    assert(df == -w);
    lemma_tdiv_scale_cancel(sf + df, 1000000);
    let accel = tdiv((sf + df) * (SCALE as int), props.mass as int);
    assert(accel == -u - w);

    // quotient magnitudes keep the step far from saturation
    lemma_tdiv_quotient_bound(d, 10000, 420_000_000_000);
    lemma_tdiv_quotient_bound(vel, 100, 1_000_000_000_000);
    let vel2 = sat64(vel + accel * 10);
    assert(vel2 == vel - 10 * u - 10 * w);
    let pos2 = sat64(pos + vel2 * 10);
    assert(pos2 == pos + 10 * vel2);
    assert(spec_spring_step(pos, vel, target, props) == (pos2, vel2));
    let d2 = pos2 - target;

    // remainders of the two quotients
    lemma_tdiv_rem(d, 10000);
    lemma_tdiv_rem(vel, 100);
    let r1 = d - 10000 * u;
    let r2 = vel - 100 * w;
    let s = r1 + 100 * r2;
    assert(-19899 <= s <= 19899);

    // the new state in closed form over displacement, velocity and the
    // collected rounding remainder
    let a0 = 99 * d + 900 * vel;
    let b0 = 900 * vel - d;
    assert(100 * d2 == a0 + s);
    assert(1000 * vel2 == b0 + s);

    let e = spec_spring_energy(d, vel);
    let e2 = spec_spring_energy(d2, vel2);
    assert(e == d * d + 9000 * vel * vel);
    assert(e2 == d2 * d2 + 9000 * vel2 * vel2);

    // scaled by 10^6, the new energy splits into the exact contracted
    // quadratic form plus the rounding contribution
    let m = 989100 * (d * d) + 1620000 * (d * vel) + 7371000000 * (vel * vel);
    let err = 2 * (s * (900 * d + 8190000 * vel)) + 9100 * (s * s);
    let q = 10900 * (d * d) - 1620000 * (d * vel) + 1629000000 * (vel * vel);
    assert((a0 + s) * (a0 + s) == 10000 * (d2 * d2)) by (nonlinear_arith)
        requires
            100 * d2 == a0 + s,
    ;
    assert((b0 + s) * (b0 + s) == 1000000 * (vel2 * vel2)) by (nonlinear_arith)
        requires
            1000 * vel2 == b0 + s,
    ;
    assert(100 * ((a0 + s) * (a0 + s)) + 9000 * ((b0 + s) * (b0 + s)) == m + err)
        by (nonlinear_arith)
        requires
            a0 == 99 * d + 900 * vel,
            b0 == 900 * vel - d,
            m == 989100 * (d * d) + 1620000 * (d * vel) + 7371000000 * (vel * vel),
            err == 2 * (s * (900 * d + 8190000 * vel)) + 9100 * (s * s),
    ;
    assert(1000000 * e2 == m + err) by (nonlinear_arith)
        requires
            e2 == d2 * d2 + 9000 * vel2 * vel2,
            (a0 + s) * (a0 + s) == 10000 * (d2 * d2),
            (b0 + s) * (b0 + s) == 1000000 * (vel2 * vel2),
            100 * ((a0 + s) * (a0 + s)) + 9000 * ((b0 + s) * (b0 + s)) == m + err,
    ;
    assert(1000000 * e == m + q) by (nonlinear_arith)
        requires
            e == d * d + 9000 * vel * vel,
            m == 989100 * (d * d) + 1620000 * (d * vel) + 7371000000 * (vel * vel),
            q == 10900 * (d * d) - 1620000 * (d * vel) + 1629000000 * (vel * vel),
    ;

    // the exact form contracts by a definite margin: a sum-of-squares
    // certificate
    assert(5900 * q == 5900 * (5000 * (d * d) + 45000000 * (vel * vel)) + (5900 * d - 810000
        * vel) * (5900 * d - 810000 * vel) + 8689500000000 * (vel * vel)) by (nonlinear_arith)
        requires
            q == 10900 * (d * d) - 1620000 * (d * vel) + 1629000000 * (vel * vel),
    ;
    assert((5900 * d - 810000 * vel) * (5900 * d - 810000 * vel) >= 0) by (nonlinear_arith);
    assert(d * d >= 0 && vel * vel >= 0 && s * s >= 0) by (nonlinear_arith);
    assert(q >= 5000 * (d * d) + 45000000 * (vel * vel)) by (nonlinear_arith)
        requires
            5900 * q == 5900 * (5000 * (d * d) + 45000000 * (vel * vel)) + (5900 * d - 810000
                * vel) * (5900 * d - 810000 * vel) + 8689500000000 * (vel * vel),
            (5900 * d - 810000 * vel) * (5900 * d - 810000 * vel) >= 0,
            vel * vel >= 0,
    ;

    // the rounding contribution is absorbed by a slice of that margin:
    // two more square certificates and the remainder bound
    assert(1000 * (d * d) - 2 * (s * (900 * d)) + 810 * (s * s) == 10 * ((10 * d - 9 * s) * (10
        * d - 9 * s))) by (nonlinear_arith);
    assert((10 * d - 9 * s) * (10 * d - 9 * s) >= 0) by (nonlinear_arith);
    assert(2 * (s * (900 * d)) <= 1000 * (d * d) + 810 * (s * s)) by (nonlinear_arith)
        requires
            1000 * (d * d) - 2 * (s * (900 * d)) + 810 * (s * s) == 10 * ((10 * d - 9 * s) * (10
                * d - 9 * s)),
            (10 * d - 9 * s) * (10 * d - 9 * s) >= 0,
    ;
    assert(30000000 * (30000000 * (vel * vel) - 2 * (s * (8190000 * vel)) + 2236000 * (s * s))
        == (30000000 * vel - 8190000 * s) * (30000000 * vel - 8190000 * s) + 3900000000 * (s
        * s)) by (nonlinear_arith);
    assert((30000000 * vel - 8190000 * s) * (30000000 * vel - 8190000 * s) >= 0)
        by (nonlinear_arith);
    assert(2 * (s * (8190000 * vel)) <= 30000000 * (vel * vel) + 2236000 * (s * s))
        by (nonlinear_arith)
        requires
            30000000 * (30000000 * (vel * vel) - 2 * (s * (8190000 * vel)) + 2236000 * (s * s))
                == (30000000 * vel - 8190000 * s) * (30000000 * vel - 8190000 * s) + 3900000000
                * (s * s),
            (30000000 * vel - 8190000 * s) * (30000000 * vel - 8190000 * s) >= 0,
            s * s >= 0,
    ;
    assert(s * s <= 395970201) by (nonlinear_arith)
        requires
            -19899 <= s <= 19899,
    ;
    assert(err <= 1000 * (d * d) + 30000000 * (vel * vel) + 889313434127910) by (nonlinear_arith)
        requires
            err == 2 * (s * (900 * d + 8190000 * vel)) + 9100 * (s * s),
            2 * (s * (900 * d)) <= 1000 * (d * d) + 810 * (s * s),
            2 * (s * (8190000 * vel)) <= 30000000 * (vel * vel) + 2236000 * (s * s),
            s * s <= 395970201,
    ;

    if e >= 1_000_000_000_000 {
        assert(1000000 * e2 <= 1000000 * e) by (nonlinear_arith)
            requires
                1000000 * e2 == m + err,
                1000000 * e == m + q,
                q >= 5000 * (d * d) + 45000000 * (vel * vel),
                err <= 1000 * (d * d) + 30000000 * (vel * vel) + 889313434127910,
                e == d * d + 9000 * vel * vel,
                e >= 1_000_000_000_000,
                d * d >= 0,
                vel * vel >= 0,
        ;
        assert(e2 <= e);
    } else {
        // below the threshold the state is small and the step keeps it so
        assert(-1000000 <= d <= 1000000 && -10541 <= vel <= 10541) by (nonlinear_arith)
            requires
                e == d * d + 9000 * vel * vel,
                e < 1_000_000_000_000,
        ;
        assert(-108506799 <= a0 + s <= 108506799);
        assert(-10506799 <= b0 + s <= 10506799);
        assert(-1085068 <= d2 <= 1085068);
        assert(-10507 <= vel2 <= 10507);
        assert(e2 <= 2_500_000_000_000) by (nonlinear_arith)
            requires
                e2 == d2 * d2 + 9000 * vel2 * vel2,
                -1085068 <= d2 <= 1085068,
                -10507 <= vel2 <= 10507,
        ;
    }
}

/// The reference spring does not diverge: at every frame distance, the
/// energy of the integrator's state stays within its initial value plus a
/// fixed threshold, so the oscillation amplitude is bounded for all time
/// and the transient cannot grow without end.
#[verifier::rlimit(100)]
#[verifier::spinoff_prover]
pub proof fn lemma_spring_oscillation_bounded(steps: nat, start: int, target: int)
    requires
        -1_000_000_000_000_000 <= start <= 1_000_000_000_000_000,
        -1_000_000_000_000_000 <= target <= 1_000_000_000_000_000,
    ensures
        spec_spring_energy(
            spec_spring_state(steps, start, target, spec_reference_spring()).0 - target,
            spec_spring_state(steps, start, target, spec_reference_spring()).1,
        ) <= spec_spring_energy(start - target, 0) + 2_500_000_000_000,
    decreases steps,
{
    let props = spec_reference_spring();
    let e0 = spec_spring_energy(start - target, 0);
    assert(0 <= e0 <= 4_000_000_000_000_000_000_000_000_000_000) by (nonlinear_arith)
        requires
            e0 == (start - target) * (start - target) + 9000 * 0 * 0,
            -2_000_000_000_000_000 <= start - target <= 2_000_000_000_000_000,
    ;
    if steps == 0 {
    } else {
        lemma_spring_oscillation_bounded((steps - 1) as nat, start, target);
        let prev = spec_spring_state((steps - 1) as nat, start, target, props);
        let pd = prev.0 - target;
        let pv = prev.1;
        let pe = spec_spring_energy(pd, pv);
        assert(pd * pd >= 0 && pv * pv >= 0) by (nonlinear_arith);
        assert(-2_100_000_000_000_000 <= pd <= 2_100_000_000_000_000) by (nonlinear_arith)
            requires
                pd * pd + 9000 * pv * pv <= 4_000_000_000_000_000_000_000_000_000_000
                    + 2_500_000_000_000,
                pv * pv >= 0,
        ;
        assert(-100_000_000_000_000 <= pv <= 100_000_000_000_000) by (nonlinear_arith)
            requires
                pd * pd + 9000 * pv * pv <= 4_000_000_000_000_000_000_000_000_000_000
                    + 2_500_000_000_000,
                pd * pd >= 0,
        ;
        lemma_spring_step_energy(prev.0, prev.1, target);
    }
}

} // verus!
