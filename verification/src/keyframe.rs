//! Keyframes and keyframe sets: one scalar channel sampled over time.
//!
//! A `Keyframes` value is an ordered collection of `Keyframe` samples.  Its
//! invariant order is ascending by `offset`; normalisation is a stable sort,
//! so samples sharing an offset keep their original relative order.

use vstd::prelude::*;
use crate::interpolations::{interpolate_rendered_keyframes, spec_interpolate, InterpolationType};
use crate::fixed::SAT_MAX;
use crate::utils::{render_keyframe, spec_abs_distance, spec_abs_frame, spec_distance};
use crate::entities::AnimationData;

verus! {

/// One timed sample of a scalar channel.  `value` and `offset` are
/// fixed-point numbers (`offset` in seconds).  The `id` exists for editing
/// tools to track the point across edits; evaluation never reads it.
#[derive(Debug, Clone, PartialEq)]
pub struct Keyframe {
    pub value: i64,
    pub offset: i64,
    pub id: String,
    pub interpolation: Option<InterpolationType>,
}

/// A keyframe placed on the absolute frame axis, with its distance to the
/// frame being evaluated.
#[derive(Debug, Clone, PartialEq)]
pub struct RenderedKeyframe {
    pub absolute_frame: i64,
    pub keyframe: Keyframe,
    pub index: usize,
    pub distance_from_curr: i64,
    pub abs_distance_from_curr: i64,
}

/// An ordered sequence of keyframes for one scalar channel.
#[derive(Debug, Clone, PartialEq)]
pub struct Keyframes {
    pub values: Vec<Keyframe>,
}

/// An exact copy of a keyframe (field by field, so the copy is known to
/// equal the original).
pub fn clone_keyframe(kf: &Keyframe) -> (r: Keyframe)
    ensures
        r == *kf,
{
    Keyframe {
        value: kf.value,
        offset: kf.offset,
        id: kf.id.clone(),
        interpolation: kf.interpolation,
    }
}

/// The sequence is ascending by offset.
pub open spec fn sorted_by_offset(s: Seq<Keyframe>) -> bool {
    forall|i: int, j: int| 0 <= i < j < s.len() ==> s[i].offset <= s[j].offset
}

/// Stable insertion of a keyframe into a sequence: it lands after every
/// element whose offset is less than or equal to its own.
pub open spec fn spec_insert_by_offset(s: Seq<Keyframe>, x: Keyframe) -> Seq<Keyframe>
    decreases s.len(),
{
    if s.len() == 0 {
        seq![x]
    } else if s.last().offset <= x.offset {
        s.push(x)
    } else {
        spec_insert_by_offset(s.drop_last(), x).push(s.last())
    }
}

/// Stable sort by offset: repeated stable insertion, left to right.
pub open spec fn spec_sort_by_offset(s: Seq<Keyframe>) -> Seq<Keyframe>
    decreases s.len(),
{
    if s.len() == 0 {
        Seq::empty()
    } else {
        spec_insert_by_offset(spec_sort_by_offset(s.drop_last()), s.last())
    }
}

proof fn lemma_insert_len(s: Seq<Keyframe>, x: Keyframe)
    ensures
        spec_insert_by_offset(s, x).len() == s.len() + 1,
    decreases s.len(),
{
    if s.len() != 0 && !(s.last().offset <= x.offset) {
        lemma_insert_len(s.drop_last(), x);
    }
}

proof fn lemma_insert_keeps_sorted(s: Seq<Keyframe>, x: Keyframe)
    requires
        sorted_by_offset(s),
    ensures
        sorted_by_offset(spec_insert_by_offset(s, x)),
        forall|k: int|
            0 <= k < spec_insert_by_offset(s, x).len() ==> (s.contains(
                #[trigger] spec_insert_by_offset(s, x)[k],
            ) || spec_insert_by_offset(s, x)[k] == x),
    decreases s.len(),
{
    let r = spec_insert_by_offset(s, x);
    lemma_insert_len(s, x);
    if s.len() == 0 {
    } else if s.last().offset <= x.offset {
        assert forall|k: int| 0 <= k < r.len() implies (s.contains(#[trigger] r[k]) || r[k] == x) by {
            if k < s.len() {
                assert(s.contains(r[k]));
            }
        }
    } else {
        let sub = s.drop_last();
        assert(sorted_by_offset(sub)) by {
            assert forall|i: int, j: int| 0 <= i < j < sub.len() implies sub[i].offset
                <= sub[j].offset by {
                assert(s[i] == sub[i]);
                assert(s[j] == sub[j]);
            }
        }
        lemma_insert_keeps_sorted(sub, x);
        let inner = spec_insert_by_offset(sub, x);
        lemma_insert_len(sub, x);
        // every element of `inner` has offset at most `s.last().offset`
        assert forall|k: int| 0 <= k < inner.len() implies inner[k].offset
            <= s.last().offset by {
            if inner[k] == x {
                assert(x.offset < s.last().offset);
            } else {
                assert(sub.contains(inner[k]));
                let w = choose|w: int| 0 <= w < sub.len() && sub[w] == inner[k];
                assert(s[w] == sub[w]);
                assert(s[w].offset <= s.last().offset);
            }
        }
        assert forall|i: int, j: int| 0 <= i < j < r.len() implies r[i].offset
            <= r[j].offset by {
            if j < inner.len() {
                assert(r[i] == inner[i] && r[j] == inner[j]);
            } else {
                assert(r[j] == s.last());
                assert(r[i] == inner[i]);
            }
        }
        assert forall|k: int| 0 <= k < r.len() implies (s.contains(#[trigger] r[k]) || r[k]
            == x) by {
            if k < inner.len() {
                assert(r[k] == inner[k]);
                if inner[k] != x {
                    assert(sub.contains(inner[k]));
                    let w = choose|w: int| 0 <= w < sub.len() && sub[w] == inner[k];
                    assert(s[w] == sub[w]);
                    assert(s.contains(s[w]));
                }
            } else {
                assert(r[k] == s.last());
                assert(s.contains(s.last()));
            }
        }
    }
}

/// The stable sort really sorts: its result is ascending by offset and has
/// the same length as its input.
pub proof fn lemma_sort_by_offset_sorted(s: Seq<Keyframe>)
    ensures
        sorted_by_offset(spec_sort_by_offset(s)),
        spec_sort_by_offset(s).len() == s.len(),
    decreases s.len(),
{
    if s.len() != 0 {
        lemma_sort_by_offset_sorted(s.drop_last());
        lemma_insert_keeps_sorted(spec_sort_by_offset(s.drop_last()), s.last());
        lemma_insert_len(spec_sort_by_offset(s.drop_last()), s.last());
    }
}

/// Inserts a keyframe into an already sorted vector at its stable position.
fn insert_sorted(out: &mut Vec<Keyframe>, x: Keyframe)
    ensures
        final(out)@ == spec_insert_by_offset(old(out)@, x),
{
    let ghost orig = out@;
    let mut idx: usize = out.len();
    proof {
        assert(orig.take(idx as int) =~= orig);
        assert(orig.skip(idx as int) =~= Seq::<Keyframe>::empty());
        assert(spec_insert_by_offset(orig.take(idx as int), x) + orig.skip(idx as int)
            =~= spec_insert_by_offset(orig, x));
    }
    while idx > 0 && out[idx - 1].offset > x.offset
        invariant
            idx <= out.len(),
            out@ == orig,
            spec_insert_by_offset(orig, x) == spec_insert_by_offset(orig.take(idx as int), x)
                + orig.skip(idx as int),
        decreases idx,
    {
        proof {
            let i = idx as int;
            let pre = orig.take(i);
            assert(pre.last() == orig[i - 1]);
            assert(pre.drop_last() =~= orig.take(i - 1));
            assert(spec_insert_by_offset(pre, x) == spec_insert_by_offset(
                orig.take(i - 1),
                x,
            ).push(orig[i - 1]));
            assert(spec_insert_by_offset(orig.take(i - 1), x).push(orig[i - 1]) + orig.skip(i)
                =~= spec_insert_by_offset(orig.take(i - 1), x) + orig.skip(i - 1));
        }
        idx = idx - 1;
    }
    proof {
        let i = idx as int;
        let pre = orig.take(i);
        if idx > 0 {
            assert(pre.last() == orig[i - 1]);
            assert(spec_insert_by_offset(pre, x) == pre.push(x));
        } else {
            assert(pre =~= Seq::<Keyframe>::empty());
            assert(spec_insert_by_offset(pre, x) =~= pre.push(x));
        }
        assert(spec_insert_by_offset(orig, x) =~= orig.insert(i, x));
    }
    out.insert(idx, x);
}

impl Keyframes {
    /// Stable sort of the keyframes, ascending by offset; samples sharing
    /// an offset keep their original relative order.
    pub fn sort(&mut self)
        ensures
            final(self).values@ == spec_sort_by_offset(old(self).values@),
    {
        let mut out: Vec<Keyframe> = Vec::new();
        let n = self.values.len();
        let mut i: usize = 0;
        while i < n
            invariant
                i <= n,
                n == self.values.len(),
                self == old(self),
                out@ == spec_sort_by_offset(self.values@.take(i as int)),
            decreases n - i,
        {
            let kf = clone_keyframe(&self.values[i]);
            proof {
                let pre = self.values@.take(i as int + 1);
                assert(pre.drop_last() =~= self.values@.take(i as int));
                assert(pre.last() == self.values@[i as int]);
            }
            insert_sorted(&mut out, kf);
            i = i + 1;
        }
        proof {
            assert(self.values@.take(n as int) =~= self.values@);
        }
        self.values = out;
    }

    /// A normalised copy: the same samples, stably sorted by offset.
    pub fn sorted(&self) -> (r: Keyframes)
        ensures
            r.values@ == spec_sort_by_offset(self.values@),
    {
        let mut copy = Keyframes { values: Vec::new() };
        let n = self.values.len();
        let mut i: usize = 0;
        while i < n
            invariant
                i <= n,
                n == self.values.len(),
                copy.values@ =~= self.values@.take(i as int),
            decreases n - i,
        {
            copy.values.push(clone_keyframe(&self.values[i]));
            proof {
                assert(copy.values@ =~= self.values@.take(i as int + 1));
            }
            i = i + 1;
        }
        proof {
            assert(copy.values@ =~= self.values@);
        }
        copy.sort();
        copy
    }
}

/// The interpolation mode of a keyframe, defaulting to linear when unset.
pub open spec fn spec_mode_of(o: Option<InterpolationType>) -> InterpolationType {
    match o {
        Some(v) => v,
        None => InterpolationType::Linear,
    }
}

/// Index of the keyframe nearest to the current frame, measured by the
/// magnitude of its frame distance; ties go to the earliest index.
pub open spec fn spec_closest(s: Seq<Keyframe>, woff: int, curr: int, fps: int) -> int
    decreases s.len(),
{
    if s.len() <= 1 {
        0
    } else {
        let best = spec_closest(s.drop_last(), woff, curr, fps);
        if spec_abs_distance(s.last(), woff, curr, fps) < spec_abs_distance(
            s[best],
            woff,
            curr,
            fps,
        ) {
            s.len() - 1
        } else {
            best
        }
    }
}

/// The nearest index really is the first minimiser of the distance
/// magnitude.
pub proof fn lemma_closest_is_first_min(s: Seq<Keyframe>, woff: int, curr: int, fps: int)
    requires
        s.len() > 0,
    ensures
        0 <= spec_closest(s, woff, curr, fps) < s.len(),
        forall|j: int|
            0 <= j < s.len() ==> spec_abs_distance(
                s[spec_closest(s, woff, curr, fps)],
                woff,
                curr,
                fps,
            ) <= spec_abs_distance(#[trigger] s[j], woff, curr, fps),
        forall|j: int|
            0 <= j < spec_closest(s, woff, curr, fps) ==> spec_abs_distance(
                #[trigger] s[j],
                woff,
                curr,
                fps,
            ) > spec_abs_distance(s[spec_closest(s, woff, curr, fps)], woff, curr, fps),
    decreases s.len(),
{
    if s.len() > 1 {
        lemma_closest_is_first_min(s.drop_last(), woff, curr, fps);
        assert forall|j: int| 0 <= j < s.len() - 1 implies s.drop_last()[j] == s[j] by {}
    }
}

/// The sampled value of a keyframe sequence at a frame.
///
/// The nearest keyframe is selected; an exact hit returns its value
/// unchanged; otherwise the value is interpolated towards the neighbour on
/// the side of the current frame, with the earlier keyframe's interpolation
/// mode; past either end of the sequence the boundary keyframe's value is
/// returned unchanged.  An empty sequence samples to zero.
pub open spec fn spec_get_value(s: Seq<Keyframe>, woff: int, curr: int, fps: int) -> int {
    if s.len() == 0 {
        0
    } else {
        let c = spec_closest(s, woff, curr, fps);
        let kf = s[c];
        let dist = spec_distance(kf, woff, curr, fps);
        if dist == 0 {
            kf.value as int
        } else if dist > 0 {
            if c > 0 {
                spec_interpolate(
                    s[c - 1].value as int,
                    spec_abs_frame(s[c - 1], woff, fps),
                    kf.value as int,
                    spec_abs_frame(kf, woff, fps),
                    curr,
                    spec_mode_of(s[c - 1].interpolation),
                )
            } else {
                kf.value as int
            }
        } else {
            if c + 1 < s.len() {
                spec_interpolate(
                    kf.value as int,
                    spec_abs_frame(kf, woff, fps),
                    s[c + 1].value as int,
                    spec_abs_frame(s[c + 1], woff, fps),
                    curr,
                    spec_mode_of(kf.interpolation),
                )
            } else {
                kf.value as int
            }
        }
    }
}

impl Keyframes {
    /// Samples the channel at a frame: the nearest keyframe is found and the
    /// value is taken from it directly (exact hit or out-of-range clamp) or
    /// interpolated towards its neighbour on the side of the frame.
    pub fn get_value_at_frame(
        &self,
        curr_frame: i64,
        animation_data: &AnimationData,
        fps: i16,
    ) -> (r: i64)
        ensures
            r as int == spec_get_value(
                self.values@,
                animation_data.offset as int,
                curr_frame as int,
                fps as int,
            ),
    {
        let ghost s = self.values@;
        let ghost woff = animation_data.offset as int;
        let n = self.values.len();
        if n == 0 {
            return 0;
        }
        let first = render_keyframe(
            clone_keyframe(&self.values[0]),
            animation_data,
            0,
            curr_frame,
            fps,
        );
        let mut best: usize = 0;
        let mut best_abs_dist: i64 = first.abs_distance_from_curr;
        let mut i: usize = 1;
        proof {
            assert(s.take(1) =~= seq![s[0]]);
        }
        while i < n
            invariant
                1 <= i <= n,
                n == self.values.len(),
                s == self.values@,
                woff == animation_data.offset as int,
                best < i,
                best as int == spec_closest(s.take(i as int), woff, curr_frame as int, fps as int),
                best_abs_dist as int == spec_abs_distance(
                    s[best as int],
                    woff,
                    curr_frame as int,
                    fps as int,
                ),
            decreases n - i,
        {
            let rk = render_keyframe(
                clone_keyframe(&self.values[i]),
                animation_data,
                i,
                curr_frame,
                fps,
            );
            proof {
                let pre = s.take(i as int + 1);
                assert(pre.drop_last() =~= s.take(i as int));
                assert(pre.last() == s[i as int]);
                assert(pre[best as int] == s[best as int]);
            }
            if rk.abs_distance_from_curr < best_abs_dist {
                best = i;
                best_abs_dist = rk.abs_distance_from_curr;
            }
            i = i + 1;
        }
        proof {
            assert(s.take(n as int) =~= s);
        }
        let closest_keyframe = render_keyframe(
            clone_keyframe(&self.values[best]),
            animation_data,
            best,
            curr_frame,
            fps,
        );
        if closest_keyframe.distance_from_curr == 0 {
            closest_keyframe.keyframe.value
        } else if closest_keyframe.distance_from_curr > 0 {
            if best > 0 {
                let previous_keyframe = render_keyframe(
                    clone_keyframe(&self.values[best - 1]),
                    animation_data,
                    best - 1,
                    curr_frame,
                    fps,
                );
                let interpolation = match previous_keyframe.keyframe.interpolation {
                    Some(val) => val,
                    None => InterpolationType::Linear,
                };
                interpolate_rendered_keyframes(
                    &previous_keyframe,
                    &closest_keyframe,
                    curr_frame,
                    interpolation,
                    fps,
                )
            } else {
                closest_keyframe.keyframe.value
            }
        } else {
            if best + 1 < n {
                let next_keyframe = render_keyframe(
                    clone_keyframe(&self.values[best + 1]),
                    animation_data,
                    best + 1,
                    curr_frame,
                    fps,
                );
                let interpolation = match closest_keyframe.keyframe.interpolation {
                    Some(val) => val,
                    None => InterpolationType::Linear,
                };
                interpolate_rendered_keyframes(
                    &closest_keyframe,
                    &next_keyframe,
                    curr_frame,
                    interpolation,
                    fps,
                )
            } else {
                closest_keyframe.keyframe.value
            }
        }
    }
}

// ---------------------------------------------------------------------------
// Laws of the sampler.
// ---------------------------------------------------------------------------

/// A keyframe landing exactly on the current frame is returned unchanged:
/// if the keyframe at index `i` sits on `curr` and no earlier one does, the
/// sample is its value, with no interpolation.
pub proof fn lemma_exact_hit(s: Seq<Keyframe>, woff: int, curr: int, fps: int, i: int)
    requires
        0 <= i < s.len(),
        spec_abs_frame(s[i], woff, fps) == curr,
        forall|j: int| 0 <= j < i ==> spec_abs_frame(#[trigger] s[j], woff, fps) != curr,
    ensures
        spec_get_value(s, woff, curr, fps) == s[i].value,
{
    lemma_closest_is_first_min(s, woff, curr, fps);
    let c = spec_closest(s, woff, curr, fps);
    assert(spec_abs_distance(s[i], woff, curr, fps) == 0);
    assert(spec_abs_distance(s[c], woff, curr, fps) <= 0);
    assert(spec_distance(s[c], woff, curr, fps) == 0);
    assert(spec_abs_frame(s[c], woff, fps) == curr);
    if c < i {
        assert(false);
    }
    if i < c {
        assert(spec_abs_distance(s[i], woff, curr, fps) > spec_abs_distance(
            s[c],
            woff,
            curr,
            fps,
        ));
        assert(false);
    }
}

/// Before the first keyframe the sample clamps to the first value: with
/// absolute frames in ascending order and the current frame strictly before
/// all of them, the first keyframe's value is returned unchanged.
pub proof fn lemma_clamp_before(s: Seq<Keyframe>, woff: int, curr: int, fps: int)
    requires
        s.len() > 0,
        forall|k: int, l: int|
            0 <= k < l < s.len() ==> spec_abs_frame(#[trigger] s[k], woff, fps) <= spec_abs_frame(
                #[trigger] s[l],
                woff,
                fps,
            ),
        curr < spec_abs_frame(s[0], woff, fps),
    ensures
        spec_get_value(s, woff, curr, fps) == s[0].value,
{
    lemma_closest_is_first_min(s, woff, curr, fps);
    let c = spec_closest(s, woff, curr, fps);
    assert forall|j: int| 0 <= j < s.len() implies spec_abs_distance(
        s[0],
        woff,
        curr,
        fps,
    ) <= spec_abs_distance(#[trigger] s[j], woff, curr, fps) by {
        if j > 0 {
            assert(spec_abs_frame(s[0], woff, fps) <= spec_abs_frame(s[j], woff, fps));
        }
    }
    if c != 0 {
        assert(spec_abs_distance(s[0], woff, curr, fps) > spec_abs_distance(
            s[c],
            woff,
            curr,
            fps,
        ));
        assert(false);
    }
    assert(spec_distance(s[c], woff, curr, fps) > 0);
}

/// After the last keyframe the sample clamps to the last value: with
/// absolute frames in ascending order, the last strictly above the others,
/// and the current frame strictly after all of them (but within
/// representable distance of each), the last keyframe's value is returned
/// unchanged.
pub proof fn lemma_clamp_after(s: Seq<Keyframe>, woff: int, curr: int, fps: int)
    requires
        s.len() > 0,
        forall|k: int|
            0 <= k < s.len() - 1 ==> spec_abs_frame(#[trigger] s[k], woff, fps) < spec_abs_frame(
                s[s.len() - 1],
                woff,
                fps,
            ),
        forall|k: int|
            0 <= k < s.len() ==> curr - spec_abs_frame(#[trigger] s[k], woff, fps)
                <= SAT_MAX as int,
        curr > spec_abs_frame(s[s.len() - 1], woff, fps),
    ensures
        spec_get_value(s, woff, curr, fps) == s[s.len() - 1].value,
{
    lemma_closest_is_first_min(s, woff, curr, fps);
    let n = s.len() as int;
    let c = spec_closest(s, woff, curr, fps);
    if c != n - 1 {
        assert(spec_abs_frame(s[c], woff, fps) < spec_abs_frame(s[n - 1], woff, fps));
        assert(spec_abs_distance(s[n - 1], woff, curr, fps) < spec_abs_distance(
            s[c],
            woff,
            curr,
            fps,
        ));
        assert(spec_abs_distance(s[c], woff, curr, fps) <= spec_abs_distance(
            s[n - 1],
            woff,
            curr,
            fps,
        ));
        assert(false);
    }
    assert(spec_distance(s[c], woff, curr, fps) < 0);
}

/// Between two neighbouring keyframes the sample is the interpolation of
/// exactly that pair, under the earlier keyframe's interpolation mode:
/// with strictly ascending absolute frames and the current frame strictly
/// between the frames of `i` and `i + 1`, the branchy nearest-keyframe
/// search collapses to the textbook statement.
pub proof fn lemma_interpolation_between(s: Seq<Keyframe>, woff: int, curr: int, fps: int, i: int)
    requires
        0 <= i,
        i + 1 < s.len(),
        forall|k: int, l: int|
            0 <= k < l < s.len() ==> spec_abs_frame(#[trigger] s[k], woff, fps) < spec_abs_frame(
                #[trigger] s[l],
                woff,
                fps,
            ),
        spec_abs_frame(s[i], woff, fps) < curr,
        curr < spec_abs_frame(s[i + 1], woff, fps),
    ensures
        spec_get_value(s, woff, curr, fps) == spec_interpolate(
            s[i].value as int,
            spec_abs_frame(s[i], woff, fps),
            s[i + 1].value as int,
            spec_abs_frame(s[i + 1], woff, fps),
            curr,
            spec_mode_of(s[i].interpolation),
        ),
{
    lemma_closest_is_first_min(s, woff, curr, fps);
    let n = s.len() as int;
    let c = spec_closest(s, woff, curr, fps);
    // every keyframe other than i and i + 1 is strictly farther from curr
    assert forall|j: int| 0 <= j < n && j != i && j != i + 1 implies spec_abs_distance(
        #[trigger] s[j],
        woff,
        curr,
        fps,
    ) > spec_abs_distance(s[i], woff, curr, fps) || spec_abs_distance(
        s[j],
        woff,
        curr,
        fps,
    ) > spec_abs_distance(s[i + 1], woff, curr, fps) by {
        if j < i {
            assert(spec_abs_frame(s[j], woff, fps) < spec_abs_frame(s[i], woff, fps));
        } else {
            assert(spec_abs_frame(s[i + 1], woff, fps) < spec_abs_frame(s[j], woff, fps));
        }
    }
    if spec_abs_distance(s[i], woff, curr, fps) <= spec_abs_distance(s[i + 1], woff, curr, fps) {
        // the earlier neighbour wins (ties go to the earlier index)
        assert(c == i) by {
            if c != i {
                if c == i + 1 {
                    assert(spec_abs_distance(s[i], woff, curr, fps) > spec_abs_distance(
                        s[i + 1],
                        woff,
                        curr,
                        fps,
                    ));
                } else {
                    assert(spec_abs_distance(s[c], woff, curr, fps) <= spec_abs_distance(
                        s[i],
                        woff,
                        curr,
                        fps,
                    ));
                    assert(spec_abs_distance(s[c], woff, curr, fps) <= spec_abs_distance(
                        s[i + 1],
                        woff,
                        curr,
                        fps,
                    ));
                }
                assert(false);
            }
        }
        assert(spec_distance(s[c], woff, curr, fps) < 0);
    } else {
        // the later neighbour is strictly nearer
        assert(c == i + 1) by {
            if c != i + 1 {
                if c == i {
                    assert(spec_abs_distance(s[i + 1], woff, curr, fps) >= spec_abs_distance(
                        s[i],
                        woff,
                        curr,
                        fps,
                    ));
                } else {
                    assert(spec_abs_distance(s[c], woff, curr, fps) <= spec_abs_distance(
                        s[i],
                        woff,
                        curr,
                        fps,
                    ));
                    assert(spec_abs_distance(s[c], woff, curr, fps) <= spec_abs_distance(
                        s[i + 1],
                        woff,
                        curr,
                        fps,
                    ));
                }
                assert(false);
            }
        }
        assert(spec_distance(s[c], woff, curr, fps) > 0);
        assert(c > 0);
    }
}

} // verus!
