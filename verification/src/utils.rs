//! Frame addressing: the single seconds-to-frame conversion used everywhere,
//! and the per-keyframe rendering step that places a keyframe on the
//! absolute frame axis.

use vstd::prelude::*;
use vstd::arithmetic::div_mod::{lemma_div_is_ordered, lemma_div_pos_is_pos};
use crate::fixed::{sat64, sat_i128, spec_to_frame, to_frame_i128, SCALE};
use crate::keyframe::{Keyframe, RenderedKeyframe};
use crate::entities::AnimationData;

verus! {

/// Absolute frame of a keyframe: the owning window's start frame plus the
/// keyframe's own offset, both converted with the same rounding.
pub open spec fn spec_abs_frame(kf: Keyframe, window_offset: int, fps: int) -> int {
    sat64(spec_to_frame(window_offset, fps) + spec_to_frame(kf.offset as int, fps))
}

/// Signed distance from the current frame to a keyframe's absolute frame.
pub open spec fn spec_distance(kf: Keyframe, window_offset: int, curr: int, fps: int) -> int {
    sat64(spec_abs_frame(kf, window_offset, fps) - curr)
}

/// Magnitude of the signed distance.
pub open spec fn spec_abs_distance(kf: Keyframe, window_offset: int, curr: int, fps: int) -> int {
    let d = spec_distance(kf, window_offset, curr, fps);
    if d < 0 {
        -d
    } else {
        d
    }
}

/// Converts a fixed-point timestamp in seconds to a whole frame number,
/// rounding to the nearest frame (halves away from zero).
pub fn timestamp_to_frame(timestamp: i64, fps: i16) -> (r: i64)
    ensures
        r as int == spec_to_frame(timestamp as int, fps as int),
{
    to_frame_i128(timestamp as i128, fps)
}

/// Places one keyframe on the absolute frame axis relative to the owning
/// animation window and records its distance to the current frame.
pub fn render_keyframe(
    keyframe: Keyframe,
    animation_data: &AnimationData,
    index: usize,
    curr_frame: i64,
    fps: i16,
) -> (r: RenderedKeyframe)
    ensures
        r.keyframe == keyframe,
        r.index == index,
        r.absolute_frame as int == spec_abs_frame(keyframe, animation_data.offset as int, fps as int),
        r.distance_from_curr as int == spec_distance(
            keyframe,
            animation_data.offset as int,
            curr_frame as int,
            fps as int,
        ),
        r.abs_distance_from_curr as int == spec_abs_distance(
            keyframe,
            animation_data.offset as int,
            curr_frame as int,
            fps as int,
        ),
{
    let animation_start_frame = timestamp_to_frame(animation_data.offset, fps);
    let frame_offset = timestamp_to_frame(keyframe.offset, fps);
    let absolute_frame = sat_i128((animation_start_frame as i128) + (frame_offset as i128));
    let distance_from_curr = sat_i128((absolute_frame as i128) - (curr_frame as i128));
    let abs_distance_from_curr = if distance_from_curr < 0 {
        -distance_from_curr
    } else {
        distance_from_curr
    };

    RenderedKeyframe {
        absolute_frame,
        keyframe,
        index,
        distance_from_curr,
        abs_distance_from_curr,
    }
}

/// Frame conversion is monotone for a non-negative frame rate: a later
/// timestamp never lands on an earlier frame.  Together with the stable
/// sort this carries the keyframe order over to the absolute frame axis.
pub proof fn lemma_to_frame_monotone(ts1: int, ts2: int, fps: int)
    requires
        ts1 <= ts2,
        fps >= 0,
    ensures
        spec_to_frame(ts1, fps) <= spec_to_frame(ts2, fps),
{
    let p1 = ts1 * fps;
    let p2 = ts2 * fps;
    assert(p1 <= p2) by (nonlinear_arith)
        requires
            ts1 <= ts2,
            fps >= 0,
            p1 == ts1 * fps,
            p2 == ts2 * fps,
    ;
    lemma_round_half_div_monotone(p1, p2, SCALE as int);
}

/// Rounded division by a positive divisor is monotone in the dividend.
proof fn lemma_round_half_div_monotone(p1: int, p2: int, d: int)
    requires
        p1 <= p2,
        d > 0,
    ensures
        crate::fixed::round_half_div(p1, d) <= crate::fixed::round_half_div(p2, d),
{
    if p1 >= 0 {
        lemma_div_is_ordered(p1 + d / 2, p2 + d / 2, d);
    } else if p2 < 0 {
        lemma_div_is_ordered(-p2 + d / 2, -p1 + d / 2, d);
    } else {
        lemma_div_pos_is_pos(p2 + d / 2, d);
        lemma_div_pos_is_pos(-p1 + d / 2, d);
    }
}

/// The absolute frame of a keyframe is monotone in its offset, for a
/// non-negative frame rate: after the stable sort by offset, absolute
/// frames are ascending, which is what the boundary and bracketing laws of
/// the sampler assume.
pub proof fn lemma_abs_frame_monotone(a: Keyframe, b: Keyframe, woff: int, fps: int)
    requires
        a.offset <= b.offset,
        fps >= 0,
    ensures
        spec_abs_frame(a, woff, fps) <= spec_abs_frame(b, woff, fps),
{
    lemma_to_frame_monotone(a.offset as int, b.offset as int, fps);
}

} // verus!