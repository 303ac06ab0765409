//! The 2D affine transform bundle: translate, scale, skew and rotate, each
//! an independent animated quantity, resolving to a static snapshot.

use vstd::prelude::*;
use crate::entities::AnimationData;
use crate::keyframe::spec_sort_by_offset;
use crate::timeline::Timeline;
use crate::values::{
    spec_sample_float_sorted, AnimatedFloatVec2, AnimatedFloatVec3,
};

verus! {

/// A static affine transform snapshot.
#[derive(Debug, Clone, Copy, PartialEq, Eq)]
pub struct Transform {
    pub translate: (i64, i64),
    pub scale: (i64, i64),
    pub skew: (i64, i64),
    pub rotate: (i64, i64, i64),
}

/// The animated counterpart of `Transform`.
#[derive(Debug)]
pub struct AnimatedTransform {
    pub translate: AnimatedFloatVec2,
    pub scale: AnimatedFloatVec2,
    pub skew: AnimatedFloatVec2,
    pub rotate: AnimatedFloatVec3,
}

/// The snapshot `r` is the animated transform `t` resolved at the current
/// frame: every component equals its channel sampled (after normalisation)
/// against the window starting at `woff`.
pub open spec fn spec_transform_matches(
    r: Transform,
    t: AnimatedTransform,
    woff: int,
    curr: int,
    fps: int,
) -> bool {
    &&& r.translate.0 as int == spec_sample_float_sorted(t.translate.keyframes.0, woff, curr, fps)
    &&& r.translate.1 as int == spec_sample_float_sorted(t.translate.keyframes.1, woff, curr, fps)
    &&& r.scale.0 as int == spec_sample_float_sorted(t.scale.keyframes.0, woff, curr, fps)
    &&& r.scale.1 as int == spec_sample_float_sorted(t.scale.keyframes.1, woff, curr, fps)
    &&& r.skew.0 as int == spec_sample_float_sorted(t.skew.keyframes.0, woff, curr, fps)
    &&& r.skew.1 as int == spec_sample_float_sorted(t.skew.keyframes.1, woff, curr, fps)
    &&& r.rotate.0 as int == spec_sample_float_sorted(t.rotate.keyframes.0, woff, curr, fps)
    &&& r.rotate.1 as int == spec_sample_float_sorted(t.rotate.keyframes.1, woff, curr, fps)
    &&& r.rotate.2 as int == spec_sample_float_sorted(t.rotate.keyframes.2, woff, curr, fps)
}

/// `new` is `old` with every keyframe channel stably sorted by offset.
pub open spec fn spec_transform_is_sorted_of(new: AnimatedTransform, prev: AnimatedTransform) -> bool {
    &&& new.translate.keyframes.0.keyframes.values@ == spec_sort_by_offset(
        prev.translate.keyframes.0.keyframes.values@,
    )
    &&& new.translate.keyframes.1.keyframes.values@ == spec_sort_by_offset(
        prev.translate.keyframes.1.keyframes.values@,
    )
    &&& new.scale.keyframes.0.keyframes.values@ == spec_sort_by_offset(
        prev.scale.keyframes.0.keyframes.values@,
    )
    &&& new.scale.keyframes.1.keyframes.values@ == spec_sort_by_offset(
        prev.scale.keyframes.1.keyframes.values@,
    )
    &&& new.skew.keyframes.0.keyframes.values@ == spec_sort_by_offset(
        prev.skew.keyframes.0.keyframes.values@,
    )
    &&& new.skew.keyframes.1.keyframes.values@ == spec_sort_by_offset(
        prev.skew.keyframes.1.keyframes.values@,
    )
    &&& new.rotate.keyframes.0.keyframes.values@ == spec_sort_by_offset(
        prev.rotate.keyframes.0.keyframes.values@,
    )
    &&& new.rotate.keyframes.1.keyframes.values@ == spec_sort_by_offset(
        prev.rotate.keyframes.1.keyframes.values@,
    )
    &&& new.rotate.keyframes.2.keyframes.values@ == spec_sort_by_offset(
        prev.rotate.keyframes.2.keyframes.values@,
    )
}

impl AnimatedTransform {
    /// Stable sort of every channel's keyframes by offset.
    pub fn sort_keyframes(&mut self)
        ensures
            spec_transform_is_sorted_of(*final(self), *old(self)),
    {
        self.rotate.sort_keyframes();
        self.skew.sort_keyframes();
        self.scale.sort_keyframes();
        self.translate.sort_keyframes();
    }

    /// Resolves the transform at the timeline's current frame against the
    /// given window: every channel is normalised and sampled.
    pub fn calculate(&self, timeline: &Timeline, animation_data: &AnimationData) -> (r: Transform)
        ensures
            spec_transform_matches(
                r,
                *self,
                animation_data.offset as int,
                timeline.render_state.curr_frame as int,
                timeline.fps as int,
            ),
    {
        let curr = timeline.render_state.curr_frame;
        let fps = timeline.fps;
        let skew = self.skew.sorted().get_value_at_frame(curr, animation_data, fps);
        let scale = self.scale.sorted().get_value_at_frame(curr, animation_data, fps);
        let translate = self.translate.sorted().get_value_at_frame(curr, animation_data, fps);
        let rotate = self.rotate.sorted().get_value_at_frame(curr, animation_data, fps);
        Transform { skew, scale, translate, rotate }
    }
}

} // verus!
