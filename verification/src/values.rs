//! Animated quantities: one, two or three independent keyframe channels
//! composed into a scalar, a 2-vector or a 3-vector.  Axes never couple;
//! each is sampled on its own.

use vstd::prelude::*;
use crate::entities::AnimationData;
use crate::keyframe::{spec_get_value, spec_sort_by_offset, Keyframe, Keyframes};
use crate::trusted::fresh_keyframe_id;

verus! {

/// A scalar channel animated by one keyframe set.
#[derive(Debug, Clone, PartialEq)]
pub struct AnimatedFloat {
    pub keyframes: Keyframes,
}

/// Two independent animated scalars, one per axis.
#[derive(Debug)]
pub struct AnimatedFloatVec2 {
    pub keyframes: (AnimatedFloat, AnimatedFloat),
}

/// Three independent animated scalars, one per axis.
#[derive(Debug)]
pub struct AnimatedFloatVec3 {
    pub keyframes: (AnimatedFloat, AnimatedFloat, AnimatedFloat),
}

/// The sampled value of an animated scalar at a frame.
pub open spec fn spec_sample_float(af: AnimatedFloat, woff: int, curr: int, fps: int) -> int {
    spec_get_value(af.keyframes.values@, woff, curr, fps)
}

/// The sampled value of an animated scalar at a frame, after
/// normalisation (stable sort by offset).
pub open spec fn spec_sample_float_sorted(
    af: AnimatedFloat,
    woff: int,
    curr: int,
    fps: int,
) -> int {
    spec_get_value(spec_sort_by_offset(af.keyframes.values@), woff, curr, fps)
}

impl AnimatedFloat {
    /// A constant channel: one keyframe at offset zero holding the value,
    /// with a freshly drawn identifier.
    pub fn new(val: i64) -> (r: AnimatedFloat)
        ensures
            r.keyframes.values@.len() == 1,
            r.keyframes.values@[0].value == val,
            r.keyframes.values@[0].offset == 0,
            r.keyframes.values@[0].interpolation is None,
    {
        AnimatedFloat {
            keyframes: Keyframes {
                values: vec![
                    Keyframe {
                        id: fresh_keyframe_id(),
                        value: val,
                        offset: 0,
                        interpolation: None,
                    },
                ],
            },
        }
    }

    /// Stable sort of the channel's keyframes by offset.
    pub fn sort_keyframes(&mut self)
        ensures
            final(self).keyframes.values@ == spec_sort_by_offset(old(self).keyframes.values@),
    {
        self.keyframes.sort();
    }

    /// A normalised copy of the channel.
    pub fn sorted(&self) -> (r: AnimatedFloat)
        ensures
            r.keyframes.values@ == spec_sort_by_offset(self.keyframes.values@),
    {
        AnimatedFloat { keyframes: self.keyframes.sorted() }
    }

    /// Samples the channel at one frame.
    pub fn get_value_at_frame(
        &self,
        curr_frame: i64,
        animation_data: &AnimationData,
        fps: i16,
    ) -> (r: i64)
        ensures
            r as int == spec_sample_float(
                *self,
                animation_data.offset as int,
                curr_frame as int,
                fps as int,
            ),
    {
        self.keyframes.get_value_at_frame(curr_frame, animation_data, fps)
    }

    /// Samples the channel at every frame of `[start_frame, end_frame)`,
    /// in frame order.
    pub fn get_values_at_frame_range(
        &self,
        start_frame: i64,
        end_frame: i64,
        animation_data: &AnimationData,
        fps: i16,
    ) -> (r: Vec<i64>)
        requires
            end_frame as int - start_frame as int <= usize::MAX as int,
        ensures
            r@.len() == if end_frame > start_frame {
                end_frame - start_frame
            } else {
                0
            },
            forall|k: int|
                0 <= k < r@.len() ==> #[trigger] r@[k] as int == spec_sample_float(
                    *self,
                    animation_data.offset as int,
                    start_frame + k,
                    fps as int,
                ),
    {
        let mut out: Vec<i64> = Vec::new();
        if end_frame <= start_frame {
            return out;
        }
        let total: usize = (((end_frame as i128) - (start_frame as i128)) as u128) as usize;
        let mut k: usize = 0;
        while k < total
            invariant
                k <= total,
                total == end_frame as int - start_frame as int,
                start_frame as int + total as int <= i64::MAX as int + 1,
                out@.len() == k,
                forall|j: int|
                    0 <= j < k ==> #[trigger] out@[j] as int == spec_sample_float(
                        *self,
                        animation_data.offset as int,
                        start_frame + j,
                        fps as int,
                    ),
            decreases total - k,
        {
            let frame: i64 = (((start_frame as i128) + (k as i128)) as i128) as i64;
            out.push(self.get_value_at_frame(frame, animation_data, fps));
            k = k + 1;
        }
        out
    }
}

impl AnimatedFloatVec2 {
    /// Two constant channels holding the given axis values.
    pub fn new(x: i64, y: i64) -> (r: AnimatedFloatVec2)
        ensures
            r.keyframes.0.keyframes.values@.len() == 1,
            r.keyframes.0.keyframes.values@[0].value == x,
            r.keyframes.0.keyframes.values@[0].offset == 0,
            r.keyframes.0.keyframes.values@[0].interpolation is None,
            r.keyframes.1.keyframes.values@.len() == 1,
            r.keyframes.1.keyframes.values@[0].value == y,
            r.keyframes.1.keyframes.values@[0].offset == 0,
            r.keyframes.1.keyframes.values@[0].interpolation is None,
    {
        AnimatedFloatVec2 { keyframes: (AnimatedFloat::new(x), AnimatedFloat::new(y)) }
    }

    /// Stable sort of both axes' keyframes by offset.
    pub fn sort_keyframes(&mut self)
        ensures
            final(self).keyframes.0.keyframes.values@ == spec_sort_by_offset(
                old(self).keyframes.0.keyframes.values@,
            ),
            final(self).keyframes.1.keyframes.values@ == spec_sort_by_offset(
                old(self).keyframes.1.keyframes.values@,
            ),
    {
        self.keyframes.0.sort_keyframes();
        self.keyframes.1.sort_keyframes();
    }

    /// A normalised copy of both axes.
    pub fn sorted(&self) -> (r: AnimatedFloatVec2)
        ensures
            r.keyframes.0.keyframes.values@ == spec_sort_by_offset(
                self.keyframes.0.keyframes.values@,
            ),
            r.keyframes.1.keyframes.values@ == spec_sort_by_offset(
                self.keyframes.1.keyframes.values@,
            ),
    {
        AnimatedFloatVec2 { keyframes: (self.keyframes.0.sorted(), self.keyframes.1.sorted()) }
    }

    /// Samples both axes at one frame.
    pub fn get_value_at_frame(
        &self,
        curr_frame: i64,
        animation_data: &AnimationData,
        fps: i16,
    ) -> (r: (i64, i64))
        ensures
            r.0 as int == spec_sample_float(
                self.keyframes.0,
                animation_data.offset as int,
                curr_frame as int,
                fps as int,
            ),
            r.1 as int == spec_sample_float(
                self.keyframes.1,
                animation_data.offset as int,
                curr_frame as int,
                fps as int,
            ),
    {
        let x = self.keyframes.0.get_value_at_frame(curr_frame, animation_data, fps);
        let y = self.keyframes.1.get_value_at_frame(curr_frame, animation_data, fps);
        (x, y)
    }

    /// Samples both axes at every frame of `[start_frame, end_frame)`.
    pub fn get_values_at_frame_range(
        &self,
        start_frame: i64,
        end_frame: i64,
        animation_data: &AnimationData,
        fps: i16,
    ) -> (r: Vec<(i64, i64)>)
        requires
            end_frame as int - start_frame as int <= usize::MAX as int,
        ensures
            r@.len() == if end_frame > start_frame {
                end_frame - start_frame
            } else {
                0
            },
            forall|k: int|
                0 <= k < r@.len() ==> (#[trigger] r@[k]).0 as int == spec_sample_float(
                    self.keyframes.0,
                    animation_data.offset as int,
                    start_frame + k,
                    fps as int,
                ) && r@[k].1 as int == spec_sample_float(
                    self.keyframes.1,
                    animation_data.offset as int,
                    start_frame + k,
                    fps as int,
                ),
    {
        let x = self.keyframes.0.get_values_at_frame_range(
            start_frame,
            end_frame,
            animation_data,
            fps,
        );
        let y = self.keyframes.1.get_values_at_frame_range(
            start_frame,
            end_frame,
            animation_data,
            fps,
        );
        let mut out: Vec<(i64, i64)> = Vec::new();
        let mut k: usize = 0;
        while k < x.len()
            invariant
                k <= x.len(),
                x.len() == y.len(),
                out@.len() == k,
                forall|j: int|
                    0 <= j < k ==> #[trigger] out@[j] == (x@[j], y@[j]),
            decreases x.len() - k,
        {
            out.push((x[k], y[k]));
            k = k + 1;
        }
        out
    }
}

impl AnimatedFloatVec3 {
    /// Three constant channels holding the given axis values.
    pub fn new(x: i64, y: i64, z: i64) -> (r: AnimatedFloatVec3)
        ensures
            r.keyframes.0.keyframes.values@.len() == 1,
            r.keyframes.0.keyframes.values@[0].value == x,
            r.keyframes.0.keyframes.values@[0].offset == 0,
            r.keyframes.0.keyframes.values@[0].interpolation is None,
            r.keyframes.1.keyframes.values@.len() == 1,
            r.keyframes.1.keyframes.values@[0].value == y,
            r.keyframes.1.keyframes.values@[0].offset == 0,
            r.keyframes.1.keyframes.values@[0].interpolation is None,
            r.keyframes.2.keyframes.values@.len() == 1,
            r.keyframes.2.keyframes.values@[0].value == z,
            r.keyframes.2.keyframes.values@[0].offset == 0,
            r.keyframes.2.keyframes.values@[0].interpolation is None,
    {
        AnimatedFloatVec3 {
            keyframes: (AnimatedFloat::new(x), AnimatedFloat::new(y), AnimatedFloat::new(z)),
        }
    }

    /// Stable sort of all three axes' keyframes by offset.
    pub fn sort_keyframes(&mut self)
        ensures
            final(self).keyframes.0.keyframes.values@ == spec_sort_by_offset(
                old(self).keyframes.0.keyframes.values@,
            ),
            final(self).keyframes.1.keyframes.values@ == spec_sort_by_offset(
                old(self).keyframes.1.keyframes.values@,
            ),
            final(self).keyframes.2.keyframes.values@ == spec_sort_by_offset(
                old(self).keyframes.2.keyframes.values@,
            ),
    {
        self.keyframes.0.sort_keyframes();
        self.keyframes.1.sort_keyframes();
        self.keyframes.2.sort_keyframes();
    }

    /// A normalised copy of all three axes.
    pub fn sorted(&self) -> (r: AnimatedFloatVec3)
        ensures
            r.keyframes.0.keyframes.values@ == spec_sort_by_offset(
                self.keyframes.0.keyframes.values@,
            ),
            r.keyframes.1.keyframes.values@ == spec_sort_by_offset(
                self.keyframes.1.keyframes.values@,
            ),
            r.keyframes.2.keyframes.values@ == spec_sort_by_offset(
                self.keyframes.2.keyframes.values@,
            ),
    {
        AnimatedFloatVec3 {
            keyframes: (
                self.keyframes.0.sorted(),
                self.keyframes.1.sorted(),
                self.keyframes.2.sorted(),
            ),
        }
    }

    /// Samples all three axes at one frame.
    pub fn get_value_at_frame(
        &self,
        curr_frame: i64,
        animation_data: &AnimationData,
        fps: i16,
    ) -> (r: (i64, i64, i64))
        ensures
            r.0 as int == spec_sample_float(
                self.keyframes.0,
                animation_data.offset as int,
                curr_frame as int,
                fps as int,
            ),
            r.1 as int == spec_sample_float(
                self.keyframes.1,
                animation_data.offset as int,
                curr_frame as int,
                fps as int,
            ),
            r.2 as int == spec_sample_float(
                self.keyframes.2,
                animation_data.offset as int,
                curr_frame as int,
                fps as int,
            ),
    {
        let x = self.keyframes.0.get_value_at_frame(curr_frame, animation_data, fps);
        let y = self.keyframes.1.get_value_at_frame(curr_frame, animation_data, fps);
        let z = self.keyframes.2.get_value_at_frame(curr_frame, animation_data, fps);
        (x, y, z)
    }

    /// Samples all three axes at every frame of `[start_frame, end_frame)`.
    pub fn get_values_at_frame_range(
        &self,
        start_frame: i64,
        end_frame: i64,
        animation_data: &AnimationData,
        fps: i16,
    ) -> (r: Vec<(i64, i64, i64)>)
        requires
            end_frame as int - start_frame as int <= usize::MAX as int,
        ensures
            r@.len() == if end_frame > start_frame {
                end_frame - start_frame
            } else {
                0
            },
            forall|k: int|
                0 <= k < r@.len() ==> (#[trigger] r@[k]).0 as int == spec_sample_float(
                    self.keyframes.0,
                    animation_data.offset as int,
                    start_frame + k,
                    fps as int,
                ) && r@[k].1 as int == spec_sample_float(
                    self.keyframes.1,
                    animation_data.offset as int,
                    start_frame + k,
                    fps as int,
                ) && r@[k].2 as int == spec_sample_float(
                    self.keyframes.2,
                    animation_data.offset as int,
                    start_frame + k,
                    fps as int,
                ),
    {
        let x = self.keyframes.0.get_values_at_frame_range(
            start_frame,
            end_frame,
            animation_data,
            fps,
        );
        let y = self.keyframes.1.get_values_at_frame_range(
            start_frame,
            end_frame,
            animation_data,
            fps,
        );
        let z = self.keyframes.2.get_values_at_frame_range(
            start_frame,
            end_frame,
            animation_data,
            fps,
        );
        let mut out: Vec<(i64, i64, i64)> = Vec::new();
        let mut k: usize = 0;
        while k < x.len()
            invariant
                k <= x.len(),
                x.len() == y.len() && x.len() == z.len(),
                out@.len() == k,
                forall|j: int|
                    0 <= j < k ==> #[trigger] out@[j] == (x@[j], y@[j], z@[j]),
            decreases x.len() - k,
        {
            out.push((x[k], y[k], z[k]));
            k = k + 1;
        }
        out
    }
}

/// Samples a 1-channel animated value over a frame range.
pub fn get_values_at_frame_range_from_animated_float(
    animated_value: AnimatedFloat,
    start_frame: i64,
    end_frame: i64,
    animation_data: AnimationData,
    fps: i16,
) -> (r: Vec<i64>)
    requires
        end_frame as int - start_frame as int <= usize::MAX as int,
    ensures
        r@.len() == if end_frame > start_frame {
            end_frame - start_frame
        } else {
            0
        },
        forall|k: int|
            0 <= k < r@.len() ==> #[trigger] r@[k] as int == spec_sample_float(
                animated_value,
                animation_data.offset as int,
                start_frame + k,
                fps as int,
            ),
{
    animated_value.get_values_at_frame_range(start_frame, end_frame, &animation_data, fps)
}

/// Samples a 2-channel animated value over a frame range.
pub fn get_values_at_frame_range_from_animated_float_vec2(
    animated_value: AnimatedFloatVec2,
    start_frame: i64,
    end_frame: i64,
    animation_data: AnimationData,
    fps: i16,
) -> (r: Vec<(i64, i64)>)
    requires
        end_frame as int - start_frame as int <= usize::MAX as int,
    ensures
        r@.len() == if end_frame > start_frame {
            end_frame - start_frame
        } else {
            0
        },
        forall|k: int|
            0 <= k < r@.len() ==> (#[trigger] r@[k]).0 as int == spec_sample_float(
                animated_value.keyframes.0,
                animation_data.offset as int,
                start_frame + k,
                fps as int,
            ) && r@[k].1 as int == spec_sample_float(
                animated_value.keyframes.1,
                animation_data.offset as int,
                start_frame + k,
                fps as int,
            ),
{
    animated_value.get_values_at_frame_range(start_frame, end_frame, &animation_data, fps)
}

/// Samples a 3-channel animated value over a frame range.
pub fn get_values_at_frame_range_from_animated_float_vec3(
    animated_value: AnimatedFloatVec3,
    start_frame: i64,
    end_frame: i64,
    animation_data: AnimationData,
    fps: i16,
) -> (r: Vec<(i64, i64, i64)>)
    requires
        end_frame as int - start_frame as int <= usize::MAX as int,
    ensures
        r@.len() == if end_frame > start_frame {
            end_frame - start_frame
        } else {
            0
        },
        forall|k: int|
            0 <= k < r@.len() ==> (#[trigger] r@[k]).0 as int == spec_sample_float(
                animated_value.keyframes.0,
                animation_data.offset as int,
                start_frame + k,
                fps as int,
            ) && r@[k].1 as int == spec_sample_float(
                animated_value.keyframes.1,
                animation_data.offset as int,
                start_frame + k,
                fps as int,
            ) && r@[k].2 as int == spec_sample_float(
                animated_value.keyframes.2,
                animation_data.offset as int,
                start_frame + k,
                fps as int,
            ),
{
    animated_value.get_values_at_frame_range(start_frame, end_frame, &animation_data, fps)
}

/// `new` is `old` with both axes' keyframes stably sorted by offset.
pub open spec fn spec_vec2_is_sorted_of(new: AnimatedFloatVec2, prev: AnimatedFloatVec2) -> bool {
    &&& new.keyframes.0.keyframes.values@ == spec_sort_by_offset(
        prev.keyframes.0.keyframes.values@,
    )
    &&& new.keyframes.1.keyframes.values@ == spec_sort_by_offset(
        prev.keyframes.1.keyframes.values@,
    )
}

} // verus!
