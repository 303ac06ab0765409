//! Entity variants and their per-frame resolution.
//!
//! Each animated entity owns the animated quantities of its shape, paint
//! data, an active time window and an optional animated transform.
//! Resolution at a frame first tests the window (and the explicit
//! visibility flag); an inactive entity resolves to absence.  An active one
//! has every owned channel normalised and sampled at the frame, and the
//! results are assembled into the static counterpart.

use vstd::prelude::*;
use vstd::string::StrSliceExecFns;
use crate::fixed::{sat64, sat_i128, spec_to_frame, to_frame_i128, SAT_MAX};
use crate::paint::{clone_text_paint, Paint, TextPaint};
use crate::timeline::Timeline;
use crate::transform::{spec_transform_matches, AnimatedTransform, Transform};
use crate::utils::timestamp_to_frame;
use crate::values::{spec_sample_float_sorted, AnimatedFloatVec2};

verus! {

/// The active time window of an entity: the interval
/// `[offset, offset + duration]` in fixed-point seconds during which the
/// entity is eligible to be drawn, gated by the explicit `visible` flag.
#[derive(Debug, Clone, Copy, PartialEq, Eq, Structural)]
pub struct AnimationData {
    pub offset: i64,
    pub duration: i64,
    pub visible: bool,
}

/// A cache-validity marker carried by entities; it is stored and copied but
/// never consulted by evaluation.
#[derive(Debug, Clone, Copy, PartialEq, Eq, Structural)]
pub struct Cache {
    pub valid: bool,
}

/// First frame of a window.
pub open spec fn spec_window_start(ad: AnimationData, fps: int) -> int {
    spec_to_frame(ad.offset as int, fps)
}

/// Last frame of a window (both bounds use the same rounding, so window
/// edges and keyframe offsets stay aligned).
pub open spec fn spec_window_end(ad: AnimationData, fps: int) -> int {
    spec_to_frame(ad.offset as int + ad.duration as int, fps)
}

/// An entity is drawn exactly when its window admits the current frame,
/// bounds inclusive, and its visibility flag is set.
pub open spec fn spec_should_draw(ad: AnimationData, curr: int, fps: int) -> bool {
    &&& ad.visible
    &&& spec_window_start(ad, fps) <= curr
    &&& curr <= spec_window_end(ad, fps)
}

/// Tests whether an entity with this window is drawn at the timeline's
/// current frame.
pub fn should_draw(animation_data: &AnimationData, timeline: &Timeline) -> (r: bool)
    ensures
        r == spec_should_draw(
            *animation_data,
            timeline.render_state.curr_frame as int,
            timeline.fps as int,
        ),
{
    let start_frame = timestamp_to_frame(animation_data.offset, timeline.fps);
    let end_frame = to_frame_i128(
        (animation_data.offset as i128) + (animation_data.duration as i128),
        timeline.fps,
    );
    let is_before = timeline.render_state.curr_frame < start_frame;
    let is_after = timeline.render_state.curr_frame > end_frame;
    animation_data.visible && !is_before && !is_after
}

// ---------------------------------------------------------------------------
// The entity variants.
// ---------------------------------------------------------------------------

/// A static text entity.
#[derive(Debug)]
pub struct TextEntity {
    pub id: String,
    pub cache: Cache,
    pub text: String,
    pub origin: (i64, i64),
    pub paint: TextPaint,
    pub transform: Option<Transform>,
}

/// An animated text entity.
#[derive(Debug)]
pub struct AnimatedTextEntity {
    pub id: String,
    pub cache: Cache,
    pub text: String,
    pub origin: AnimatedFloatVec2,
    pub paint: TextPaint,
    pub animation_data: AnimationData,
    pub transform: Option<AnimatedTransform>,
}

/// A static rectangle entity.
#[derive(Debug)]
pub struct RectEntity {
    pub id: String,
    pub position: (i64, i64),
    pub size: (i64, i64),
    pub origin: (i64, i64),
    pub paint: Paint,
    pub transform: Option<Transform>,
}

/// An animated rectangle entity.
#[derive(Debug)]
pub struct AnimatedRectEntity {
    pub id: String,
    pub cache: Cache,
    pub position: AnimatedFloatVec2,
    pub size: AnimatedFloatVec2,
    pub origin: AnimatedFloatVec2,
    pub paint: Paint,
    pub animation_data: AnimationData,
    pub transform: Option<AnimatedTransform>,
}

/// A static ellipse entity.
#[derive(Debug)]
pub struct EllipseEntity {
    pub radius: (i64, i64),
    pub position: (i64, i64),
    pub origin: (i64, i64),
    pub paint: Paint,
    pub transform: Option<Transform>,
}

/// An animated ellipse entity.
#[derive(Debug)]
pub struct AnimatedEllipseEntity {
    pub paint: Paint,
    pub radius: AnimatedFloatVec2,
    pub origin: AnimatedFloatVec2,
    pub position: AnimatedFloatVec2,
    pub animation_data: AnimationData,
    pub transform: Option<AnimatedTransform>,
}

/// The per-letter animated data of a staggered text: one transform
/// definition replicated per character, and the paint shared by all
/// letters.
#[derive(Debug)]
pub struct AnimatedStaggeredTextLetter {
    pub transform: Option<AnimatedTransform>,
    pub paint: TextPaint,
}

/// The resolved per-letter data: one static transform per character, in
/// character order.
#[derive(Debug, Clone, PartialEq)]
pub struct StaggeredTextLetter {
    pub transform: Option<Vec<Transform>>,
    pub paint: TextPaint,
}

/// An animated staggered text entity: the letter transform is re-evaluated
/// per character against a window shifted by `stagger` per index.
#[derive(Debug)]
pub struct AnimatedStaggeredTextEntity {
    pub id: String,
    pub cache: Cache,
    pub text: String,
    pub stagger: i64,
    pub origin: AnimatedFloatVec2,
    pub animation_data: AnimationData,
    pub transform: Option<AnimatedTransform>,
    pub letter: AnimatedStaggeredTextLetter,
}

/// A static staggered text entity.
#[derive(Debug)]
pub struct StaggeredTextEntity {
    pub id: String,
    pub cache: Cache,
    pub text: String,
    pub stagger: i64,
    pub origin: (i64, i64),
    pub transform: Option<Transform>,
    pub animation_data: AnimationData,
    pub letter: StaggeredTextLetter,
}

/// The closed set of animated entity kinds.
#[derive(Debug)]
pub enum AnimatedEntity {
    Text(AnimatedTextEntity),
    StaggeredText(AnimatedStaggeredTextEntity),
    Ellipse(AnimatedEllipseEntity),
    Rect(AnimatedRectEntity),
}

/// The closed set of static entity kinds.
#[derive(Debug)]
pub enum Entity {
    Text(TextEntity),
    StaggeredText(StaggeredTextEntity),
    Ellipse(EllipseEntity),
    Rect(RectEntity),
}

// ---------------------------------------------------------------------------
// Resolution, specification side.
// ---------------------------------------------------------------------------

/// An optional transform is resolved exactly when present.
pub open spec fn spec_opt_transform_matches(
    r: Option<Transform>,
    t: Option<AnimatedTransform>,
    woff: int,
    curr: int,
    fps: int,
) -> bool {
    match t {
        Option::None => r is None,
        Option::Some(at) => match r {
            Option::Some(tr) => spec_transform_matches(tr, at, woff, curr, fps),
            Option::None => false,
        },
    }
}

/// The per-letter transforms: one per character, each resolved against the
/// entity's window with its offset shifted by `stagger` times the character
/// index (duration unchanged).
pub open spec fn spec_letter_transforms_match(
    r: Option<Vec<Transform>>,
    t: Option<AnimatedTransform>,
    text: Seq<char>,
    woff: int,
    stagger: int,
    curr: int,
    fps: int,
) -> bool {
    match t {
        Option::None => r is None,
        Option::Some(at) => match r {
            Option::Some(v) => {
                &&& v@.len() == text.len()
                &&& forall|i: int|
                    0 <= i < v@.len() ==> spec_transform_matches(
                        #[trigger] v@[i],
                        at,
                        sat64(woff + stagger * i),
                        curr,
                        fps,
                    )
            },
            Option::None => false,
        },
    }
}

/// Resolution of a text entity.
pub open spec fn spec_text_matches(
    e: AnimatedTextEntity,
    res: Option<Entity>,
    curr: int,
    fps: int,
) -> bool {
    if spec_should_draw(e.animation_data, curr, fps) {
        match res {
            Option::Some(Entity::Text(r)) => {
                let woff = e.animation_data.offset as int;
                &&& r.id == e.id
                &&& r.cache == e.cache
                &&& r.text == e.text
                &&& r.origin.0 as int == spec_sample_float_sorted(
                    e.origin.keyframes.0,
                    woff,
                    curr,
                    fps,
                )
                &&& r.origin.1 as int == spec_sample_float_sorted(
                    e.origin.keyframes.1,
                    woff,
                    curr,
                    fps,
                )
                &&& r.paint == e.paint
                &&& spec_opt_transform_matches(r.transform, e.transform, woff, curr, fps)
            },
            _ => false,
        }
    } else {
        res is None
    }
}

/// Resolution of a rectangle entity.
pub open spec fn spec_rect_matches(
    e: AnimatedRectEntity,
    res: Option<Entity>,
    curr: int,
    fps: int,
) -> bool {
    if spec_should_draw(e.animation_data, curr, fps) {
        match res {
            Option::Some(Entity::Rect(r)) => {
                let woff = e.animation_data.offset as int;
                &&& r.id == e.id
                &&& r.position.0 as int == spec_sample_float_sorted(
                    e.position.keyframes.0,
                    woff,
                    curr,
                    fps,
                )
                &&& r.position.1 as int == spec_sample_float_sorted(
                    e.position.keyframes.1,
                    woff,
                    curr,
                    fps,
                )
                &&& r.size.0 as int == spec_sample_float_sorted(
                    e.size.keyframes.0,
                    woff,
                    curr,
                    fps,
                )
                &&& r.size.1 as int == spec_sample_float_sorted(
                    e.size.keyframes.1,
                    woff,
                    curr,
                    fps,
                )
                &&& r.origin.0 as int == spec_sample_float_sorted(
                    e.origin.keyframes.0,
                    woff,
                    curr,
                    fps,
                )
                &&& r.origin.1 as int == spec_sample_float_sorted(
                    e.origin.keyframes.1,
                    woff,
                    curr,
                    fps,
                )
                &&& r.paint == e.paint
                &&& spec_opt_transform_matches(r.transform, e.transform, woff, curr, fps)
            },
            _ => false,
        }
    } else {
        res is None
    }
}

/// Resolution of an ellipse entity.
pub open spec fn spec_ellipse_matches(
    e: AnimatedEllipseEntity,
    res: Option<Entity>,
    curr: int,
    fps: int,
) -> bool {
    if spec_should_draw(e.animation_data, curr, fps) {
        match res {
            Option::Some(Entity::Ellipse(r)) => {
                let woff = e.animation_data.offset as int;
                &&& r.radius.0 as int == spec_sample_float_sorted(
                    e.radius.keyframes.0,
                    woff,
                    curr,
                    fps,
                )
                &&& r.radius.1 as int == spec_sample_float_sorted(
                    e.radius.keyframes.1,
                    woff,
                    curr,
                    fps,
                )
                &&& r.position.0 as int == spec_sample_float_sorted(
                    e.position.keyframes.0,
                    woff,
                    curr,
                    fps,
                )
                &&& r.position.1 as int == spec_sample_float_sorted(
                    e.position.keyframes.1,
                    woff,
                    curr,
                    fps,
                )
                &&& r.origin.0 as int == spec_sample_float_sorted(
                    e.origin.keyframes.0,
                    woff,
                    curr,
                    fps,
                )
                &&& r.origin.1 as int == spec_sample_float_sorted(
                    e.origin.keyframes.1,
                    woff,
                    curr,
                    fps,
                )
                &&& r.paint == e.paint
                &&& spec_opt_transform_matches(r.transform, e.transform, woff, curr, fps)
            },
            _ => false,
        }
    } else {
        res is None
    }
}

/// Resolution of a staggered text entity.
pub open spec fn spec_staggered_matches(
    e: AnimatedStaggeredTextEntity,
    res: Option<Entity>,
    curr: int,
    fps: int,
) -> bool {
    if spec_should_draw(e.animation_data, curr, fps) {
        match res {
            Option::Some(Entity::StaggeredText(r)) => {
                let woff = e.animation_data.offset as int;
                &&& r.id == e.id
                &&& r.cache == e.cache
                &&& r.text == e.text
                &&& r.stagger == e.stagger
                &&& r.animation_data == e.animation_data
                &&& r.origin.0 as int == spec_sample_float_sorted(
                    e.origin.keyframes.0,
                    woff,
                    curr,
                    fps,
                )
                &&& r.origin.1 as int == spec_sample_float_sorted(
                    e.origin.keyframes.1,
                    woff,
                    curr,
                    fps,
                )
                &&& spec_opt_transform_matches(r.transform, e.transform, woff, curr, fps)
                &&& r.letter.paint == e.letter.paint
                &&& spec_letter_transforms_match(
                    r.letter.transform,
                    e.letter.transform,
                    e.text@,
                    woff,
                    e.stagger as int,
                    curr,
                    fps,
                )
            },
            _ => false,
        }
    } else {
        res is None
    }
}

/// The window test of whichever variant an entity is.
pub open spec fn spec_entity_active(e: AnimatedEntity, curr: int, fps: int) -> bool {
    match e {
        AnimatedEntity::Text(t) => spec_should_draw(t.animation_data, curr, fps),
        AnimatedEntity::StaggeredText(t) => spec_should_draw(t.animation_data, curr, fps),
        AnimatedEntity::Ellipse(t) => spec_should_draw(t.animation_data, curr, fps),
        AnimatedEntity::Rect(t) => spec_should_draw(t.animation_data, curr, fps),
    }
}

/// Resolution of whichever variant an entity is: present exactly when the
/// entity is active, with every field pinned to its sampled value.
pub open spec fn spec_entity_result_matches(
    e: AnimatedEntity,
    res: Option<Entity>,
    curr: int,
    fps: int,
) -> bool {
    match e {
        AnimatedEntity::Text(t) => spec_text_matches(t, res, curr, fps),
        AnimatedEntity::StaggeredText(t) => spec_staggered_matches(t, res, curr, fps),
        AnimatedEntity::Ellipse(t) => spec_ellipse_matches(t, res, curr, fps),
        AnimatedEntity::Rect(t) => spec_rect_matches(t, res, curr, fps),
    }
}

// ---------------------------------------------------------------------------
// Resolution, executable side.
// ---------------------------------------------------------------------------

/// Resolves an optional animated transform against a window.
fn calculate_opt_transform(
    t: &Option<AnimatedTransform>,
    timeline: &Timeline,
    animation_data: &AnimationData,
) -> (r: Option<Transform>)
    ensures
        spec_opt_transform_matches(
            r,
            *t,
            animation_data.offset as int,
            timeline.render_state.curr_frame as int,
            timeline.fps as int,
        ),
{
    match t {
        Option::Some(val) => Option::Some(val.calculate(timeline, animation_data)),
        Option::None => Option::None,
    }
}

impl AnimatedTextEntity {
    /// Assembles the static text snapshot at the timeline's current frame.
    fn into_static(&self, timeline: &Timeline) -> (r: TextEntity)
        ensures
            spec_text_matches(
                *self,
                Option::Some(Entity::Text(r)),
                timeline.render_state.curr_frame as int,
                timeline.fps as int,
            ) == spec_should_draw(
                self.animation_data,
                timeline.render_state.curr_frame as int,
                timeline.fps as int,
            ),
    {
        let origin = self.origin.sorted().get_value_at_frame(
            timeline.render_state.curr_frame,
            &self.animation_data,
            timeline.fps,
        );
        let transform = calculate_opt_transform(&self.transform, timeline, &self.animation_data);
        TextEntity {
            id: self.id.clone(),
            cache: self.cache,
            transform,
            text: self.text.clone(),
            origin,
            paint: clone_text_paint(&self.paint),
        }
    }

    /// Resolves the entity: absent when outside its window, the static
    /// snapshot otherwise.
    pub fn calculate(&self, timeline: &Timeline) -> (r: Option<Entity>)
        ensures
            spec_text_matches(
                *self,
                r,
                timeline.render_state.curr_frame as int,
                timeline.fps as int,
            ),
    {
        if should_draw(&self.animation_data, timeline) {
            Option::Some(Entity::Text(self.into_static(timeline)))
        } else {
            Option::None
        }
    }
}

impl AnimatedRectEntity {
    /// Resolves the entity: absent when outside its window, the static
    /// snapshot otherwise.
    pub fn calculate(&self, timeline: &Timeline) -> (r: Option<Entity>)
        ensures
            spec_rect_matches(
                *self,
                r,
                timeline.render_state.curr_frame as int,
                timeline.fps as int,
            ),
    {
        if should_draw(&self.animation_data, timeline) {
            let curr = timeline.render_state.curr_frame;
            let fps = timeline.fps;
            let position = self.position.sorted().get_value_at_frame(
                curr,
                &self.animation_data,
                fps,
            );
            let size = self.size.sorted().get_value_at_frame(curr, &self.animation_data, fps);
            let origin = self.origin.sorted().get_value_at_frame(curr, &self.animation_data, fps);
            let transform = calculate_opt_transform(
                &self.transform,
                timeline,
                &self.animation_data,
            );
            Option::Some(
                Entity::Rect(
                    RectEntity {
                        id: self.id.clone(),
                        position,
                        size,
                        origin,
                        paint: self.paint,
                        transform,
                    },
                ),
            )
        } else {
            Option::None
        }
    }
}

impl AnimatedEllipseEntity {
    /// Resolves the entity: absent when outside its window, the static
    /// snapshot otherwise.
    pub fn calculate(&self, timeline: &Timeline) -> (r: Option<Entity>)
        ensures
            spec_ellipse_matches(
                *self,
                r,
                timeline.render_state.curr_frame as int,
                timeline.fps as int,
            ),
    {
        if should_draw(&self.animation_data, timeline) {
            let curr = timeline.render_state.curr_frame;
            let fps = timeline.fps;
            let radius = self.radius.sorted().get_value_at_frame(curr, &self.animation_data, fps);
            let position = self.position.sorted().get_value_at_frame(
                curr,
                &self.animation_data,
                fps,
            );
            let origin = self.origin.sorted().get_value_at_frame(curr, &self.animation_data, fps);
            let transform = calculate_opt_transform(
                &self.transform,
                timeline,
                &self.animation_data,
            );
            Option::Some(
                Entity::Ellipse(
                    EllipseEntity { radius, position, origin, paint: self.paint, transform },
                ),
            )
        } else {
            Option::None
        }
    }
}

impl AnimatedStaggeredTextEntity {
    /// Resolves the entity: the shared transform against the entity's own
    /// window, then one transform per character against a window whose
    /// offset grows by `stagger` per character index.
    #[verifier::rlimit(60)]
    pub fn calculate(&self, timeline: &Timeline) -> (r: Option<Entity>)
        ensures
            spec_staggered_matches(
                *self,
                r,
                timeline.render_state.curr_frame as int,
                timeline.fps as int,
            ),
    {
        if should_draw(&self.animation_data, timeline) {
            let curr = timeline.render_state.curr_frame;
            let fps = timeline.fps;
            let transform = calculate_opt_transform(
                &self.transform,
                timeline,
                &self.animation_data,
            );
            let letter_transform: Option<Vec<Transform>> = match &self.letter.transform {
                Option::Some(val) => {
                    let mut transforms: Vec<Transform> = Vec::new();
                    let n = self.text.as_str().unicode_len();
                    let mut i: usize = 0;
                    while i < n
                        invariant
                            i <= n,
                            n == self.text@.len(),
                            curr == timeline.render_state.curr_frame,
                            fps == timeline.fps,
                            transforms@.len() == i,
                            forall|j: int|
                                0 <= j < i ==> spec_transform_matches(
                                    #[trigger] transforms@[j],
                                    *val,
                                    sat64(
                                        self.animation_data.offset as int + self.stagger as int
                                            * j,
                                    ),
                                    curr as int,
                                    fps as int,
                                ),
                        decreases n - i,
                    {
                        proof {
                            assert(-0x7fff_ffff_ffff_ffff_8000_0000_0000_0000
                                <= (self.stagger as int) * (i as int)
                                <= 0x7fff_ffff_ffff_ffff_8000_0000_0000_0000) by (nonlinear_arith)
                                requires
                                    -0x8000_0000_0000_0000 <= self.stagger as int
                                        <= 0x7fff_ffff_ffff_ffff,
                                    0 <= i as int <= 0xffff_ffff_ffff_ffff,
                            ;
                        }
                        let shifted = sat_i128(
                            (self.animation_data.offset as i128) + (self.stagger as i128) * (
                            i as i128),
                        );
                        let animation_data = AnimationData {
                            offset: shifted,
                            duration: self.animation_data.duration,
                            visible: self.animation_data.visible,
                        };
                        let letter = val.calculate(timeline, &animation_data);
                        proof {
                            assert(spec_transform_matches(
                                letter,
                                *val,
                                sat64(
                                    self.animation_data.offset as int + self.stagger as int * (
                                    i as int),
                                ),
                                curr as int,
                                fps as int,
                            ));
                        }
                        transforms.push(letter);
                        i = i + 1;
                    }
                    Option::Some(transforms)
                },
                Option::None => Option::None,
            };
            let origin = self.origin.sorted().get_value_at_frame(curr, &self.animation_data, fps);
            Option::Some(
                Entity::StaggeredText(
                    StaggeredTextEntity {
                        id: self.id.clone(),
                        transform,
                        cache: self.cache,
                        stagger: self.stagger,
                        origin,
                        text: self.text.clone(),
                        animation_data: self.animation_data,
                        letter: StaggeredTextLetter {
                            transform: letter_transform,
                            paint: clone_text_paint(&self.letter.paint),
                        },
                    },
                ),
            )
        } else {
            Option::None
        }
    }
}

impl AnimatedEntity {
    /// Resolves whichever variant the entity is.
    pub fn calculate(&self, timeline: &Timeline) -> (r: Option<Entity>)
        ensures
            spec_entity_result_matches(
                *self,
                r,
                timeline.render_state.curr_frame as int,
                timeline.fps as int,
            ),
    {
        match self {
            AnimatedEntity::Text(text_entity) => text_entity.calculate(timeline),
            AnimatedEntity::Rect(box_entity) => box_entity.calculate(timeline),
            AnimatedEntity::StaggeredText(staggered_text_entity) => staggered_text_entity
                .calculate(timeline),
            AnimatedEntity::Ellipse(ellipse_entity) => ellipse_entity.calculate(timeline),
        }
    }
}

// ---------------------------------------------------------------------------
// Laws of entity resolution.
// ---------------------------------------------------------------------------

/// Deep equality of two resolved entities: the same variant with all fields
/// equal (per-letter transform lists compared element by element).
pub open spec fn spec_entity_like(a: Entity, b: Entity) -> bool {
    match a {
        Entity::Text(x) => match b {
            Entity::Text(y) => {
                &&& x.id == y.id
                &&& x.cache == y.cache
                &&& x.text == y.text
                &&& x.origin == y.origin
                &&& x.paint == y.paint
                &&& x.transform == y.transform
            },
            _ => false,
        },
        Entity::Rect(x) => match b {
            Entity::Rect(y) => {
                &&& x.id == y.id
                &&& x.position == y.position
                &&& x.size == y.size
                &&& x.origin == y.origin
                &&& x.paint == y.paint
                &&& x.transform == y.transform
            },
            _ => false,
        },
        Entity::Ellipse(x) => match b {
            Entity::Ellipse(y) => {
                &&& x.radius == y.radius
                &&& x.position == y.position
                &&& x.origin == y.origin
                &&& x.paint == y.paint
                &&& x.transform == y.transform
            },
            _ => false,
        },
        Entity::StaggeredText(x) => match b {
            Entity::StaggeredText(y) => {
                &&& x.id == y.id
                &&& x.cache == y.cache
                &&& x.text == y.text
                &&& x.stagger == y.stagger
                &&& x.origin == y.origin
                &&& x.transform == y.transform
                &&& x.animation_data == y.animation_data
                &&& x.letter.paint == y.letter.paint
                &&& match x.letter.transform {
                    Option::Some(v1) => match y.letter.transform {
                        Option::Some(v2) => v1@ == v2@,
                        Option::None => false,
                    },
                    Option::None => y.letter.transform is None,
                }
            },
            _ => false,
        },
    }
}

proof fn lemma_opt_transform_unique(
    r1: Option<Transform>,
    r2: Option<Transform>,
    t: Option<AnimatedTransform>,
    woff: int,
    curr: int,
    fps: int,
)
    requires
        spec_opt_transform_matches(r1, t, woff, curr, fps),
        spec_opt_transform_matches(r2, t, woff, curr, fps),
    ensures
        r1 == r2,
{
    match t {
        Option::Some(at) => {
            let a = r1->Some_0;
            let b = r2->Some_0;
            assert(a.translate.0 == b.translate.0);
            assert(a.translate.1 == b.translate.1);
            assert(a.scale.0 == b.scale.0);
            assert(a.scale.1 == b.scale.1);
            assert(a.skew.0 == b.skew.0);
            assert(a.skew.1 == b.skew.1);
            assert(a.rotate.0 == b.rotate.0);
            assert(a.rotate.1 == b.rotate.1);
            assert(a.rotate.2 == b.rotate.2);
            assert(a == b);
        },
        Option::None => {},
    }
}

/// Resolution is a function of the entity, the frame and the frame rate:
/// any two results that satisfy the resolution relation are present
/// together and deeply equal.  This is what makes re-evaluation, and
/// parallel evaluation, reproducible.
pub proof fn lemma_entity_result_unique(
    e: AnimatedEntity,
    r1: Option<Entity>,
    r2: Option<Entity>,
    curr: int,
    fps: int,
)
    requires
        spec_entity_result_matches(e, r1, curr, fps),
        spec_entity_result_matches(e, r2, curr, fps),
    ensures
        r1 is Some <==> r2 is Some,
        r1 is Some ==> spec_entity_like(r1->Some_0, r2->Some_0),
{
    if spec_entity_active(e, curr, fps) {
        let a = r1->Some_0;
        let b = r2->Some_0;
        match e {
            AnimatedEntity::Text(t) => {
                lemma_opt_transform_unique(
                    (a->Text_0).transform,
                    (b->Text_0).transform,
                    t.transform,
                    t.animation_data.offset as int,
                    curr,
                    fps,
                );
            },
            AnimatedEntity::Rect(t) => {
                lemma_opt_transform_unique(
                    (a->Rect_0).transform,
                    (b->Rect_0).transform,
                    t.transform,
                    t.animation_data.offset as int,
                    curr,
                    fps,
                );
            },
            AnimatedEntity::Ellipse(t) => {
                lemma_opt_transform_unique(
                    (a->Ellipse_0).transform,
                    (b->Ellipse_0).transform,
                    t.transform,
                    t.animation_data.offset as int,
                    curr,
                    fps,
                );
            },
            AnimatedEntity::StaggeredText(t) => {
                let x = a->StaggeredText_0;
                let y = b->StaggeredText_0;
                lemma_opt_transform_unique(
                    x.transform,
                    y.transform,
                    t.transform,
                    t.animation_data.offset as int,
                    curr,
                    fps,
                );
                match t.letter.transform {
                    Option::Some(at) => {
                        let v1 = x.letter.transform->Some_0;
                        let v2 = y.letter.transform->Some_0;
                        assert forall|i: int| 0 <= i < v1@.len() implies v1@[i] == v2@[i] by {
                            lemma_opt_transform_unique(
                                Option::Some(v1@[i]),
                                Option::Some(v2@[i]),
                                Option::Some(at),
                                sat64(
                                    t.animation_data.offset as int + t.stagger as int * i,
                                ),
                                curr,
                                fps,
                            );
                        }
                        assert(v1@ =~= v2@);
                    },
                    Option::None => {},
                }
            },
        }
    }
}

/// Consecutive letters of a staggered text start exactly one stagger
/// apart: as long as the shifted offsets stay in the representable range,
/// the effective window offsets of letters `i` and `i + 1` differ by
/// exactly the stagger amount.
pub proof fn lemma_stagger_spacing(woff: int, stagger: int, i: int)
    requires
        i >= 0,
        -(SAT_MAX as int) <= woff + stagger * i <= SAT_MAX as int,
        -(SAT_MAX as int) <= woff + stagger * (i + 1) <= SAT_MAX as int,
    ensures
        sat64(woff + stagger * (i + 1)) - sat64(woff + stagger * i) == stagger,
{
    assert(stagger * (i + 1) == stagger * i + stagger) by (nonlinear_arith);
}

// ---------------------------------------------------------------------------
// Normalisation of entities.
// ---------------------------------------------------------------------------

/// `new` is `old` with every keyframe channel stably sorted, where a
/// transform is present on both sides or neither.
pub open spec fn spec_opt_transform_is_sorted_of(
    new: Option<AnimatedTransform>,
    prev: Option<AnimatedTransform>,
) -> bool {
    match prev {
        Option::Some(p) => match new {
            Option::Some(q) => crate::transform::spec_transform_is_sorted_of(q, p),
            Option::None => false,
        },
        Option::None => new is None,
    }
}

/// Stable sort of an optional transform's channels.
fn sort_opt_transform(t: &mut Option<AnimatedTransform>)
    ensures
        spec_opt_transform_is_sorted_of(*final(t), *old(t)),
{
    match t {
        Option::Some(x) => {
            x.sort_keyframes();
        },
        Option::None => {},
    }
}

impl AnimatedTextEntity {
    /// Stable sort of every owned keyframe channel by offset.
    pub fn sort_keyframes(&mut self)
        ensures
            spec_opt_transform_is_sorted_of(final(self).transform, old(self).transform),
            crate::values::spec_vec2_is_sorted_of(final(self).origin, old(self).origin),
            final(self).id == old(self).id,
            final(self).cache == old(self).cache,
            final(self).text == old(self).text,
            final(self).paint == old(self).paint,
            final(self).animation_data == old(self).animation_data,
    {
        sort_opt_transform(&mut self.transform);
        self.origin.sort_keyframes();
    }
}

impl AnimatedRectEntity {
    /// Stable sort of every owned keyframe channel by offset.
    pub fn sort_keyframes(&mut self)
        ensures
            spec_opt_transform_is_sorted_of(final(self).transform, old(self).transform),
            crate::values::spec_vec2_is_sorted_of(final(self).position, old(self).position),
            crate::values::spec_vec2_is_sorted_of(final(self).size, old(self).size),
            final(self).origin == old(self).origin,
            final(self).id == old(self).id,
            final(self).cache == old(self).cache,
            final(self).paint == old(self).paint,
            final(self).animation_data == old(self).animation_data,
    {
        sort_opt_transform(&mut self.transform);
        self.position.sort_keyframes();
        self.size.sort_keyframes();
    }
}

impl AnimatedEllipseEntity {
    /// Stable sort of every owned keyframe channel by offset.
    pub fn sort_keyframes(&mut self)
        ensures
            spec_opt_transform_is_sorted_of(final(self).transform, old(self).transform),
            crate::values::spec_vec2_is_sorted_of(final(self).position, old(self).position),
            crate::values::spec_vec2_is_sorted_of(final(self).radius, old(self).radius),
            final(self).origin == old(self).origin,
            final(self).paint == old(self).paint,
            final(self).animation_data == old(self).animation_data,
    {
        sort_opt_transform(&mut self.transform);
        self.position.sort_keyframes();
        self.radius.sort_keyframes();
    }
}

impl AnimatedStaggeredTextEntity {
    /// Stable sort of every owned keyframe channel by offset.
    pub fn sort_keyframes(&mut self)
        ensures
            spec_opt_transform_is_sorted_of(final(self).transform, old(self).transform),
            spec_opt_transform_is_sorted_of(
                final(self).letter.transform,
                old(self).letter.transform,
            ),
            final(self).letter.paint == old(self).letter.paint,
            final(self).origin == old(self).origin,
            final(self).id == old(self).id,
            final(self).cache == old(self).cache,
            final(self).text == old(self).text,
            final(self).stagger == old(self).stagger,
            final(self).animation_data == old(self).animation_data,
    {
        sort_opt_transform(&mut self.transform);
        sort_opt_transform(&mut self.letter.transform);
    }
}

} // verus!
