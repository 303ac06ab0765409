//! The timeline: the full entity set, frame rate, canvas size and current
//! render position.  Evaluating it resolves every entity at the current
//! frame independently and keeps the active ones, in declaration order.

use vstd::prelude::*;
use vstd::string::StringExecFns;
use crate::entities::{
    spec_entity_active, spec_entity_like, spec_entity_result_matches, AnimatedEntity,
    AnimatedRectEntity, AnimatedTextEntity, AnimationData, Cache, Entity,
};
use crate::fixed::{scale_half_i32, scale_i32, tdiv, SCALE};
use crate::interpolations::{EasingFunction, InterpolationType, SpringProperties};
use crate::keyframe::{Keyframe, Keyframes};
use crate::paint::{
    Color, FillStyle, Paint, PaintStyle, StrokeStyle, TextAlign, TextPaint,
};
use crate::trusted::par_calculate_entities;
use crate::values::{AnimatedFloat, AnimatedFloatVec2};

verus! {

/// Free-text inputs of the demonstration scene.
#[derive(Debug, Clone, PartialEq)]
pub struct Input {
    pub title: String,
    pub sub_title: String,
}

/// The render position: the frame being evaluated.
#[derive(Debug, Clone, Copy, PartialEq, Eq, Structural)]
pub struct RenderState {
    pub curr_frame: i64,
}

/// A scene: entities in declaration order, its frame rate, duration,
/// canvas size and current render position.
#[derive(Debug)]
pub struct Timeline {
    pub entities: Vec<AnimatedEntity>,
    pub render_state: RenderState,
    pub duration: i64,
    pub fps: i16,
    pub size: (i32, i32),
}

/// The evaluation relation: `out` is exactly the resolution of the active
/// entities of `ents` at the frame, in declaration order; inactive entities
/// are dropped.
pub open spec fn spec_eval_rel(
    ents: Seq<AnimatedEntity>,
    out: Seq<Entity>,
    curr: int,
    fps: int,
) -> bool
    decreases ents.len(),
{
    if ents.len() == 0 {
        out.len() == 0
    } else {
        if spec_entity_active(ents[0], curr, fps) {
            &&& out.len() > 0
            &&& spec_entity_result_matches(ents[0], Option::Some(out[0]), curr, fps)
            &&& spec_eval_rel(ents.skip(1), out.skip(1), curr, fps)
        } else {
            spec_eval_rel(ents.skip(1), out, curr, fps)
        }
    }
}

/// Extending the input by one entity extends the relation by that entity's
/// resolution.
proof fn lemma_eval_rel_snoc(
    ents: Seq<AnimatedEntity>,
    out: Seq<Entity>,
    e: AnimatedEntity,
    res: Option<Entity>,
    curr: int,
    fps: int,
)
    requires
        spec_eval_rel(ents, out, curr, fps),
        spec_entity_result_matches(e, res, curr, fps),
    ensures
        spec_eval_rel(
            ents.push(e),
            match res {
                Option::Some(x) => out.push(x),
                Option::None => out,
            },
            curr,
            fps,
        ),
    decreases ents.len(),
{
    let ents2 = ents.push(e);
    let out2 = match res {
        Option::Some(x) => out.push(x),
        Option::None => out,
    };
    if ents.len() == 0 {
        assert(ents2[0] == e);
        assert(ents2.skip(1) =~= ents);
        match res {
            Option::Some(x) => {
                assert(spec_entity_active(e, curr, fps));
                assert(out2[0] == x);
                assert(out2.skip(1) =~= out);
            },
            Option::None => {
                assert(!spec_entity_active(e, curr, fps));
            },
        }
    } else {
        assert(ents2[0] == ents[0]);
        assert(ents2.skip(1) =~= ents.skip(1).push(e));
        if spec_entity_active(ents[0], curr, fps) {
            lemma_eval_rel_snoc(ents.skip(1), out.skip(1), e, res, curr, fps);
            match res {
                Option::Some(x) => {
                    assert(out.len() > 0);
                    assert(out2[0] == out[0]);
                    assert(out2.skip(1) =~= out.skip(1).push(x));
                },
                Option::None => {},
            }
        } else {
            lemma_eval_rel_snoc(ents.skip(1), out, e, res, curr, fps);
        }
    }
}

/// Turns the per-entity resolutions into the output list, keeping the
/// present ones in order.
#[verifier::rlimit(100)]
#[verifier::loop_isolation(false)]
fn collect_present(results: Vec<Option<Entity>>, timeline: &Timeline) -> (r: Vec<Entity>)
    requires
        results@.len() == timeline.entities@.len(),
        forall|i: int|
            0 <= i < results@.len() ==> spec_entity_result_matches(
                timeline.entities@[i],
                #[trigger] results@[i],
                timeline.render_state.curr_frame as int,
                timeline.fps as int,
            ),
    ensures
        spec_eval_rel(
            timeline.entities@,
            r@,
            timeline.render_state.curr_frame as int,
            timeline.fps as int,
        ),
{
    let ghost ents = timeline.entities@;
    let ghost curr = timeline.render_state.curr_frame as int;
    let ghost fps = timeline.fps as int;
    let mut results = results;
    let mut out: Vec<Entity> = Vec::new();
    let n = results.len();
    let ghost all = results@;
    let mut i: usize = 0;
    proof {
        assert(ents.take(0) =~= Seq::<AnimatedEntity>::empty());
    }
    while i < n
        invariant
            i <= n,
            n == ents.len(),
            all.len() == ents.len(),
            results@ =~= all.skip(i as int),
            forall|j: int|
                0 <= j < all.len() ==> spec_entity_result_matches(
                    ents[j],
                    #[trigger] all[j],
                    curr,
                    fps,
                ),
            spec_eval_rel(ents.take(i as int), out@, curr, fps),
        decreases n - i,
    {
        let head = results.remove(0);
        proof {
            assert(all.skip(i as int)[0] == all[i as int]);
            assert(all.skip(i as int).remove(0) =~= all.skip(i as int + 1));
            assert(ents.take(i as int + 1) =~= ents.take(i as int).push(ents[i as int]));
        }
        let ghost out_before = out@;
        match head {
            Option::Some(e) => {
                out.push(e);
            },
            Option::None => {},
        }
        proof {
            lemma_eval_rel_snoc(
                ents.take(i as int),
                out_before,
                ents[i as int],
                all[i as int],
                curr,
                fps,
            );
        }
        i = i + 1;
    }
    proof {
        assert(ents.take(n as int) =~= ents);
    }
    out
}

impl Timeline {
    /// Evaluates the timeline at its current frame with a parallel map over
    /// the entities; the output keeps declaration order.
    pub fn calculate(&self) -> (r: Vec<Entity>)
        ensures
            spec_eval_rel(
                self.entities@,
                r@,
                self.render_state.curr_frame as int,
                self.fps as int,
            ),
    {
        let results = par_calculate_entities(self);
        collect_present(results, self)
    }

    /// Evaluates the timeline sequentially.  The contract is the same as
    /// the parallel evaluation's, so the two agree on every scene.
    pub fn calculate_seq(&self) -> (r: Vec<Entity>)
        ensures
            spec_eval_rel(
                self.entities@,
                r@,
                self.render_state.curr_frame as int,
                self.fps as int,
            ),
    {
        let ghost ents = self.entities@;
        let ghost curr = self.render_state.curr_frame as int;
        let ghost fps = self.fps as int;
        let mut out: Vec<Entity> = Vec::new();
        let n = self.entities.len();
        let mut i: usize = 0;
        proof {
            assert(ents.take(0) =~= Seq::<AnimatedEntity>::empty());
        }
        while i < n
            invariant
                i <= n,
                n == ents.len(),
                ents == self.entities@,
                curr == self.render_state.curr_frame as int,
                fps == self.fps as int,
                spec_eval_rel(ents.take(i as int), out@, curr, fps),
            decreases n - i,
        {
            let res = self.entities[i].calculate(self);
            let ghost out_before = out@;
            let ghost res_ghost = res;
            match res {
                Option::Some(e) => {
                    out.push(e);
                },
                Option::None => {},
            }
            proof {
                assert(ents.take(i as int + 1) =~= ents.take(i as int).push(ents[i as int]));
                lemma_eval_rel_snoc(
                    ents.take(i as int),
                    out_before,
                    ents[i as int],
                    res_ghost,
                    curr,
                    fps,
                );
            }
            i = i + 1;
        }
        proof {
            assert(ents.take(n as int) =~= ents);
        }
        out
    }
}

/// Evaluates a timeline value at its current frame.
pub fn calculate_timeline_at_curr_frame(timeline: Timeline) -> (r: Vec<Entity>)
    ensures
        spec_eval_rel(
            timeline.entities@,
            r@,
            timeline.render_state.curr_frame as int,
            timeline.fps as int,
        ),
{
    timeline.calculate()
}

/// Evaluates a timeline value at its current frame.
pub fn calculate_timeline_entities_at_frame(timeline: Timeline) -> (r: Vec<Entity>)
    ensures
        spec_eval_rel(
            timeline.entities@,
            r@,
            timeline.render_state.curr_frame as int,
            timeline.fps as int,
        ),
{
    timeline.calculate()
}

// ---------------------------------------------------------------------------
// A demonstration scene: three sliding backdrop rectangles and two
// spring-driven text lines.
// ---------------------------------------------------------------------------

/// The channel holds a single keyframe at offset zero with this value and
/// no interpolation mode.
pub open spec fn spec_const_channel(af: AnimatedFloat, value: int) -> bool {
    &&& af.keyframes.values@.len() == 1
    &&& af.keyframes.values@[0].value as int == value
    &&& af.keyframes.values@[0].offset == 0
    &&& af.keyframes.values@[0].interpolation is None
}

/// A backdrop rectangle of the demonstration scene: it slides in from the
/// left over five seconds with a quintic ease-out, covers the whole canvas,
/// and is centred.
pub open spec fn spec_demo_bg(
    e: AnimatedRectEntity,
    offset: int,
    paint: Paint,
    size: (i32, i32),
) -> bool {
    &&& e.id@ == "1"@
    &&& e.cache.valid == false
    &&& e.paint == paint
    &&& e.animation_data.offset as int == offset
    &&& e.animation_data.duration == 5 * SCALE
    &&& e.animation_data.visible
    &&& e.transform is None
    &&& spec_const_channel(e.origin.keyframes.0, 640 * SCALE as int)
    &&& spec_const_channel(e.origin.keyframes.1, 360 * SCALE as int)
    &&& e.position.keyframes.0.keyframes.values@.len() == 2
    &&& e.position.keyframes.0.keyframes.values@[0].value as int == -((size.0 as int) * (
    SCALE as int))
    &&& e.position.keyframes.0.keyframes.values@[0].offset == 0
    &&& e.position.keyframes.0.keyframes.values@[0].interpolation == Some(
        InterpolationType::EasingFunction(EasingFunction::QuintOut),
    )
    &&& e.position.keyframes.0.keyframes.values@[1].value == 0
    &&& e.position.keyframes.0.keyframes.values@[1].offset == 5 * SCALE
    &&& e.position.keyframes.0.keyframes.values@[1].interpolation is None
    &&& spec_const_channel(e.position.keyframes.1, 0)
    &&& spec_const_channel(e.size.keyframes.0, (size.0 as int) * (SCALE as int))
    &&& spec_const_channel(e.size.keyframes.1, (size.1 as int) * (SCALE as int))
}

/// A text line of the demonstration scene: it springs in horizontally from
/// the left edge to the canvas centre and sits at a fixed height.  Its
/// paint uses the Arial font reference, centred.
pub open spec fn spec_demo_text(
    e: AnimatedTextEntity,
    id: Seq<char>,
    text: String,
    style: PaintStyle,
    text_size: int,
    offset: int,
    y: int,
    size: (i32, i32),
) -> bool {
    &&& e.id@ == id
    &&& e.cache.valid == false
    &&& e.text == text
    &&& e.paint.style == style
    &&& e.paint.align == TextAlign::Center
    &&& e.paint.font_name@ == "Arial"@
    &&& e.paint.size as int == text_size
    &&& e.animation_data.offset as int == offset
    &&& e.animation_data.duration == 6 * SCALE
    &&& e.animation_data.visible
    &&& e.transform is None
    &&& e.origin.keyframes.0.keyframes.values@.len() == 2
    &&& e.origin.keyframes.0.keyframes.values@[0].value == 0
    &&& e.origin.keyframes.0.keyframes.values@[0].offset == 0
    &&& e.origin.keyframes.0.keyframes.values@[0].interpolation == Some(
        InterpolationType::Spring(
            (SpringProperties { mass: 1000000, damping: 20000000, stiffness: 200000000 }),
        ),
    )
    &&& e.origin.keyframes.0.keyframes.values@[1].value as int == tdiv(size.0 as int, 2) * (
    SCALE as int)
    &&& e.origin.keyframes.0.keyframes.values@[1].offset == 2 * SCALE
    &&& e.origin.keyframes.0.keyframes.values@[1].interpolation is None
    &&& spec_const_channel(e.origin.keyframes.1, y)
}

/// A solid fill paint of the demonstration scene, fully opaque.
pub open spec fn spec_demo_fill(red: u8, green: u8, blue: u8) -> Paint {
    Paint {
        style: PaintStyle::Fill(
            FillStyle { color: Color { value: (red, green, blue, SCALE as i64) } },
        ),
    }
}

/// The whole demonstration scene: three staggered backdrop rectangles, a
/// title and a subtitle, at 60 frames per second over five seconds.
pub open spec fn spec_demo_timeline(
    t: Timeline,
    render_state: RenderState,
    size: (i32, i32),
    input: Input,
) -> bool {
    &&& t.fps == 60
    &&& t.duration == 5 * SCALE
    &&& t.size == size
    &&& t.render_state == render_state
    &&& t.entities@.len() == 5
    &&& t.entities@[0] matches AnimatedEntity::Rect(b0) && spec_demo_bg(
        b0,
        0,
        spec_demo_fill(34, 189, 58),
        size,
    )
    &&& t.entities@[1] matches AnimatedEntity::Rect(b1) && spec_demo_bg(
        b1,
        (SCALE as int) / 2,
        spec_demo_fill(23, 178, 28),
        size,
    )
    &&& t.entities@[2] matches AnimatedEntity::Rect(b2) && spec_demo_bg(
        b2,
        SCALE as int,
        spec_demo_fill(43, 128, 98),
        size,
    )
    &&& t.entities@[3] matches AnimatedEntity::Text(t3) && spec_demo_text(
        t3,
        "2"@,
        input.title,
        PaintStyle::Stroke(
            (StrokeStyle { color: (Color { value: (0, 0, 0, SCALE as i64) }), width: 10000000 }),
        ),
        20 * SCALE as int,
        0,
        tdiv(size.1 as int, 2) * (SCALE as int),
        size,
    )
    &&& t.entities@[4] matches AnimatedEntity::Text(t4) && spec_demo_text(
        t4,
        "3"@,
        input.sub_title,
        PaintStyle::Fill((FillStyle { color: (Color { value: (0, 0, 0, SCALE as i64) }) })),
        10 * SCALE as int,
        (SCALE as int) / 2,
        tdiv(size.1 as int, 2) * (SCALE as int) + 80 * (SCALE as int),
        size,
    )
}

/// Builds one backdrop rectangle of the demonstration scene.
fn build_bg(offset: i64, paint: Paint, size: (i32, i32)) -> (r: AnimatedRectEntity)
    ensures
        spec_demo_bg(r, offset as int, paint, size),
{
    let w = scale_i32(size.0);
    let neg_w = -w;
    let h = scale_i32(size.1);
    let bg_box = AnimatedRectEntity {
        id: String::from_str("1"),
        paint,
        animation_data: AnimationData { offset, duration: 5 * SCALE, visible: true },
        cache: Cache { valid: false },
        transform: None,
        origin: AnimatedFloatVec2::new(640 * SCALE, 360 * SCALE),
        position: AnimatedFloatVec2 {
            keyframes: (
                AnimatedFloat {
                    keyframes: Keyframes {
                        values: vec![
                            Keyframe {
                                id: String::from_str("1"),
                                value: neg_w,
                                offset: 0,
                                interpolation: Some(
                                    InterpolationType::EasingFunction(EasingFunction::QuintOut),
                                ),
                            },
                            Keyframe {
                                id: String::from_str("2"),
                                value: 0,
                                offset: 5 * SCALE,
                                interpolation: None,
                            },
                        ],
                    },
                },
                AnimatedFloat {
                    keyframes: Keyframes {
                        values: vec![
                            Keyframe {
                                id: String::from_str("3"),
                                value: 0,
                                offset: 0,
                                interpolation: None,
                            },
                        ],
                    },
                },
            ),
        },
        size: AnimatedFloatVec2 {
            keyframes: (
                AnimatedFloat {
                    keyframes: Keyframes {
                        values: vec![
                            Keyframe {
                                id: String::from_str("4"),
                                interpolation: None,
                                value: w,
                                offset: 0,
                            },
                        ],
                    },
                },
                AnimatedFloat {
                    keyframes: Keyframes {
                        values: vec![
                            Keyframe {
                                id: String::from_str("5"),
                                value: h,
                                offset: 0,
                                interpolation: None,
                            },
                        ],
                    },
                },
            ),
        },
    };
    bg_box
}

/// Builds one text line of the demonstration scene.
fn build_demo_text(
    id: &str,
    text: String,
    paint: TextPaint,
    offset: i64,
    y: i64,
    size: (i32, i32),
) -> (r: AnimatedTextEntity)
    ensures
        spec_demo_text(
            r,
            id@,
            text,
            paint.style,
            paint.size as int,
            offset as int,
            y as int,
            size,
        ) == (paint.align == TextAlign::Center && paint.font_name@ == "Arial"@),
{
    let half_w = scale_half_i32(size.0);
    AnimatedTextEntity {
        id: String::from_str(id),
        paint,
        cache: Cache { valid: false },
        text,
        animation_data: AnimationData { offset, duration: 6 * SCALE, visible: true },
        transform: None,
        origin: AnimatedFloatVec2 {
            keyframes: (
                AnimatedFloat {
                    keyframes: Keyframes {
                        values: vec![
                            Keyframe {
                                id: String::from_str("1"),
                                value: 0,
                                offset: 0,
                                interpolation: Some(
                                    InterpolationType::Spring(
                                        SpringProperties {
                                            mass: SCALE,
                                            damping: 20 * SCALE,
                                            stiffness: 200 * SCALE,
                                        },
                                    ),
                                ),
                            },
                            Keyframe {
                                id: String::from_str("2"),
                                value: half_w,
                                offset: 2 * SCALE,
                                interpolation: None,
                            },
                        ],
                    },
                },
                AnimatedFloat {
                    keyframes: Keyframes {
                        values: vec![
                            Keyframe {
                                id: String::from_str("3"),
                                value: y,
                                offset: 0,
                                interpolation: None,
                            },
                        ],
                    },
                },
            ),
        },
    }
}

/// Builds and evaluates the demonstration scene at the given render
/// position: three backdrop rectangles slide in half a second apart, and a
/// title and subtitle spring to the canvas centre.
pub fn test_timeline_entities_at_frame(
    render_state: RenderState,
    size: (i32, i32),
    input: Input,
) -> (r: Vec<Entity>)
    ensures
        exists|t: Timeline|
            #[trigger] spec_demo_timeline(t, render_state, size, input) && spec_eval_rel(
                t.entities@,
                r@,
                render_state.curr_frame as int,
                60,
            ),
{
    let rect1_paint = Paint {
        style: PaintStyle::Fill(FillStyle { color: Color::new(34, 189, 58, SCALE) }),
    };
    let rect2_paint = Paint {
        style: PaintStyle::Fill(FillStyle { color: Color::new(23, 178, 28, SCALE) }),
    };
    let rect3_paint = Paint {
        style: PaintStyle::Fill(FillStyle { color: Color::new(43, 128, 98, SCALE) }),
    };

    let title_paint = TextPaint {
        style: PaintStyle::Stroke(
            StrokeStyle { color: Color::new(0, 0, 0, SCALE), width: 10 * SCALE },
        ),
        font_name: String::from_str("Arial"),
        align: TextAlign::Center,
        size: 20 * SCALE,
    };

    let sub_title_paint = TextPaint {
        style: PaintStyle::Fill(FillStyle { color: Color::new(0, 0, 0, SCALE) }),
        font_name: String::from_str("Arial"),
        align: TextAlign::Center,
        size: 10 * SCALE,
    };

    let half_h = scale_half_i32(size.1);
    let title = build_demo_text("2", input.title, title_paint, 0, half_h, size);
    let sub_title = build_demo_text(
        "3",
        input.sub_title,
        sub_title_paint,
        SCALE / 2,
        half_h + 80 * SCALE,
        size,
    );

    let mut entities: Vec<AnimatedEntity> = Vec::new();
    entities.push(AnimatedEntity::Rect(build_bg(0, rect1_paint, size)));
    entities.push(AnimatedEntity::Rect(build_bg(SCALE / 2, rect2_paint, size)));
    entities.push(AnimatedEntity::Rect(build_bg(SCALE, rect3_paint, size)));
    entities.push(AnimatedEntity::Text(title));
    entities.push(AnimatedEntity::Text(sub_title));

    let timeline = Timeline {
        fps: 60,
        duration: 5 * SCALE,
        size,
        entities,
        render_state,
    };

    let r = timeline.calculate();
    proof {
        assert(spec_demo_timeline(timeline, render_state, size, input));
    }
    r
}

/// Evaluation is deterministic: two output lists that both satisfy the
/// evaluation relation for the same scene and frame have the same length
/// and are deeply equal element by element.  The parallel and the
/// sequential evaluation both satisfy the relation, so they agree on every
/// scene, and re-evaluating the same scene at the same frame reproduces
/// the same output.
#[verifier::rlimit(60)]
pub proof fn lemma_evaluation_deterministic(
    ents: Seq<AnimatedEntity>,
    out1: Seq<Entity>,
    out2: Seq<Entity>,
    curr: int,
    fps: int,
)
    requires
        spec_eval_rel(ents, out1, curr, fps),
        spec_eval_rel(ents, out2, curr, fps),
    ensures
        out1.len() == out2.len(),
        forall|i: int| 0 <= i < out1.len() ==> spec_entity_like(#[trigger] out1[i], out2[i]),
    decreases ents.len(),
{
    if ents.len() == 0 {
    } else {
        if spec_entity_active(ents[0], curr, fps) {
            crate::entities::lemma_entity_result_unique(
                ents[0],
                Option::Some(out1[0]),
                Option::Some(out2[0]),
                curr,
                fps,
            );
            lemma_evaluation_deterministic(ents.skip(1), out1.skip(1), out2.skip(1), curr, fps);
            assert forall|i: int| 0 <= i < out1.len() implies spec_entity_like(
                #[trigger] out1[i],
                out2[i],
            ) by {
                if i > 0 {
                    assert(out1.skip(1)[i - 1] == out1[i]);
                    assert(out2.skip(1)[i - 1] == out2[i]);
                }
            }
        } else {
            lemma_evaluation_deterministic(ents.skip(1), out1, out2, curr, fps);
        }
    }
}

} // verus!
