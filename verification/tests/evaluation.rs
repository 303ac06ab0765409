//! Timeline evaluation: window gating, ordering, determinism, staggered
//! text and the easing catalogue, on concrete scenes.

use creator_core::entities::{
    AnimatedEntity, AnimatedRectEntity, AnimatedStaggeredTextEntity, AnimatedStaggeredTextLetter,
    AnimationData, Cache, Entity,
};
use creator_core::interpolations::{EasingFunction, InterpolationType};
use creator_core::keyframe::{Keyframe, Keyframes};
use creator_core::paint::{Color, FillStyle, Paint, PaintStyle, TextAlign, TextPaint};
use creator_core::timeline::{
    calculate_timeline_at_curr_frame, calculate_timeline_entities_at_frame,
    test_timeline_entities_at_frame, Input, RenderState, Timeline,
};
use creator_core::transform::AnimatedTransform;
use creator_core::values::{AnimatedFloat, AnimatedFloatVec2, AnimatedFloatVec3};

fn kf(value: i64, offset: i64, interpolation: Option<InterpolationType>) -> Keyframe {
    Keyframe { value, offset, id: "k".to_string(), interpolation }
}

fn channel(values: Vec<Keyframe>) -> AnimatedFloat {
    AnimatedFloat { keyframes: Keyframes { values } }
}

fn const_vec2(x: i64, y: i64) -> AnimatedFloatVec2 {
    AnimatedFloatVec2 { keyframes: (channel(vec![kf(x, 0, None)]), channel(vec![kf(y, 0, None)])) }
}

fn plain_paint() -> Paint {
    Paint { style: PaintStyle::Fill(FillStyle { color: Color::new(1, 2, 3, 1_000_000) }) }
}

fn rect_with_window(offset: i64, duration: i64, visible: bool) -> AnimatedEntity {
    AnimatedEntity::Rect(AnimatedRectEntity {
        id: "r".to_string(),
        cache: Cache { valid: false },
        position: const_vec2(10_000_000, 20_000_000),
        size: const_vec2(30_000_000, 40_000_000),
        origin: const_vec2(0, 0),
        paint: plain_paint(),
        animation_data: AnimationData { offset, duration, visible },
        transform: None,
    })
}

fn timeline_at(entities: Vec<AnimatedEntity>, curr_frame: i64) -> Timeline {
    Timeline {
        entities,
        render_state: RenderState { curr_frame },
        duration: 5_000_000,
        fps: 60,
        size: (1280, 720),
    }
}

#[test]
fn window_bounds_are_inclusive() {
    // window = {offset: 0, duration: 5 s} at 60 fps covers frames 0 ..= 300
    for (frame, expected) in [(0i64, 1usize), (300, 1), (301, 0), (-1, 0)] {
        let t = timeline_at(vec![rect_with_window(0, 5_000_000, true)], frame);
        let out = calculate_timeline_at_curr_frame(t);
        assert_eq!(out.len(), expected, "at frame {frame}");
    }
}

#[test]
fn invisible_entities_are_dropped() {
    let t = timeline_at(vec![rect_with_window(0, 5_000_000, false)], 10);
    assert_eq!(calculate_timeline_at_curr_frame(t).len(), 0);
}

#[test]
fn evaluation_keeps_declaration_order() {
    // three rectangles; the middle one is outside its window
    let t = timeline_at(
        vec![
            rect_with_window(0, 5_000_000, true),
            rect_with_window(50_000_000, 5_000_000, true),
            rect_with_window(0, 5_000_000, true),
        ],
        10,
    );
    let out = t.calculate();
    assert_eq!(out.len(), 2);
    for e in &out {
        match e {
            Entity::Rect(r) => {
                assert_eq!(r.position, (10_000_000, 20_000_000));
                assert_eq!(r.size, (30_000_000, 40_000_000));
            }
            _ => panic!("expected a rectangle"),
        }
    }
}

#[test]
fn parallel_and_sequential_evaluation_agree() {
    let t = timeline_at(
        vec![
            rect_with_window(0, 5_000_000, true),
            rect_with_window(50_000_000, 5_000_000, true),
            rect_with_window(1_000_000, 2_000_000, true),
        ],
        90,
    );
    let par = t.calculate();
    let seq = t.calculate_seq();
    assert_eq!(format!("{:?}", par), format!("{:?}", seq));
}

#[test]
fn evaluation_is_idempotent() {
    let t = timeline_at(
        vec![rect_with_window(0, 5_000_000, true), rect_with_window(500_000, 5_000_000, true)],
        120,
    );
    let first = calculate_timeline_entities_at_frame(t);
    let t2 = timeline_at(
        vec![rect_with_window(0, 5_000_000, true), rect_with_window(500_000, 5_000_000, true)],
        120,
    );
    let second = calculate_timeline_entities_at_frame(t2);
    assert_eq!(format!("{:?}", first), format!("{:?}", second));
}

#[test]
fn demo_scene_resolves_five_entities_at_frame_sixty() {
    let out = test_timeline_entities_at_frame(
        RenderState { curr_frame: 60 },
        (1280, 720),
        Input { title: "Hello".to_string(), sub_title: "World".to_string() },
    );
    // at frame 60 all three backdrops and both text lines are active
    assert_eq!(out.len(), 5);
    match &out[0] {
        Entity::Rect(r) => {
            // the first backdrop slides in with a quintic ease-out: one
            // second in, the eased progress is 1 - 0.8^5 = 0.67232
            assert_eq!(r.position, (-419_430_400, 0));
            assert_eq!(r.size, (1_280_000_000, 720_000_000));
        }
        _ => panic!("expected a rectangle first"),
    }
    match &out[3] {
        Entity::Text(t) => {
            assert_eq!(t.text, "Hello");
            assert_eq!(t.origin.1, 360_000_000);
        }
        _ => panic!("expected the title text"),
    }

    // the same scene at frame 0 has the later backdrops and the subtitle
    // still outside their windows
    let early = test_timeline_entities_at_frame(
        RenderState { curr_frame: 0 },
        (1280, 720),
        Input { title: "Hello".to_string(), sub_title: "World".to_string() },
    );
    assert_eq!(early.len(), 2);
}

fn staggered_text(stagger: i64, text: &str) -> AnimatedStaggeredTextEntity {
    // the per-letter transform slides from 0 to 120 over two seconds
    let letter_transform = AnimatedTransform {
        translate: AnimatedFloatVec2 {
            keyframes: (
                channel(vec![kf(0, 0, None), kf(120_000_000, 2_000_000, None)]),
                channel(vec![kf(0, 0, None)]),
            ),
        },
        scale: const_vec2(1_000_000, 1_000_000),
        skew: const_vec2(0, 0),
        rotate: AnimatedFloatVec3 {
            keyframes: (
                channel(vec![kf(0, 0, None)]),
                channel(vec![kf(0, 0, None)]),
                channel(vec![kf(0, 0, None)]),
            ),
        },
    };
    AnimatedStaggeredTextEntity {
        id: "st".to_string(),
        cache: Cache { valid: false },
        text: text.to_string(),
        stagger,
        origin: const_vec2(0, 0),
        animation_data: AnimationData { offset: 0, duration: 5_000_000, visible: true },
        transform: None,
        letter: AnimatedStaggeredTextLetter {
            transform: Some(letter_transform),
            paint: TextPaint {
                style: PaintStyle::Fill(FillStyle { color: Color::new(0, 0, 0, 1_000_000) }),
                align: TextAlign::Center,
                font_name: "Arial".to_string(),
                size: 10_000_000,
            },
        },
    }
}

fn letter_translate_x(entity: AnimatedStaggeredTextEntity, frame: i64) -> Vec<i64> {
    let t = timeline_at(vec![AnimatedEntity::StaggeredText(entity)], frame);
    let out = t.calculate();
    assert_eq!(out.len(), 1);
    match &out[0] {
        Entity::StaggeredText(st) => {
            let transforms = st.letter.transform.as_ref().expect("letter transforms");
            transforms.iter().map(|tr| tr.translate.0).collect()
        }
        _ => panic!("expected staggered text"),
    }
}

#[test]
fn stagger_shifts_each_letter_by_its_index() {
    // stagger of 33_333 micro-seconds is two frames at 60 fps
    let stagger = 33_333;

    // three letters resolve to three transforms, in character order
    let at_10 = letter_translate_x(staggered_text(stagger, "abc"), 10);
    assert_eq!(at_10.len(), 3);

    // letter i at frame f equals letter 0 at frame f - 2 i: each letter's
    // effective window starts exactly one stagger later than the previous
    let at_8 = letter_translate_x(staggered_text(stagger, "abc"), 8);
    let at_6 = letter_translate_x(staggered_text(stagger, "abc"), 6);
    assert_eq!(at_10[1], at_8[0]);
    assert_eq!(at_10[2], at_6[0]);

    // the sequence reveals later letters less far along the curve
    assert!(at_10[0] > at_10[1] && at_10[1] > at_10[2]);
}

#[test]
fn easing_curves_hit_known_values() {
    let s: i64 = 1_000_000;
    // quadratic: in(0.5) = 0.25, out(0.5) = 0.75, in-out(0.5) = 0.5
    assert_eq!(EasingFunction::QuadIn.ease(s / 2), 250_000);
    assert_eq!(EasingFunction::QuadOut.ease(s / 2), 750_000);
    assert_eq!(EasingFunction::QuadInOut.ease(s / 2), 500_000);
    // quintic: in(0.5) = 0.03125
    assert_eq!(EasingFunction::QuintIn.ease(s / 2), 31_250);
    // every curve fixes the endpoints
    for f in [
        EasingFunction::QuadIn,
        EasingFunction::QuadOut,
        EasingFunction::QuadInOut,
        EasingFunction::CubicIn,
        EasingFunction::CubicOut,
        EasingFunction::CubicInOut,
        EasingFunction::QuartIn,
        EasingFunction::QuartOut,
        EasingFunction::QuartInOut,
        EasingFunction::QuintIn,
        EasingFunction::QuintOut,
        EasingFunction::QuintInOut,
        EasingFunction::CircIn,
        EasingFunction::CircOut,
        EasingFunction::CircInOut,
        EasingFunction::ExpoIn,
        EasingFunction::ExpoOut,
        EasingFunction::ExpoInOut,
    ] {
        assert_eq!(f.ease(0), 0, "{:?} at 0", f);
        assert_eq!(f.ease(s), s, "{:?} at 1", f);
        // progress outside the unit range is clamped
        assert_eq!(f.ease(-5 * s), 0, "{:?} below range", f);
        assert_eq!(f.ease(5 * s), s, "{:?} above range", f);
    }
    // exponential: in(0.5) = 2^-5 = 0.03125 exactly in fixed point
    assert_eq!(EasingFunction::ExpoIn.ease(s / 2), 31_250);
    // circular: in(0.5) = 1 - sqrt(0.75), about 0.133975
    let circ = EasingFunction::CircIn.ease(s / 2);
    assert!((circ - 133_975).abs() <= 2, "got {circ}");
}

#[test]
fn eased_keyframe_interpolation_follows_the_curve() {
    // 0 to 100 over one second with a quadratic ease-in: halfway through
    // the progress of 0.5 eases to 0.25
    let animation_data = AnimationData { offset: 0, duration: 5_000_000, visible: true };
    let keyframes = Keyframes {
        values: vec![
            kf(0, 0, Some(InterpolationType::EasingFunction(EasingFunction::QuadIn))),
            kf(100_000_000, 1_000_000, None),
        ],
    };
    assert_eq!(keyframes.get_value_at_frame(30, &animation_data, 60), 25_000_000);
}

#[test]
fn fresh_channels_carry_identifier_and_value() {
    // a constant channel holds one keyframe with a 36-character identifier
    let af = AnimatedFloat::new(42_000_000);
    assert_eq!(af.keyframes.values.len(), 1);
    assert_eq!(af.keyframes.values[0].value, 42_000_000);
    assert_eq!(af.keyframes.values[0].offset, 0);
    assert_eq!(af.keyframes.values[0].id.chars().count(), 36);
    let ad = AnimationData { offset: 0, duration: 5_000_000, visible: true };
    assert_eq!(af.get_value_at_frame(123, &ad, 60), 42_000_000);
}

#[test]
fn range_sampling_matches_per_frame_sampling() {
    let ad = AnimationData { offset: 0, duration: 5_000_000, visible: true };
    let af = channel(vec![kf(0, 0, None), kf(100_000_000, 1_000_000, None)]);
    let range = af.get_values_at_frame_range(-3, 70, &ad, 60);
    assert_eq!(range.len(), 73);
    for (i, v) in range.iter().enumerate() {
        assert_eq!(*v, af.get_value_at_frame(-3 + i as i64, &ad, 60));
    }
}
