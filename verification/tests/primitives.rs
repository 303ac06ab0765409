//! Keyframe sampling, interpolation and frame conversion, exercised on
//! concrete values.  All fixed-point numbers carry six decimal places:
//! `1_000_000` stands for `1.0`.

use creator_core::entities::AnimationData;
use creator_core::interpolations::{
    calculate_spring_value, interpolate_rendered_keyframes, InterpolationType, SpringProperties,
};
use creator_core::keyframe::{Keyframe, Keyframes, RenderedKeyframe};
use creator_core::utils::{render_keyframe, timestamp_to_frame};

fn kf(value: i64, offset: i64, interpolation: Option<InterpolationType>) -> Keyframe {
    Keyframe { value, offset, id: "k".to_string(), interpolation }
}

fn three_point_set() -> Keyframes {
    Keyframes {
        values: vec![
            kf(0, 0, None),
            kf(100_000_000, 1_000_000, None),
            kf(300_000_000, 3_000_000, None),
        ],
    }
}

#[test]
fn interpolates_the_input() {
    let animation_data = AnimationData { offset: 0, duration: 3_000_000, visible: true };

    let fps = 60;

    let keyframes1 = three_point_set();

    let keyframes2 = Keyframes {
        values: vec![kf(-100_000_000, 0, None), kf(0, 1_000_000, None)],
    };

    let rendered_keyframes1: Vec<RenderedKeyframe> = keyframes1
        .values
        .into_iter()
        .enumerate()
        .map(|(index, keyframe)| render_keyframe(keyframe, &animation_data, index, 120, 60))
        .collect();

    let rendered_keyframes2: Vec<RenderedKeyframe> = keyframes2
        .values
        .into_iter()
        .enumerate()
        .map(|(index, keyframe)| render_keyframe(keyframe, &animation_data, index, 120, 60))
        .collect();

    let val1 = interpolate_rendered_keyframes(
        &rendered_keyframes1[1],
        &rendered_keyframes1[2],
        120,
        InterpolationType::Linear,
        fps,
    );

    let _val2 = interpolate_rendered_keyframes(
        &rendered_keyframes2[0],
        &rendered_keyframes2[1],
        30,
        InterpolationType::Linear,
        fps,
    );

    assert_eq!(val1, 200_000_000);
}

#[test]
fn calculates_the_spring_value() {
    let _fps = 60;
    let previous_value = 0;
    let next_value = 500_000_000;

    let spring_props = SpringProperties {
        mass: 1_000_000,
        stiffness: 100_000_000,
        damping: 10_000_000,
    };

    let value1 = calculate_spring_value(100, previous_value, next_value, 100, 300, &spring_props);
    let value2 = calculate_spring_value(150, previous_value, next_value, 100, 300, &spring_props);
    let value3 = calculate_spring_value(200, previous_value, next_value, 100, 300, &spring_props);

    println!("{value1}");
    println!("{value2}");
    println!("{value3}");
}

#[test]
fn converts_timestamp_to_frame() {
    let frame1 = timestamp_to_frame(0, 60);
    let frame2 = timestamp_to_frame(1_000_000, 60);
    let frame3 = timestamp_to_frame(1_500_000, 60);

    assert_eq!(frame1, 0);
    assert_eq!(frame2, 60);
    assert_eq!(frame3, 90);
}

#[test]
fn gets_value_at_frame() {
    let animation_data = AnimationData { offset: 0, duration: 5_000_000, visible: true };

    let fps = 60;

    let keyframes = three_point_set();

    let value1 = keyframes.get_value_at_frame(50, &animation_data, fps);
    let value2 = keyframes.get_value_at_frame(90, &animation_data, fps);
    let value3 = keyframes.get_value_at_frame(120, &animation_data, fps);
    let value4 = keyframes.get_value_at_frame(180, &animation_data, fps);
    let value5 = keyframes.get_value_at_frame(220, &animation_data, fps);
    println!("value1: {0}", value1);
    println!("value2: {0}", value2);
    println!("value3: {0}", value3);
    println!("value4: {0}", value4);
    println!("value5: {0}", value5);
}

#[test]
fn exact_hit_returns_keyframe_value() {
    let animation_data = AnimationData { offset: 0, duration: 5_000_000, visible: true };
    let keyframes = three_point_set();
    // frame 60 lands exactly on the second keyframe
    assert_eq!(keyframes.get_value_at_frame(60, &animation_data, 60), 100_000_000);
    // frame 0 and frame 180 land exactly on the first and third
    assert_eq!(keyframes.get_value_at_frame(0, &animation_data, 60), 0);
    assert_eq!(keyframes.get_value_at_frame(180, &animation_data, 60), 300_000_000);
}

#[test]
fn interpolates_linearly_between_keyframes() {
    let animation_data = AnimationData { offset: 0, duration: 5_000_000, visible: true };
    let keyframes = three_point_set();
    // frame 120 sits halfway between frames 60 (value 100) and 180 (value 300)
    assert_eq!(keyframes.get_value_at_frame(120, &animation_data, 60), 200_000_000);
    // frame 30 sits halfway between frames 0 (value 0) and 60 (value 100)
    assert_eq!(keyframes.get_value_at_frame(30, &animation_data, 60), 50_000_000);
}

#[test]
fn clamps_before_and_after_the_range() {
    let animation_data = AnimationData { offset: 0, duration: 5_000_000, visible: true };
    let keyframes = three_point_set();
    assert_eq!(keyframes.get_value_at_frame(-10, &animation_data, 60), 0);
    assert_eq!(keyframes.get_value_at_frame(1000, &animation_data, 60), 300_000_000);
}

#[test]
fn empty_set_samples_to_zero() {
    let animation_data = AnimationData { offset: 0, duration: 5_000_000, visible: true };
    let keyframes = Keyframes { values: vec![] };
    assert_eq!(keyframes.get_value_at_frame(42, &animation_data, 60), 0);
}

#[test]
fn equal_offset_neighbours_fall_back_to_the_earlier_value() {
    let animation_data = AnimationData { offset: 0, duration: 5_000_000, visible: true };
    // two keyframes at the same offset: the earlier one wins deterministically
    let keyframes = Keyframes {
        values: vec![kf(10_000_000, 1_000_000, None), kf(20_000_000, 1_000_000, None)],
    };
    assert_eq!(keyframes.get_value_at_frame(120, &animation_data, 60), 10_000_000);
}

#[test]
fn window_offset_shifts_keyframes() {
    // with the window starting at 1 s, the keyframe at offset 1 s sits on
    // absolute frame 120
    let animation_data = AnimationData { offset: 1_000_000, duration: 5_000_000, visible: true };
    let keyframes = three_point_set();
    assert_eq!(keyframes.get_value_at_frame(120, &animation_data, 60), 100_000_000);
}

#[test]
fn sort_orders_keyframes_stably() {
    let mut keyframes = Keyframes {
        values: vec![
            Keyframe { value: 3, offset: 2_000_000, id: "a".to_string(), interpolation: None },
            Keyframe { value: 1, offset: 1_000_000, id: "b".to_string(), interpolation: None },
            Keyframe { value: 2, offset: 1_000_000, id: "c".to_string(), interpolation: None },
        ],
    };
    keyframes.sort();
    let order: Vec<(i64, String)> =
        keyframes.values.iter().map(|k| (k.value, k.id.clone())).collect();
    assert_eq!(
        order,
        vec![(1, "b".to_string()), (2, "c".to_string()), (3, "a".to_string())]
    );
}

#[test]
fn spring_converges_and_does_not_diverge() {
    // fixed parameters: mass 1, stiffness 100, damping 10
    let props = SpringProperties {
        mass: 1_000_000,
        stiffness: 100_000_000,
        damping: 10_000_000,
    };
    let target: i64 = 500_000_000;
    let start_frame: i64 = 100;

    // sample at increasing frame distances and collect the displacement
    let mut displacements: Vec<i64> = Vec::new();
    for d in 0..=400 {
        let pos = calculate_spring_value(start_frame + d, 0, target, start_frame, 300, &props);
        displacements.push((pos - target).abs());
    }

    // local maxima of the displacement (oscillation peaks) never grow;
    // peaks below a tenth of a unit are rounding noise of the fixed-point
    // integrator and are ignored
    let noise_floor: i64 = 100_000;
    let mut peaks: Vec<i64> = vec![displacements[0]];
    for i in 1..displacements.len() - 1 {
        if displacements[i] >= displacements[i - 1]
            && displacements[i] >= displacements[i + 1]
            && displacements[i] > noise_floor
        {
            peaks.push(displacements[i]);
        }
    }
    for w in peaks.windows(2) {
        assert!(w[1] <= w[0], "oscillation amplitude grew: {} -> {}", w[0], w[1]);
    }

    // and the tail converges toward the target
    assert!(displacements[400] < displacements[0] / 100);
}
