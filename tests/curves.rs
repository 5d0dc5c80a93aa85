use keyframe_curves::{
    interpolate_at_position, BezierHandles, CubicBezier, InterpolationTriple, Keyframe, KeyframeType, Lerp,
    TimeTick, UNIT,
};

fn secs(s: i64) -> TimeTick {
    TimeTick::from_seconds(s).unwrap()
}

fn half_second() -> TimeTick {
    TimeTick::from_frames(1, 2).unwrap()
}

#[test]
fn bezier_linear() {
    let bezier = CubicBezier::linear();
    assert!((bezier.solve(0) - 0).abs() <= 10);
    assert!((bezier.solve(UNIT / 2) - UNIT / 2).abs() <= 10);
    assert!((bezier.solve(UNIT) - UNIT).abs() <= 10);
}

#[test]
fn bezier_ease_in_out() {
    let bezier = CubicBezier::ease_in_out();
    assert!((bezier.solve(UNIT / 2) - UNIT / 2).abs() < UNIT / 10);
    assert!((bezier.solve(0) - 0).abs() <= 10);
    assert!((bezier.solve(UNIT) - UNIT).abs() <= 10);
}

#[test]
fn interpolate_single_keyframe() {
    let kf = Keyframe::new(secs(1), 42.0_f32);
    let keyframes: Vec<&Keyframe<f32>> = vec![&kf];

    let result = interpolate_at_position(&keyframes, secs(0)).unwrap();
    assert_eq!(result.left, 42.0);
    assert!(result.right.is_none());

    let result = interpolate_at_position(&keyframes, secs(2)).unwrap();
    assert_eq!(result.left, 42.0);
    assert!(result.right.is_none());
}

#[test]
fn interpolate_two_keyframes_linear() {
    let kf1 = Keyframe::new(secs(0), 0_i64).with_type(KeyframeType::Linear);
    let kf2 = Keyframe::new(secs(1), 100_i64);
    let keyframes: Vec<&Keyframe<i64>> = vec![&kf1, &kf2];

    let result = interpolate_at_position(&keyframes, half_second()).unwrap();
    assert_eq!(result.left, 0);
    assert_eq!(result.right.unwrap(), 100);
    assert!((result.progression - UNIT / 2).abs() <= 10);

    let lerped = result.lerp();
    assert_eq!(lerped, 50);
}

#[test]
fn interpolate_hold_keyframe() {
    let kf1 = Keyframe::new(secs(0), 10_i64).with_type(KeyframeType::Hold);
    let kf2 = Keyframe::new(secs(1), 100_i64);
    let keyframes: Vec<&Keyframe<i64>> = vec![&kf1, &kf2];

    let result = interpolate_at_position(&keyframes, half_second()).unwrap();
    assert_eq!(result.progression, 0);

    let lerped = result.lerp();
    assert_eq!(lerped, 10);
}

#[test]
fn interpolate_bezier_keyframe() {
    let kf1 = Keyframe::new(secs(0), 0.0_f32)
        .with_handles(BezierHandles::ease_in_out())
        .with_type(KeyframeType::Bezier);
    let kf2 = Keyframe::new(secs(1), 100.0_f32).with_handles(BezierHandles::ease_in_out());
    let keyframes: Vec<&Keyframe<f32>> = vec![&kf1, &kf2];

    let result = interpolate_at_position(&keyframes, half_second()).unwrap();
    assert!(result.progression >= 0 && result.progression <= UNIT);
}

#[test]
fn linear_curve_is_identity_everywhere_sampled() {
    let bezier = CubicBezier::new(0, 0, UNIT as i32, UNIT as i32);
    let mut x = 0;
    while x <= UNIT {
        assert!((bezier.solve(x) - x).abs() <= 10, "x = {}", x);
        x += 12_345;
    }
}

#[test]
fn every_curve_fixes_the_ends() {
    let curves = [
        CubicBezier::ease_in(),
        CubicBezier::ease_out(),
        CubicBezier::ease_in_out(),
        CubicBezier::new(680_000, -550_000, 265_000, 1_550_000),
        CubicBezier::new(-300_000, 2_000_000, 1_400_000, -900_000),
    ];
    for c in curves.iter() {
        assert_eq!(c.solve(0), 0);
        assert_eq!(c.solve(UNIT), UNIT);
        assert_eq!(c.solve(-5), 0);
        assert_eq!(c.solve(UNIT + 5), UNIT);
    }
}

#[test]
fn ease_in_out_is_symmetric_about_center() {
    let c = CubicBezier::ease_in_out();
    let y = c.solve(UNIT / 2);
    assert!((y - UNIT / 2).abs() < UNIT / 10);
    let a = c.solve(UNIT / 4);
    let b = c.solve(3 * UNIT / 4);
    assert!((a + b - UNIT).abs() <= 20);
    assert!(a < UNIT / 4);
}

#[test]
fn ease_in_starts_slow() {
    let c = CubicBezier::ease_in();
    assert!(c.solve(UNIT / 4) < UNIT / 4);
    let d = CubicBezier::from_handles(420_000, 0, UNIT as i32, UNIT as i32);
    assert_eq!(c.solve(UNIT / 3), d.solve(UNIT / 3));
}

#[test]
fn evaluate_empty_is_none() {
    let keyframes: Vec<&Keyframe<i64>> = Vec::new();
    assert!(interpolate_at_position(&keyframes, secs(0)).is_none());
}

#[test]
fn single_keyframe_holds_at_its_position() {
    let kf = Keyframe::new(secs(1), 7_i64);
    let keyframes = vec![&kf];
    let r = interpolate_at_position(&keyframes, secs(1)).unwrap();
    assert_eq!(r.left, 7);
    assert!(r.right.is_none());
    assert_eq!(r.progression, 0);
}

#[test]
fn before_first_keyframe_holds_first_value() {
    let a = Keyframe::new(secs(1), 5_i64);
    let b = Keyframe::new(secs(2), 9_i64);
    let keyframes = vec![&a, &b];
    let r = interpolate_at_position(&keyframes, secs(0)).unwrap();
    assert_eq!(r.left, 5);
    assert!(r.right.is_none());
    let r = interpolate_at_position(&keyframes, secs(3)).unwrap();
    assert_eq!(r.left, 9);
    assert!(r.right.is_none());
}

#[test]
fn disconnected_segment_holds_left() {
    let a = Keyframe::new(secs(0), 5_i64).with_connected(false).with_type(KeyframeType::Linear);
    let b = Keyframe::new(secs(2), 9_i64);
    let keyframes = vec![&a, &b];
    let r = interpolate_at_position(&keyframes, secs(1)).unwrap();
    assert_eq!(r.left, 5);
    assert!(r.right.is_none());
    assert_eq!(r.progression, 0);
}

#[test]
fn keyframe_exactly_at_query_is_left() {
    let a = Keyframe::new(secs(0), 1_i64).with_type(KeyframeType::Linear);
    let b = Keyframe::new(secs(2), 3_i64).with_type(KeyframeType::Linear);
    let c = Keyframe::new(secs(4), 5_i64);
    let keyframes = vec![&a, &b, &c];
    let r = interpolate_at_position(&keyframes, secs(2)).unwrap();
    assert_eq!(r.left, 3);
    assert_eq!(r.right, Some(5));
    assert_eq!(r.progression, 0);
    let r = interpolate_at_position(&keyframes, secs(3)).unwrap();
    assert_eq!(r.progression, UNIT / 2);
}

#[test]
fn linear_progression_is_the_time_ratio() {
    let a = Keyframe::new(secs(0), 0_i64).with_type(KeyframeType::Linear);
    let b = Keyframe::new(secs(4), 400_i64);
    let keyframes = vec![&a, &b];
    let r = interpolate_at_position(&keyframes, secs(1)).unwrap();
    assert_eq!(r.progression, 250_000);
    assert_eq!(r.lerp(), 100);
}

#[test]
fn hold_progression_is_zero_across_segment() {
    let a = Keyframe::new(secs(0), 10_i64).with_type(KeyframeType::Hold);
    let b = Keyframe::new(secs(1), 100_i64);
    let keyframes = vec![&a, &b];
    for frames in 0..30 {
        let q = TimeTick::from_frames(frames, 30).unwrap();
        let r = interpolate_at_position(&keyframes, q).unwrap();
        assert_eq!(r.progression, 0);
        assert_eq!(r.lerp(), 10);
    }
}

#[test]
fn duplicate_positions_hold_left() {
    let a = Keyframe::new(secs(1), 1_i64).with_type(KeyframeType::Linear);
    let b = Keyframe::new(secs(1), 2_i64);
    let keyframes = vec![&a, &b];
    let r = interpolate_at_position(&keyframes, secs(1)).unwrap();
    assert_eq!(r.left, 2);
    assert!(r.right.is_none());
}

#[test]
fn lerp_of_integers() {
    assert_eq!(10_i64.lerp(&20, UNIT / 2), 15);
    assert_eq!(10_i64.lerp(&20, 0), 10);
    assert_eq!(10_i64.lerp(&20, UNIT), 20);
    assert_eq!(0_i64.lerp(&-10, UNIT / 4), -3);
    let t = InterpolationTriple { left: 3_i64, right: None, progression: 0 };
    assert_eq!(t.lerp(), 3);
}

#[test]
fn solve_is_repeatable_and_clamps() {
    let c = CubicBezier::new(680_000, -550_000, 265_000, 1_550_000);
    for x in [1, 123_456, 500_000, 999_999] {
        assert_eq!(c.solve(x), c.solve(x));
    }
    assert_eq!(c.solve(-300), c.solve(0));
    assert_eq!(c.solve(UNIT * 3), c.solve(UNIT));
}

#[test]
fn bezier_progression_equals_solver_on_local_ratio() {
    let a = Keyframe::new(TimeTick::new(0), 0_i64).with_handles(BezierHandles::ease_in_out());
    let b = Keyframe::new(TimeTick::new(400), 100_i64).with_handles(BezierHandles::ease_in_out());
    let keyframes = vec![&a, &b];
    let r = interpolate_at_position(&keyframes, TimeTick::new(100)).unwrap();
    let c = CubicBezier::from_handles(a.handles.right_x, a.handles.right_y, b.handles.left_x, b.handles.left_y);
    assert_eq!(r.progression, c.solve(250_000));
}
