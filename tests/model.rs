use keyframe_curves::{
    handles_similar, match_preset, AnchorMode, BezierHandles, BoundingBoxHandle, BoundingBoxResponse, EasingPreset,
    Keyframe, KeyframeId, KeyframeType, PropertyTreeResponse, TimeTick, Track, TrackId, TICKS_PER_SECOND, UNIT,
};

fn secs(s: i64) -> TimeTick {
    TimeTick::from_seconds(s).unwrap()
}

fn seconds_of(t: TimeTick) -> f64 {
    t.ticks() as f64 / TICKS_PER_SECOND as f64
}

#[test]
fn keyframe_creation() {
    let kf = Keyframe::new(TimeTick::from_frames(3, 2).unwrap(), 42.0_f32);
    assert_eq!(seconds_of(kf.position), 1.5);
    assert_eq!(kf.value, 42.0);
    assert!(kf.connected_right);
    assert_eq!(kf.keyframe_type, KeyframeType::Bezier);
}

#[test]
fn handles_presets() {
    let linear = BezierHandles::linear();
    assert_eq!(linear.right_x, 1_000_000);
    assert_eq!(linear.right_y, 1_000_000);

    let ease_in = BezierHandles::ease_in();
    assert_eq!(ease_in.right_x, 420_000);
    assert_eq!(ease_in.right_y, 0);
}

#[test]
fn handles_array_conversion() {
    let handles = BezierHandles::ease_in_out();
    let arr = handles.to_array();
    let restored = BezierHandles::from_array(arr);
    assert_eq!(handles, restored);
}

#[test]
fn handles_array_order_and_default() {
    let h = BezierHandles::from_array([1, -2, 3, 4]);
    assert_eq!((h.left_x, h.left_y, h.right_x, h.right_y), (1, -2, 3, 4));
    assert_eq!(h.to_array(), [1, -2, 3, 4]);
    assert_eq!(BezierHandles::default(), BezierHandles::linear());
    assert_eq!(KeyframeType::default(), KeyframeType::Bezier);
}

#[test]
fn css_conversion_is_asymmetric() {
    let h = BezierHandles::from_css(420_000, 0, 580_000, 1_000_000);
    assert_eq!((h.left_x, h.left_y, h.right_x, h.right_y), (420_000, 0, 420_000, 0));
    let h = BezierHandles::from_css(100_000, 200_000, 300_000, 400_000);
    assert_eq!((h.left_x, h.left_y, h.right_x, h.right_y), (700_000, 600_000, 100_000, 200_000));
}

#[test]
fn builders_replace_one_field() {
    let id = KeyframeId(7);
    let kf = Keyframe::with_id(id, secs(2), 5_i64)
        .with_handles(BezierHandles::ease_out())
        .with_type(KeyframeType::Hold)
        .with_connected(false);
    assert_eq!(kf.id, id);
    assert_eq!(kf.position, secs(2));
    assert_eq!(kf.handles, BezierHandles::ease_out());
    assert_eq!(kf.keyframe_type, KeyframeType::Hold);
    assert!(!kf.connected_right);
}

#[test]
fn fresh_ids_differ() {
    assert_ne!(KeyframeId::new(), KeyframeId::new());
    assert_ne!(TrackId::new(), TrackId::new());
}

#[test]
fn basic_operations() {
    let t1 = secs(1);
    let t2 = secs(2);

    assert_eq!(seconds_of(t1.add(t2)), 3.0);
    assert_eq!(seconds_of(t2.sub(t1)), 1.0);
    assert_eq!(seconds_of(t1.mul(3)), 3.0);
    assert_eq!(seconds_of(t2.div(2).unwrap()), 1.0);
    assert_eq!(t2.ratio(t1), Some(2 * UNIT));
}

#[test]
fn frame_conversion() {
    let t = TimeTick::from_frames(60, 30).unwrap();
    assert_eq!(seconds_of(t), 2.0);
    assert_eq!(t.ticks(), 2 * TICKS_PER_SECOND);

    let frames = t.to_frames(30).unwrap();
    assert_eq!(frames, 60);
}

#[test]
fn from_seconds_generic() {
    let t1 = TimeTick::from_frames(3, 2).unwrap();
    let t3 = TimeTick::from_seconds(2_i64).unwrap();

    assert_eq!(seconds_of(t1), 1.5);
    assert_eq!(seconds_of(t3), 2.0);
}

#[test]
fn deref_access() {
    let t = TimeTick::from_frames(3, 2).unwrap();
    let _inner: i64 = t.ticks();
}

#[test]
fn from_inner() {
    let t = TimeTick::new(i64::from(frame_tick::Tick::from_secs(1.5)));
    assert_eq!(seconds_of(t), 1.5);
}

#[test]
fn frame_conversion_edges() {
    assert!(TimeTick::from_frames(1, 0).is_none());
    assert!(TimeTick::from_frames(i64::MAX, 1).is_none());
    assert_eq!(TimeTick::from_frames(-1, 7).unwrap().ticks(), -(TICKS_PER_SECOND / 7));
    assert_eq!(TimeTick::from_frames(1, 24).unwrap().ticks(), 150_150);
    assert_eq!(secs(1).to_frames(0), Some(0));
    assert_eq!(TimeTick::new(TICKS_PER_SECOND - 1).to_frames(24), Some(23));
    assert_eq!(TimeTick::new(i64::MAX).to_frames(u32::MAX), None);
    assert!(TimeTick::from_seconds(i64::MAX).is_none());
}

#[test]
fn arithmetic_edges() {
    let t = TimeTick::new(7);
    assert!(t.div(0).is_none());
    assert_eq!(t.div(2).unwrap().ticks(), 3);
    assert_eq!(t.div(-2).unwrap().ticks(), -4);
    assert_eq!(TimeTick::new(i64::MIN).div(-1), None);
    assert!(t.ratio(TimeTick::zero()).is_none());
    assert_eq!(TimeTick::new(1).ratio(TimeTick::new(3)), Some(333_333));
    assert_eq!(t.neg().ticks(), -7);
    assert_eq!(t.neg().abs().ticks(), 7);
    assert_eq!(t.min(TimeTick::new(3)).ticks(), 3);
    assert_eq!(t.max(TimeTick::new(3)).ticks(), 7);
    assert_eq!(t.clamp(TimeTick::new(0), TimeTick::new(5)).ticks(), 5);
    assert_eq!(t.clamp(TimeTick::new(8), TimeTick::new(9)).ticks(), 8);
    assert!(t.is_finite());
    assert_eq!(secs(0).lerp(secs(2), UNIT / 2), secs(1));
    assert_eq!(TimeTick::default(), TimeTick::zero());
}

#[test]
fn rounding_to_seconds() {
    let t = TimeTick::from_frames(3, 2).unwrap();
    assert_eq!(t.floor(), secs(1));
    assert_eq!(t.ceil(), secs(2));
    assert_eq!(t.round(), secs(2));
    let n = t.neg();
    assert_eq!(n.floor(), secs(-2));
    assert_eq!(n.ceil(), secs(-1));
    assert_eq!(n.round(), secs(-2));
    assert_eq!(TimeTick::from_frames(4, 3).unwrap().round(), secs(1));
}

#[test]
fn track_add_and_get() {
    let mut track = Track::<f32>::new();
    let kf1 = Keyframe::new(secs(0), 10.0);
    let kf2 = Keyframe::new(secs(1), 20.0);

    let id1 = track.add_keyframe(kf1);
    let id2 = track.add_keyframe(kf2);

    assert_eq!(track.len(), 2);
    assert_eq!(track.get_keyframe(id1).unwrap().value, 10.0);
    assert_eq!(track.get_keyframe(id2).unwrap().value, 20.0);
}

#[test]
fn track_sorted() {
    let mut track = Track::<f32>::new();
    track.add_keyframe(Keyframe::new(secs(2), 30.0));
    track.add_keyframe(Keyframe::new(secs(0), 10.0));
    track.add_keyframe(Keyframe::new(secs(1), 20.0));

    let sorted = track.keyframes_sorted();
    assert_eq!(sorted[0].position, secs(0));
    assert_eq!(sorted[1].position, secs(1));
    assert_eq!(sorted[2].position, secs(2));
}

#[test]
fn track_keyframes_around() {
    let mut track = Track::<f32>::new();
    track.add_keyframe(Keyframe::new(secs(0), 10.0));
    track.add_keyframe(Keyframe::new(secs(2), 30.0));

    let (left, right) = track.keyframes_around(secs(1));
    assert_eq!(left.unwrap().position, secs(0));
    assert_eq!(right.unwrap().position, secs(2));

    let (left, right) = track.keyframes_around(secs(0));
    assert_eq!(left.unwrap().position, secs(0));
    assert_eq!(right.unwrap().position, secs(2));
}

#[test]
fn track_time_range() {
    let mut track = Track::<f32>::new();
    assert!(track.time_range().is_none());

    track.add_keyframe(Keyframe::new(secs(1), 10.0));
    track.add_keyframe(Keyframe::new(secs(5), 50.0));

    let (start, end) = track.time_range().unwrap();
    assert_eq!(start, secs(1));
    assert_eq!(end, secs(5));
}

#[test]
fn track_value_range() {
    let mut track = Track::<f32>::new();
    track.add_keyframe(Keyframe::new(secs(0), 10.0));
    track.add_keyframe(Keyframe::new(secs(1), 50.0));
    track.add_keyframe(Keyframe::new(secs(2), 30.0));

    let (min, max) = track.value_range().unwrap();
    assert_eq!(min, 10.0);
    assert_eq!(max, 50.0);
}

#[test]
fn sorted_view_keeps_insertion_order_for_ties() {
    let mut track = Track::<i64>::new();
    track.add_keyframe(Keyframe::new(secs(1), 1));
    track.add_keyframe(Keyframe::new(secs(0), 2));
    track.add_keyframe(Keyframe::new(secs(1), 3));
    track.add_keyframe(Keyframe::new(secs(0), 4));
    let values: Vec<i64> = track.keyframes_sorted().iter().map(|k| k.value).collect();
    assert_eq!(values, vec![2, 4, 1, 3]);
    let (left, right) = track.keyframes_around(secs(0));
    assert_eq!(left.unwrap().value, 4);
    assert_eq!(right.unwrap().value, 1);
    let (left, right) = track.keyframes_around(secs(5));
    assert_eq!(left.unwrap().value, 3);
    assert!(right.is_none());
    let (left, right) = track.keyframes_around(secs(-1));
    assert!(left.is_none());
    assert_eq!(right.unwrap().value, 2);
}

#[test]
fn empty_track_queries() {
    let track = Track::<i64>::with_id(TrackId(9));
    assert_eq!(track.id, TrackId(9));
    assert!(track.is_empty());
    let (l, r) = track.keyframes_around(secs(0));
    assert!(l.is_none() && r.is_none());
    assert!(track.value_range().is_none());
    assert!(track.keyframes_sorted().is_empty());
    assert!(track.keyframe_at_position(secs(0), secs(1)).is_none());
}

#[test]
fn add_replaces_same_identity_in_place() {
    let mut track = Track::<i64>::default();
    let a = KeyframeId(1);
    let b = KeyframeId(2);
    track.add_keyframe(Keyframe::with_id(a, secs(0), 1));
    track.add_keyframe(Keyframe::with_id(b, secs(1), 2));
    track.add_keyframe(Keyframe::with_id(a, secs(2), 3));
    assert_eq!(track.len(), 2);
    assert_eq!(track.keyframe_ids(), vec![a, b]);
    assert_eq!(track.get_keyframe(a).unwrap().value, 3);
    assert_eq!(track.positions(), vec![(a, secs(2)), (b, secs(1))]);
}

#[test]
fn remove_and_mutate_by_identity() {
    let mut track = Track::<i64>::new();
    let a = track.add_keyframe(Keyframe::new(secs(0), 1));
    let b = track.add_keyframe(Keyframe::new(secs(1), 2));
    let c = track.add_keyframe(Keyframe::new(secs(2), 3));
    assert_eq!(track.remove_keyframe(b).unwrap().value, 2);
    assert!(track.remove_keyframe(b).is_none());
    assert_eq!(track.keyframe_ids(), vec![a, c]);
    track.get_keyframe_mut(c).unwrap().value = 30;
    assert_eq!(track.get_keyframe(c).unwrap().value, 30);
    assert!(track.get_keyframe_mut(b).is_none());
    let values: Vec<i64> = track.iter().iter().map(|k| k.value).collect();
    assert_eq!(values, vec![1, 30]);
}

#[test]
fn keyframe_at_position_first_within_tolerance() {
    let mut track = Track::<i64>::new();
    track.add_keyframe(Keyframe::new(TimeTick::new(100), 1));
    track.add_keyframe(Keyframe::new(TimeTick::new(95), 2));
    track.add_keyframe(Keyframe::new(TimeTick::new(500), 3));
    assert_eq!(track.keyframe_at_position(TimeTick::new(97), TimeTick::new(5)).unwrap().value, 1);
    assert_eq!(track.keyframe_at_position(TimeTick::new(92), TimeTick::new(5)).unwrap().value, 2);
    assert!(track.keyframe_at_position(TimeTick::new(105), TimeTick::new(5)).is_none());
    assert!(track.keyframe_at_position(TimeTick::new(100), TimeTick::new(0)).is_none());
}

#[test]
fn value_range_first_of_equals() {
    let mut track = Track::<i64>::new();
    track.add_keyframe(Keyframe::new(secs(0), 5));
    track.add_keyframe(Keyframe::new(secs(1), -5));
    track.add_keyframe(Keyframe::new(secs(2), 5));
    assert_eq!(track.value_range(), Some((-5, 5)));
}

#[test]
fn handle_properties() {
    assert!(BoundingBoxHandle::TopLeft.scales_x());
    assert!(BoundingBoxHandle::TopLeft.scales_y());
    assert!(BoundingBoxHandle::TopLeft.is_corner());

    assert!(BoundingBoxHandle::Top.scales_y());
    assert!(!BoundingBoxHandle::Top.scales_x());
    assert!(!BoundingBoxHandle::Top.is_corner());

    assert!(BoundingBoxHandle::Left.scales_x());
    assert!(!BoundingBoxHandle::Left.scales_y());
    assert!(!BoundingBoxHandle::Left.is_corner());

    assert!(!BoundingBoxHandle::Interior.scales_x());
    assert!(!BoundingBoxHandle::Interior.scales_y());
}

#[test]
fn editor_data_defaults() {
    assert_eq!(AnchorMode::default(), AnchorMode::Center);
    let r = BoundingBoxResponse::default();
    assert!(r.hovered_handle.is_none() && !r.drag_ended);
    assert!(PropertyTreeResponse::default().clicked_row.is_none());
    assert!(BoundingBoxHandle::BottomRight.is_corner());
    assert!(!BoundingBoxHandle::Bottom.scales_x());
}

#[test]
fn preset_names_and_lists() {
    assert_eq!(EasingPreset::Linear.name(), "Linear");
    assert_eq!(EasingPreset::EaseInOutBack.name(), "Ease In Out Back");
    assert_eq!(EasingPreset::all().len(), 28);
    assert_eq!(EasingPreset::all()[0], EasingPreset::Linear);
    assert_eq!(EasingPreset::common().len(), 9);
    assert_eq!(EasingPreset::common()[8], EasingPreset::EaseOutBack);
}

#[test]
fn preset_handles_from_css() {
    assert_eq!(EasingPreset::EaseInOut.handles(), BezierHandles::from_css(420_000, 0, 580_000, 1_000_000));
    assert_eq!(EasingPreset::Linear.handles(), BezierHandles::from_array([0, 0, 0, 0]));
    let h = EasingPreset::EaseInOutBack.handles();
    assert_eq!((h.left_x, h.left_y, h.right_x, h.right_y), (735_000, -550_000, 680_000, -550_000));
}

#[test]
fn match_preset_recovers_every_entry() {
    for p in EasingPreset::all() {
        assert_eq!(match_preset(&p.handles(), 1000), Some(p));
    }
}

#[test]
fn match_preset_misses_and_ties() {
    let odd = BezierHandles::from_array([123_456, 7, 8, 9]);
    assert_eq!(match_preset(&odd, 1000), None);
    assert_eq!(match_preset(&BezierHandles::linear(), 2 * UNIT as i32), Some(EasingPreset::Linear));
    assert!(handles_similar(&BezierHandles::linear(), &BezierHandles::linear(), 1));
    assert!(!handles_similar(&BezierHandles::linear(), &BezierHandles::linear(), 0));
}

#[test]
fn frames_round_trip_at_common_rates() {
    for fps in [24_u32, 25, 30, 48, 60, 90, 120] {
        for frames in [-1_001_i64, -1, 0, 1, 59, 86_400] {
            let t = TimeTick::from_frames(frames, fps).unwrap();
            assert_eq!(t.to_frames(fps), Some(frames));
        }
    }
}

#[test]
fn frames_round_trip_at_rates_that_do_not_divide_the_tick_rate() {
    let t = TimeTick::from_frames(1, 96).unwrap();
    assert_eq!(t.ticks(), 37_538);
    assert_eq!(t.to_frames(96), Some(1));
    for fps in [17_u32, 64, 96, 1000, 44_100, 3_603_600] {
        for frames in [-12_345_i64, -1, 0, 1, 2, 999_999] {
            let t = TimeTick::from_frames(frames, fps).unwrap();
            assert_eq!(t.to_frames(fps), Some(frames), "{} at {}", frames, fps);
        }
    }
}

#[test]
fn clamp_with_crossed_bounds_gives_max() {
    let t = TimeTick::new(7);
    assert_eq!(t.clamp(TimeTick::new(9), TimeTick::new(3)).ticks(), 3);
    assert_eq!(TimeTick::new(1).clamp(TimeTick::new(9), TimeTick::new(3)).ticks(), 3);
}
