use fightstick::{
    apply_event, lit_slots, slot_button, slot_center, stick_offset, trail_offsets, AxisId,
    ButtonId, HistoryBuffer, RawEvent, Snapshot, StickAxis, ANALOG_ONE, CAPACITY,
};

fn with_x(x: i8) -> Snapshot {
    let mut s = Snapshot::zero();
    s.axis = StickAxis { x, y: 0 };
    s
}

fn is_zero(s: &Snapshot) -> bool {
    s.axis.x == 0 && s.axis.y == 0 && s.buttons.len() == 0
}

#[test]
fn new_history_holds_one_neutral_snapshot() {
    let h = HistoryBuffer::new();
    assert_eq!(h.len(), 1);
    assert!(is_zero(h.latest()));
}

#[test]
fn length_stays_bounded() {
    let mut h = HistoryBuffer::new();
    for i in 0..100 {
        h.push(with_x((i % 3) as i8 - 1));
        assert!(h.len() >= 1);
        assert!(h.len() <= CAPACITY);
    }
    assert_eq!(h.len(), CAPACITY - 1);
}

#[test]
fn full_history_evicts_oldest() {
    let mut h = HistoryBuffer::new();
    for i in 0..(CAPACITY - 2) {
        h.push(with_x(if i % 2 == 0 { 1 } else { -1 }));
    }
    assert_eq!(h.len(), CAPACITY - 1);
    let before: Vec<i8> = (0..h.len()).map(|i| h.get(i).axis.x).collect();
    h.push(with_x(0));
    assert_eq!(h.len(), CAPACITY - 1);
    let after: Vec<i8> = (0..h.len()).map(|i| h.get(i).axis.x).collect();
    assert_eq!(&after[..after.len() - 1], &before[1..]);
    assert_eq!(after[after.len() - 1], 0);
}

#[test]
fn reset_leaves_one_neutral_snapshot() {
    let mut h = HistoryBuffer::new();
    for _ in 0..10 {
        h.push(with_x(1));
    }
    h.reset();
    assert_eq!(h.len(), 1);
    assert!(is_zero(h.latest()));
}

#[test]
fn frame_with_disconnect_resets() {
    let mut h = HistoryBuffer::new();
    h.run_frame(&vec![
        RawEvent::ButtonChanged(ButtonId::South, ANALOG_ONE),
        RawEvent::AxisChanged(AxisId::LeftStickX, ANALOG_ONE),
        RawEvent::AxisChanged(AxisId::LeftStickX, 0),
        RawEvent::Disconnected,
    ]);
    assert_eq!(h.len(), 1);
    assert!(is_zero(h.latest()));
}

#[test]
fn frame_pushes_folded_snapshot() {
    let mut h = HistoryBuffer::new();
    h.run_frame(&vec![
        RawEvent::ButtonChanged(ButtonId::South, ANALOG_ONE),
        RawEvent::AxisChanged(AxisId::LeftStickX, ANALOG_ONE),
    ]);
    assert_eq!(h.len(), 2);
    assert!(is_zero(h.get(0)));
    assert_eq!(h.latest().axis.x, 1);
    assert_eq!(h.latest().buttons.as_slice(), &[ButtonId::South]);
    h.run_frame(&vec![]);
    assert_eq!(h.len(), 3);
    assert_eq!(h.latest().axis.x, 1);
    assert_eq!(h.latest().buttons.as_slice(), &[ButtonId::South]);
}

#[test]
fn newest_first_reverses_order() {
    let mut h = HistoryBuffer::new();
    h.push(with_x(1));
    h.push(with_x(-1));
    let xs: Vec<i8> = h.newest_first().iter().map(|s| s.axis.x).collect();
    assert_eq!(xs, vec![-1, 1, 0]);
}

#[test]
fn trail_offsets_follow_history() {
    let mut h = HistoryBuffer::new();
    let mut s = Snapshot::zero();
    apply_event(&mut s, RawEvent::AxisChanged(AxisId::LeftStickY, ANALOG_ONE));
    h.push(s);
    h.push(with_x(-1));
    assert_eq!(trail_offsets(&h), vec![(-90, 0), (0, -90), (0, 0)]);
    assert_eq!(stick_offset(StickAxis { x: 1, y: -1 }), (90, 90));
}

#[test]
fn slots_map_buttons_and_positions() {
    assert_eq!(slot_button(0), ButtonId::West);
    assert_eq!(slot_button(7), ButtonId::LeftTrigger2);
    assert_eq!(slot_center(0), (456, 243));
    assert_eq!(slot_center(1), (456, 363));
    assert_eq!(slot_center(2), (576, 187));
    assert_eq!(slot_center(7), (816, 307));
    let mut s = Snapshot::zero();
    apply_event(&mut s, RawEvent::ButtonChanged(ButtonId::North, ANALOG_ONE));
    apply_event(&mut s, RawEvent::AxisChanged(AxisId::RightZ, ANALOG_ONE));
    apply_event(&mut s, RawEvent::ButtonChanged(ButtonId::Select, ANALOG_ONE));
    assert_eq!(
        lit_slots(&s.buttons),
        vec![false, false, true, false, false, true, false, false]
    );
}
