use evdev::{AbsoluteAxisCode, BusType, EventType, KeyCode, PropType, RelativeAxisCode};
use moreland::daemon::input::{
    build, build_pointer, emit_relative, Completion, InputEvent, InputMsg, PointerInput,
    PointerState, Residual, ScreenStep, TouchInput, TouchPlan, Touchscreen, WorkerEvent,
    WorkerStep, ABS_MT_POSITION_X, ABS_MT_POSITION_Y, ABS_MT_SLOT, ABS_MT_TRACKING_ID, ABS_X, ABS_Y,
    BTN_LEFT, BTN_MIDDLE, BTN_RIGHT, BTN_TOUCH, BUS_VIRTUAL, EV_ABS, EV_KEY, EV_REL, EV_SYN,
    PROP_DIRECT, PROP_POINTER, REL_X, REL_Y,
};
use moreland::protocol::{TouchAction, TouchMessage};

const MS: u64 = 1_000_000;

fn rows(events: &[InputEvent]) -> Vec<(u16, u16, i32)> {
    events.iter().map(|e| (e.kind, e.code, e.value)).collect()
}

fn button(code: u16, value: i32) -> Vec<(u16, u16, i32)> {
    vec![(EV_KEY, code, value), (EV_SYN, 0, 0)]
}

fn play(screen: &mut Touchscreen, steps: Vec<ScreenStep>) -> Vec<Vec<(u16, u16, i32)>> {
    let mut out = Vec::new();
    for step in steps {
        *screen = step.state;
        out.push(rows(&step.events));
    }
    out
}

/// Take in a touch and carry its plan out in full.
fn touch(p: &mut PointerInput, action: TouchAction, x: u16, y: u16, now: u64) -> Vec<Vec<(u16, u16, i32)>> {
    let plan = p.on_touch(action, x, y, now);
    let batches = plan.batches.iter().map(|b| rows(b)).collect();
    p.complete(plan.completion, now);
    batches
}

#[test]
fn codes_are_those_of_the_kernel() {
    assert_eq!(EV_SYN, EventType::SYNCHRONIZATION.0);
    assert_eq!(EV_KEY, EventType::KEY.0);
    assert_eq!(EV_REL, EventType::RELATIVE.0);
    assert_eq!(EV_ABS, EventType::ABSOLUTE.0);
    assert_eq!(ABS_X, AbsoluteAxisCode::ABS_X.0);
    assert_eq!(ABS_Y, AbsoluteAxisCode::ABS_Y.0);
    assert_eq!(ABS_MT_SLOT, AbsoluteAxisCode::ABS_MT_SLOT.0);
    assert_eq!(ABS_MT_POSITION_X, AbsoluteAxisCode::ABS_MT_POSITION_X.0);
    assert_eq!(ABS_MT_POSITION_Y, AbsoluteAxisCode::ABS_MT_POSITION_Y.0);
    assert_eq!(ABS_MT_TRACKING_ID, AbsoluteAxisCode::ABS_MT_TRACKING_ID.0);
    assert_eq!(REL_X, RelativeAxisCode::REL_X.0);
    assert_eq!(REL_Y, RelativeAxisCode::REL_Y.0);
    assert_eq!(BTN_LEFT, KeyCode::BTN_LEFT.0);
    assert_eq!(BTN_RIGHT, KeyCode::BTN_RIGHT.0);
    assert_eq!(BTN_MIDDLE, KeyCode::BTN_MIDDLE.0);
    assert_eq!(BTN_TOUCH, KeyCode::BTN_TOUCH.0);
    assert_eq!(PROP_DIRECT, PropType::DIRECT.0);
    assert_eq!(PROP_POINTER, PropType::POINTER.0);
    assert_eq!(BUS_VIRTUAL, BusType::BUS_VIRTUAL.0);
}

#[test]
fn touchscreen_press_slide_and_release() {
    let mut s = Touchscreen::new();
    let steps = s.send(TouchAction::Down, 65535, 32768);
    let down = play(&mut s, steps);
    assert_eq!(
        down,
        vec![vec![
            (EV_ABS, ABS_MT_SLOT, 0),
            (EV_ABS, ABS_MT_TRACKING_ID, 1),
            (EV_ABS, ABS_MT_POSITION_X, 32767),
            (EV_ABS, ABS_MT_POSITION_Y, 16383),
            (EV_ABS, ABS_X, 32767),
            (EV_ABS, ABS_Y, 16383),
            (EV_KEY, BTN_TOUCH, 1),
            (EV_SYN, 0, 0),
        ]]
    );
    let steps = s.send(TouchAction::Move, 0, 65535);
    let slide = play(&mut s, steps);
    assert_eq!(
        slide,
        vec![vec![
            (EV_ABS, ABS_MT_POSITION_X, 0),
            (EV_ABS, ABS_MT_POSITION_Y, 32767),
            (EV_ABS, ABS_X, 0),
            (EV_ABS, ABS_Y, 32767),
            (EV_SYN, 0, 0),
        ]]
    );
    // Lifting at the origin means "where it was".
    let steps = s.send(TouchAction::Up, 0, 0);
    let up = play(&mut s, steps);
    assert_eq!(
        up,
        vec![vec![
            (EV_ABS, ABS_MT_SLOT, 0),
            (EV_ABS, ABS_MT_POSITION_X, 0),
            (EV_ABS, ABS_MT_POSITION_Y, 32767),
            (EV_ABS, ABS_X, 0),
            (EV_ABS, ABS_Y, 32767),
            (EV_ABS, ABS_MT_TRACKING_ID, -1),
            (EV_KEY, BTN_TOUCH, 0),
            (EV_SYN, 0, 0),
        ]]
    );
    assert!(!s.contact_open);
}

#[test]
fn touchscreen_without_contact_is_silent() {
    let s = Touchscreen::new();
    for action in [TouchAction::Move, TouchAction::Up, TouchAction::Cancel] {
        assert!(s.send(action, 100, 100).is_empty());
    }
}

#[test]
fn second_press_releases_the_first() {
    let mut s = Touchscreen::new();
    let steps = s.send(TouchAction::Down, 1000, 1000);
    play(&mut s, steps);
    let steps = s.send(TouchAction::Down, 2000, 2000);
    assert_eq!(steps.len(), 2);
    assert!(!steps[0].state.contact_open && steps[1].state.contact_open);
    assert_eq!(rows(&steps[0].events)[5], (EV_ABS, ABS_MT_TRACKING_ID, -1));
    assert_eq!(rows(&steps[1].events)[1], (EV_ABS, ABS_MT_TRACKING_ID, 2));
}

#[test]
fn tracking_ids_wrap_around() {
    let s = Touchscreen {
        next_tracking_id: 65535,
        ..Touchscreen::new()
    };
    let steps = s.send(TouchAction::Down, 1, 1);
    assert_eq!(rows(&steps[0].events)[1], (EV_ABS, ABS_MT_TRACKING_ID, 65535));
    assert_eq!(steps[0].state.next_tracking_id, 1);
}

#[test]
fn tap_clicks_left() {
    let mut p = PointerInput::new();
    assert!(touch(&mut p, TouchAction::Down, 500, 500, 0).is_empty());
    assert_eq!(
        touch(&mut p, TouchAction::Up, 2000, 500, 50 * MS),
        vec![button(BTN_LEFT, 1), button(BTN_LEFT, 0)]
    );
    assert_eq!(p.state, PointerState::Idle);
    assert_eq!(p.last_tap_end, Some(50 * MS));
}

#[test]
fn moved_finger_does_not_click() {
    let mut p = PointerInput::new();
    touch(&mut p, TouchAction::Down, 500, 500, 0);
    let plan = p.on_touch(TouchAction::Move, 2001, 500, 10 * MS);
    assert_eq!(plan.motion, Some(((500, 500), (2001, 500))));
    assert!(plan.batches.is_empty());
    p.complete(plan.completion, 10 * MS);
    assert_eq!(p.time_until_long_press(20 * MS), None);
    // Back where it came down, and still no click.
    assert!(touch(&mut p, TouchAction::Up, 500, 500, 30 * MS).is_empty());
    assert_eq!(p.last_tap_end, None);
}

#[test]
fn double_tap_drags() {
    let mut p = PointerInput::new();
    touch(&mut p, TouchAction::Down, 500, 500, 0);
    touch(&mut p, TouchAction::Up, 500, 500, 50 * MS);
    touch(&mut p, TouchAction::Down, 500, 500, 349 * MS);
    // A small move does not commit the drag.
    assert!(touch(&mut p, TouchAction::Move, 600, 500, 350 * MS).is_empty());
    assert_eq!(
        touch(&mut p, TouchAction::Move, 500, 2001, 360 * MS),
        vec![button(BTN_LEFT, 1)]
    );
    assert_eq!(p.state, PointerState::Dragging { last_x: 500, last_y: 2001 });
    let plan = p.on_touch(TouchAction::Move, 700, 3000, 370 * MS);
    assert_eq!(plan.motion, Some(((500, 2001), (700, 3000))));
    p.complete(plan.completion, 370 * MS);
    assert_eq!(
        touch(&mut p, TouchAction::Up, 700, 3000, 380 * MS),
        vec![button(BTN_LEFT, 0)]
    );
    assert_eq!(p.last_tap_end, None);
}

#[test]
fn late_second_tap_does_not_drag() {
    let mut p = PointerInput::new();
    touch(&mut p, TouchAction::Down, 500, 500, 0);
    touch(&mut p, TouchAction::Up, 500, 500, 50 * MS);
    touch(&mut p, TouchAction::Down, 500, 500, 350 * MS);
    assert!(touch(&mut p, TouchAction::Move, 500, 3000, 360 * MS).is_empty());
    assert!(matches!(p.state, PointerState::Touched { moved: true, .. }));
}

#[test]
fn long_press_clicks_right() {
    let mut p = PointerInput::new();
    assert_eq!(p.time_until_long_press(5), None);
    touch(&mut p, TouchAction::Down, 500, 500, 1000 * MS);
    assert_eq!(p.time_until_long_press(1000 * MS), Some(600 * MS));
    assert_eq!(p.time_until_long_press(1250 * MS), Some(350 * MS));
    assert_eq!(p.time_until_long_press(9000 * MS), Some(0));
    let plan = p.on_long_press();
    let batches: Vec<_> = plan.batches.iter().map(|b| rows(b)).collect();
    assert_eq!(batches, vec![button(BTN_RIGHT, 1), button(BTN_RIGHT, 0)]);
    assert_eq!(plan.completion, Completion::LongPressed);
    p.complete(plan.completion, 1600 * MS);
    assert_eq!(p.state, PointerState::Consumed);
    assert!(touch(&mut p, TouchAction::Move, 5000, 5000, 1700 * MS).is_empty());
    assert!(touch(&mut p, TouchAction::Up, 5000, 5000, 1800 * MS).is_empty());
    assert!(p.on_long_press().batches.is_empty());
}

#[test]
fn a_failed_write_leaves_the_gesture_where_it_was() {
    let mut p = PointerInput::new();
    touch(&mut p, TouchAction::Down, 500, 500, 0);
    let before = p.state;
    let _failed = p.on_touch(TouchAction::Move, 600, 500, 10 * MS);
    assert_eq!(p.state, before);
    // A lift is over at once, also where the click could not be written.
    let _failed = p.on_touch(TouchAction::Up, 500, 500, 20 * MS);
    assert_eq!(p.state, PointerState::Idle);
    assert_eq!(p.last_tap_end, None);
}

#[test]
fn cancel_lets_go() {
    let mut p = PointerInput {
        state: PointerState::Dragging { last_x: 1, last_y: 2 },
        last_tap_end: Some(3),
    };
    let plan = p.cancel();
    let batches: Vec<_> = plan.batches.iter().map(|b| rows(b)).collect();
    assert_eq!(batches, vec![button(BTN_LEFT, 0)]);
    assert_eq!(plan.residual, Residual::ClearAfter);
    p.complete(plan.completion, 9);
    assert_eq!(p, PointerInput::new());
    assert!(p.cancel().batches.is_empty());
}

#[test]
fn down_clears_the_residual() {
    let mut p = PointerInput::new();
    assert_eq!(p.on_touch(TouchAction::Down, 1, 1, 0).residual, Residual::ClearNow);
    assert_eq!(p.on_touch(TouchAction::Move, 1, 1, 0).residual, Residual::Keep);
}

#[test]
fn cursor_motion_is_one_batch() {
    assert!(emit_relative(0, 0).is_empty());
    assert_eq!(
        rows(&emit_relative(3, -4)),
        vec![(EV_REL, REL_X, 3), (EV_REL, REL_Y, -4), (EV_SYN, 0, 0)]
    );
    assert_eq!(rows(&emit_relative(0, 7)), vec![(EV_REL, REL_Y, 7), (EV_SYN, 0, 0)]);
    assert_eq!(rows(&emit_relative(7, 0)), vec![(EV_REL, REL_X, 7), (EV_SYN, 0, 0)]);
}

#[test]
fn device_declarations() {
    let screen = build("moreland-touch", 1920, 1200);
    assert_eq!(screen.name, "moreland-touch");
    assert_eq!((screen.vendor, screen.product, screen.version), (0x4d52, 0x4c44, 1));
    assert_eq!(screen.keys, [BTN_TOUCH]);
    assert_eq!(screen.properties, [PROP_DIRECT]);
    let axes: Vec<_> = screen.abs_axes.iter().map(|a| (a.code, a.max, a.resolution)).collect();
    assert_eq!(
        axes,
        vec![
            (ABS_X, 32767, 107),
            (ABS_Y, 32767, 172),
            (ABS_MT_POSITION_X, 32767, 107),
            (ABS_MT_POSITION_Y, 32767, 172),
            (ABS_MT_SLOT, 9, 0),
            (ABS_MT_TRACKING_ID, 65535, 0),
        ]
    );
    let pointer = build_pointer("p");
    assert_eq!(pointer.product, 0x4c45);
    assert_eq!(pointer.keys, [BTN_LEFT, BTN_RIGHT, BTN_MIDDLE]);
    assert_eq!(pointer.properties, [PROP_POINTER]);
    assert_eq!(pointer.rel_axes, [REL_X, REL_Y]);
    assert!(pointer.abs_axes.is_empty());
}

#[test]
fn resolution_is_the_range_over_the_size() {
    let mut pixels: u64 = 0;
    while pixels <= u64::from(u32::MAX) {
        let p = pixels as u32;
        let mm = f64::from(p) * 25.4 / 160.0;
        let want = if mm <= 0.0 { 0 } else { (32767.0 / mm) as i32 };
        assert_eq!(build("", p, 0).abs_axes[0].resolution, want, "for {p} pixels");
        pixels += if pixels < 300_000 { 1 } else { 40_000_003 };
    }
}

#[test]
fn worker_dispatches() {
    let mut screen = TouchInput::new_screen();
    assert_eq!(screen.time_until_long_press(0), None);
    let msg = InputMsg::Touch(TouchMessage { action: TouchAction::Down, x: 9, y: 9 });
    match screen.run_touch_worker(WorkerEvent::Message(msg), 0) {
        WorkerStep::Write(TouchPlan::Screen(steps)) => {
            assert_eq!(steps.len(), 1);
            screen = TouchInput::Screen(steps[0].state);
        }
        other => panic!("got {other:?}"),
    }
    match screen.run_touch_worker(WorkerEvent::Disconnected, 0) {
        WorkerStep::Finish(TouchPlan::Screen(steps)) => assert_eq!(steps.len(), 1),
        other => panic!("got {other:?}"),
    }

    let mut pointer = TouchInput::new_pointer();
    pointer.run_touch_worker(WorkerEvent::Message(msg), 5);
    assert_eq!(pointer.time_until_long_press(5), Some(600 * MS));
    match pointer.run_touch_worker(WorkerEvent::Timeout, 700 * MS) {
        WorkerStep::Write(TouchPlan::Pointer(plan)) => assert_eq!(plan.batches.len(), 2),
        other => panic!("got {other:?}"),
    }
    match pointer.run_touch_worker(WorkerEvent::Disconnected, 0) {
        WorkerStep::Finish(TouchPlan::Pointer(plan)) => {
            assert_eq!(plan.completion, Completion::Cancelled);
        }
        other => panic!("got {other:?}"),
    }
}

#[test]
fn contacts_open_and_close_in_turn() {
    let mut s = Touchscreen::new();
    let mut ids = Vec::new();
    for action in [
        TouchAction::Up,
        TouchAction::Down,
        TouchAction::Down,
        TouchAction::Move,
        TouchAction::Cancel,
        TouchAction::Up,
        TouchAction::Move,
        TouchAction::Down,
        TouchAction::Up,
    ] {
        let steps = s.send(action, 500, 600);
        for batch in play(&mut s, steps) {
            for (kind, code, value) in batch {
                if (kind, code) == (EV_ABS, ABS_MT_TRACKING_ID) {
                    ids.push(value);
                }
            }
        }
    }
    assert_eq!(ids, [1, -1, 2, -1, 3, -1]);
    assert!(!s.contact_open);
}
