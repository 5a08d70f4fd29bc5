use rust_macro::compile::{compile_events, duration_ms_between, TimedEvent, MIN_WAIT_MS};
use rust_macro::event::RawEvent;
use rust_macro::input::{KeyCode, MouseButton, MoveMode, Point};
use rust_macro::macro_def::Step;

const T0: u64 = 5_000_000_000;

fn at(ms: u64) -> u64 {
    T0 + ms * 1_000_000
}

fn ev(at: u64, e: RawEvent) -> TimedEvent {
    TimedEvent { event: e, at }
}

#[test]
fn empty_returns_empty() {
    assert!(compile_events(&[]).is_empty());
}

#[test]
fn keydown_keyup_collapses_to_keypress() {
    let raw = vec![
        ev(at(0), RawEvent::KeyDown { key: KeyCode::W }),
        ev(at(250), RawEvent::KeyUp { key: KeyCode::W }),
    ];
    let steps = compile_events(&raw);
    assert_eq!(steps, vec![Step::KeyPress { key: KeyCode::W, hold_ms: 250 }]);
}

#[test]
fn gap_between_keys_emits_wait() {
    let raw = vec![
        ev(at(0), RawEvent::KeyDown { key: KeyCode::A }),
        ev(at(80), RawEvent::KeyUp { key: KeyCode::A }),
        ev(at(230), RawEvent::KeyDown { key: KeyCode::B }),
        ev(at(310), RawEvent::KeyUp { key: KeyCode::B }),
    ];
    let steps = compile_events(&raw);
    assert_eq!(
        steps,
        vec![
            Step::KeyPress { key: KeyCode::A, hold_ms: 80 },
            Step::Wait { min_ms: 150, max_ms: 150 },
            Step::KeyPress { key: KeyCode::B, hold_ms: 80 },
        ]
    );
}

#[test]
fn lone_keydown_without_keyup_emits_keydown() {
    let raw = vec![ev(at(0), RawEvent::KeyDown { key: KeyCode::LShift })];
    let steps = compile_events(&raw);
    assert_eq!(steps, vec![Step::KeyDown { key: KeyCode::LShift }]);
}

#[test]
fn mouse_down_up_collapses() {
    let raw = vec![
        ev(at(0), RawEvent::MouseDown { button: MouseButton::Left }),
        ev(at(60), RawEvent::MouseUp { button: MouseButton::Left }),
    ];
    let steps = compile_events(&raw);
    assert_eq!(
        steps,
        vec![Step::MouseClick { button: MouseButton::Left, hold_ms: 60, at: None }]
    );
}

#[test]
fn mouse_move_passes_through() {
    let raw = vec![ev(at(0), RawEvent::MouseMove { dx: 10, dy: -5 })];
    let steps = compile_events(&raw);
    assert_eq!(
        steps,
        vec![Step::MouseMove {
            to: Point { x: 10, y: -5 },
            mode: MoveMode::Relative,
            duration_ms: None,
        }]
    );
}

#[test]
fn mouse_wheel_passes_through() {
    let raw = vec![ev(at(0), RawEvent::MouseWheel { delta: 120 })];
    assert_eq!(compile_events(&raw), vec![Step::MouseScroll { delta: 120 }]);
}

#[test]
fn overlapping_keys_emit_raw_down_up() {
    let raw = vec![
        ev(at(0), RawEvent::KeyDown { key: KeyCode::A }),
        ev(at(50), RawEvent::KeyDown { key: KeyCode::B }),
        ev(at(100), RawEvent::KeyUp { key: KeyCode::A }),
        ev(at(150), RawEvent::KeyUp { key: KeyCode::B }),
    ];
    let steps = compile_events(&raw);
    assert_eq!(
        steps,
        vec![
            Step::KeyDown { key: KeyCode::A },
            Step::Wait { min_ms: 50, max_ms: 50 },
            Step::KeyDown { key: KeyCode::B },
            Step::Wait { min_ms: 50, max_ms: 50 },
            Step::KeyUp { key: KeyCode::A },
            Step::Wait { min_ms: 50, max_ms: 50 },
            Step::KeyUp { key: KeyCode::B },
        ]
    );
}

#[test]
fn consecutive_mouse_moves_coalesce_summing_deltas() {
    let raw = vec![
        ev(at(0), RawEvent::MouseMove { dx: 5, dy: 0 }),
        ev(at(4), RawEvent::MouseMove { dx: 3, dy: 2 }),
        ev(at(8), RawEvent::MouseMove { dx: -1, dy: 4 }),
        ev(at(12), RawEvent::MouseMove { dx: 10, dy: -3 }),
    ];
    let steps = compile_events(&raw);
    assert_eq!(
        steps,
        vec![Step::MouseMove {
            to: Point { x: 17, y: 3 },
            mode: MoveMode::Relative,
            duration_ms: Some(12),
        }]
    );
}

#[test]
fn mouse_move_runs_break_on_non_move_event() {
    let raw = vec![
        ev(at(0), RawEvent::MouseMove { dx: 5, dy: 0 }),
        ev(at(5), RawEvent::MouseMove { dx: 3, dy: 0 }),
        ev(at(50), RawEvent::KeyDown { key: KeyCode::A }),
        ev(at(100), RawEvent::KeyUp { key: KeyCode::A }),
        ev(at(200), RawEvent::MouseMove { dx: -2, dy: 4 }),
        ev(at(205), RawEvent::MouseMove { dx: 1, dy: 1 }),
    ];
    let steps = compile_events(&raw);
    assert_eq!(
        steps,
        vec![
            Step::MouseMove {
                to: Point { x: 8, y: 0 },
                mode: MoveMode::Relative,
                duration_ms: Some(5),
            },
            Step::Wait { min_ms: 45, max_ms: 45 },
            Step::KeyPress { key: KeyCode::A, hold_ms: 50 },
            Step::Wait { min_ms: 100, max_ms: 100 },
            Step::MouseMove {
                to: Point { x: -1, y: 5 },
                mode: MoveMode::Relative,
                duration_ms: Some(5),
            },
        ]
    );
}

#[test]
fn non_overlapping_keys_collapse_to_keypress() {
    let raw = vec![
        ev(at(0), RawEvent::KeyDown { key: KeyCode::A }),
        ev(at(100), RawEvent::KeyUp { key: KeyCode::A }),
        ev(at(200), RawEvent::KeyDown { key: KeyCode::B }),
        ev(at(300), RawEvent::KeyUp { key: KeyCode::B }),
    ];
    let steps = compile_events(&raw);
    assert_eq!(
        steps,
        vec![
            Step::KeyPress { key: KeyCode::A, hold_ms: 100 },
            Step::Wait { min_ms: 100, max_ms: 100 },
            Step::KeyPress { key: KeyCode::B, hold_ms: 100 },
        ]
    );
}

#[test]
fn waits_below_threshold_are_dropped() {
    let raw = vec![
        ev(at(0), RawEvent::KeyDown { key: KeyCode::A }),
        ev(at(50), RawEvent::KeyUp { key: KeyCode::A }),
        ev(at(65), RawEvent::KeyDown { key: KeyCode::B }),
        ev(at(115), RawEvent::KeyUp { key: KeyCode::B }),
    ];
    let steps = compile_events(&raw);
    assert_eq!(
        steps,
        vec![
            Step::KeyPress { key: KeyCode::A, hold_ms: 50 },
            Step::KeyPress { key: KeyCode::B, hold_ms: 50 },
        ]
    );
}

#[test]
fn waits_at_or_above_threshold_are_kept() {
    let raw = vec![
        ev(at(0), RawEvent::KeyDown { key: KeyCode::A }),
        ev(at(50), RawEvent::KeyUp { key: KeyCode::A }),
        ev(at(80), RawEvent::KeyDown { key: KeyCode::B }),
        ev(at(130), RawEvent::KeyUp { key: KeyCode::B }),
    ];
    let steps = compile_events(&raw);
    assert_eq!(
        steps,
        vec![
            Step::KeyPress { key: KeyCode::A, hold_ms: 50 },
            Step::Wait { min_ms: 30, max_ms: 30 },
            Step::KeyPress { key: KeyCode::B, hold_ms: 50 },
        ]
    );
}

#[test]
fn coalesced_moves_set_duration_ms() {
    let raw = vec![
        ev(at(0), RawEvent::MouseMove { dx: 5, dy: 0 }),
        ev(at(5), RawEvent::MouseMove { dx: 3, dy: 2 }),
        ev(at(10), RawEvent::MouseMove { dx: 2, dy: -1 }),
    ];
    let steps = compile_events(&raw);
    assert_eq!(
        steps,
        vec![Step::MouseMove {
            to: Point { x: 10, y: 1 },
            mode: MoveMode::Relative,
            duration_ms: Some(10),
        }]
    );
}

#[test]
fn single_move_has_no_duration() {
    let raw = vec![ev(at(0), RawEvent::MouseMove { dx: 10, dy: -5 })];
    let steps = compile_events(&raw);
    assert_eq!(
        steps,
        vec![Step::MouseMove {
            to: Point { x: 10, y: -5 },
            mode: MoveMode::Relative,
            duration_ms: None,
        }]
    );
}

#[test]
fn zero_duration_run_collapses_to_none() {
    let raw = vec![
        ev(at(0), RawEvent::MouseMove { dx: 1, dy: 0 }),
        ev(at(0), RawEvent::MouseMove { dx: 1, dy: 0 }),
    ];
    let steps = compile_events(&raw);
    assert_eq!(
        steps,
        vec![Step::MouseMove {
            to: Point { x: 2, y: 0 },
            mode: MoveMode::Relative,
            duration_ms: None,
        }]
    );
}

#[test]
fn lone_mouse_up_is_dropped_and_lone_down_clicks() {
    let raw = vec![
        ev(at(0), RawEvent::MouseUp { button: MouseButton::Right }),
        ev(at(5), RawEvent::MouseDown { button: MouseButton::Left }),
        ev(at(10), RawEvent::KeyDown { key: KeyCode::A }),
    ];
    assert_eq!(
        compile_events(&raw),
        vec![
            Step::MouseClick { button: MouseButton::Left, hold_ms: 0, at: None },
            Step::KeyDown { key: KeyCode::A },
        ]
    );
}

#[test]
fn deltas_saturate_instead_of_wrapping() {
    let raw = vec![
        ev(at(0), RawEvent::MouseMove { dx: i32::MAX, dy: i32::MIN }),
        ev(at(1), RawEvent::MouseMove { dx: 10, dy: -10 }),
    ];
    assert_eq!(
        compile_events(&raw),
        vec![Step::MouseMove {
            to: Point { x: i32::MAX, y: i32::MIN },
            mode: MoveMode::Relative,
            duration_ms: Some(1),
        }]
    );
}

#[test]
fn duration_between_truncates_and_saturates() {
    assert_eq!(duration_ms_between(at(10), at(5)), 0);
    assert_eq!(duration_ms_between(at(0), at(0) + 1_999_999), 1);
    assert_eq!(duration_ms_between(0, u64::MAX), u32::MAX);
    assert_eq!(MIN_WAIT_MS, 20);
}

#[test]
fn every_compiled_wait_is_exact_and_at_least_the_threshold() {
    let raw = vec![
        ev(at(0), RawEvent::KeyDown { key: KeyCode::A }),
        ev(at(19), RawEvent::KeyUp { key: KeyCode::B }),
        ev(at(39), RawEvent::MouseWheel { delta: -1 }),
        ev(at(100), RawEvent::MouseMove { dx: 1, dy: 1 }),
    ];
    let steps = compile_events(&raw);
    for s in &steps {
        if let Step::Wait { min_ms, max_ms } = s {
            assert_eq!(min_ms, max_ms);
            assert!(*min_ms >= MIN_WAIT_MS);
        }
    }
    assert_eq!(
        steps,
        vec![
            Step::KeyDown { key: KeyCode::A },
            Step::KeyUp { key: KeyCode::B },
            Step::Wait { min_ms: 20, max_ms: 20 },
            Step::MouseScroll { delta: -1 },
            Step::Wait { min_ms: 61, max_ms: 61 },
            Step::MouseMove { to: Point { x: 1, y: 1 }, mode: MoveMode::Relative, duration_ms: None },
        ]
    );
}

#[test]
fn compiled_steps_keep_every_key_button_and_wheel_input() {
    let raw = vec![
        ev(at(0), RawEvent::KeyDown { key: KeyCode::A }),
        ev(at(1), RawEvent::KeyDown { key: KeyCode::B }),
        ev(at(2), RawEvent::KeyUp { key: KeyCode::A }),
        ev(at(3), RawEvent::KeyUp { key: KeyCode::B }),
        ev(at(4), RawEvent::KeyDown { key: KeyCode::C }),
        ev(at(5), RawEvent::KeyUp { key: KeyCode::C }),
        ev(at(6), RawEvent::MouseDown { button: MouseButton::Left }),
        ev(at(7), RawEvent::MouseWheel { delta: 3 }),
        ev(at(8), RawEvent::MouseMove { dx: 2, dy: 1 }),
        ev(at(9), RawEvent::MouseMove { dx: -5, dy: 4 }),
        ev(at(10), RawEvent::MouseWheel { delta: -1 }),
        ev(at(11), RawEvent::MouseMove { dx: 1, dy: 1 }),
    ];
    let steps = compile_events(&raw);
    let presses = steps.iter().filter(|s| matches!(s, Step::KeyPress { .. })).count();
    let downs = steps.iter().filter(|s| matches!(s, Step::KeyDown { .. })).count();
    let ups = steps.iter().filter(|s| matches!(s, Step::KeyUp { .. })).count();
    let clicks = steps.iter().filter(|s| matches!(s, Step::MouseClick { .. })).count();
    assert_eq!(presses + downs, 3);
    assert_eq!(presses + ups, 3);
    assert_eq!(clicks, 1);
    let scrolls: Vec<i32> = steps
        .iter()
        .filter_map(|s| if let Step::MouseScroll { delta } = s { Some(*delta) } else { None })
        .collect();
    assert_eq!(scrolls, vec![3, -1]);
    let (mx, my) = steps.iter().fold((0, 0), |(x, y), s| match s {
        Step::MouseMove { to, .. } => (x + to.x, y + to.y),
        _ => (x, y),
    });
    assert_eq!((mx, my), (-2, 6));
    assert_eq!(steps.iter().filter(|s| matches!(s, Step::MouseMove { .. })).count(), 2);
}

#[test]
fn a_run_whose_running_sums_fit_keeps_its_exact_motion() {
    let raw = vec![
        ev(at(0), RawEvent::MouseMove { dx: -1, dy: 0 }),
        ev(at(1), RawEvent::MouseMove { dx: i32::MAX, dy: 0 }),
        ev(at(2), RawEvent::MouseMove { dx: 1, dy: 0 }),
    ];
    assert_eq!(
        compile_events(&raw),
        vec![Step::MouseMove {
            to: Point { x: i32::MAX, y: 0 },
            mode: MoveMode::Relative,
            duration_ms: Some(2),
        }]
    );
}
