use rust_macro::compile::{compile_events, TimedEvent};
use rust_macro::event::RawEvent;
use rust_macro::input::{KeyCode, MouseButton, MoveMode, Point};
use rust_macro::macro_def::{PlaybackMode, Step};
use rust_macro::player::{playback_iter, Player, PlayerAction, MIN_ITERATION_GAP_MS};

/// Runs a player to the end. A stop is requested once `stop_after` events
/// have been sent; returns the events sent and the pauses taken.
fn drive(steps: &[Step], mode: PlaybackMode, stop_after: Option<usize>) -> (Vec<RawEvent>, Vec<u64>) {
    let mut p = Player::new(mode);
    let mut sent = Vec::new();
    let mut sleeps = Vec::new();
    let mut stop_pending = false;
    let mut stop_requested = false;
    for _ in 0..1_000_000 {
        if let Some(n) = stop_after {
            if !stop_requested && sent.len() >= n {
                stop_pending = true;
                stop_requested = true;
            }
        }
        let (action, consumed) = p.next(steps, stop_pending);
        if consumed {
            stop_pending = false;
        }
        match action {
            PlayerAction::Send(e) => sent.push(e),
            PlayerAction::Sleep(ms) => sleeps.push(ms),
            PlayerAction::Continue => {}
            PlayerAction::Done => return (sent, sleeps),
        }
    }
    panic!("player did not finish");
}

fn count_mouse_moves(events: &[RawEvent]) -> usize {
    events.iter().filter(|e| matches!(e, RawEvent::MouseMove { .. })).count()
}

fn sum_mouse_deltas(events: &[RawEvent]) -> (i32, i32) {
    events.iter().fold((0i32, 0i32), |(ax, ay), e| match e {
        RawEvent::MouseMove { dx, dy } => (ax.saturating_add(*dx), ay.saturating_add(*dy)),
        _ => (ax, ay),
    })
}

#[test]
fn keypress_emits_down_then_up() {
    let (sent, sleeps) = drive(&[Step::KeyPress { key: KeyCode::A, hold_ms: 5 }], PlaybackMode::Once, None);
    assert_eq!(sent, vec![RawEvent::KeyDown { key: KeyCode::A }, RawEvent::KeyUp { key: KeyCode::A }]);
    assert_eq!(sleeps, vec![5]);
}

#[test]
fn wait_is_random_within_range() {
    let (sent, sleeps) = drive(
        &[Step::Wait { min_ms: 10, max_ms: 20 }],
        PlaybackMode::Repeat { count: 5 },
        None,
    );
    assert!(sent.is_empty());
    assert!(sleeps.iter().all(|ms| (10..=20).contains(ms)));
    assert_eq!(sleeps.len(), 5 + 4);
}

#[test]
fn mouse_click_emits_down_up() {
    let (sent, sleeps) = drive(
        &[Step::MouseClick { button: MouseButton::Left, hold_ms: 5, at: None }],
        PlaybackMode::Once,
        None,
    );
    assert!(matches!(sent[0], RawEvent::MouseDown { .. }));
    assert!(matches!(sent[1], RawEvent::MouseUp { .. }));
    assert_eq!(sleeps, vec![5]);
}

#[test]
fn click_position_is_not_sent() {
    let (sent, _) = drive(
        &[Step::MouseClick { button: MouseButton::Right, hold_ms: 0, at: Some(Point { x: 3, y: 4 }) }],
        PlaybackMode::Once,
        None,
    );
    assert_eq!(
        sent,
        vec![
            RawEvent::MouseDown { button: MouseButton::Right },
            RawEvent::MouseUp { button: MouseButton::Right },
        ]
    );
}

#[test]
fn repeat_n_runs_n_times() {
    let (sent, sleeps) = drive(&[Step::KeyPress { key: KeyCode::X, hold_ms: 0 }], PlaybackMode::Repeat { count: 4 }, None);
    assert_eq!(sent.len(), 4 * 2);
    assert_eq!(sleeps.iter().filter(|ms| **ms == MIN_ITERATION_GAP_MS).count(), 3);
}

#[test]
fn once_runs_once() {
    let (sent, _) = drive(&[Step::KeyPress { key: KeyCode::X, hold_ms: 0 }], PlaybackMode::Once, None);
    assert_eq!(sent.len(), 2);
}

#[test]
fn repeat_zero_sends_nothing() {
    let (sent, sleeps) = drive(&[Step::KeyPress { key: KeyCode::X, hold_ms: 0 }], PlaybackMode::Repeat { count: 0 }, None);
    assert!(sent.is_empty());
    assert!(sleeps.is_empty());
}

#[test]
fn loop_stops_on_signal() {
    let steps = [Step::KeyPress { key: KeyCode::X, hold_ms: 1 }, Step::Wait { min_ms: 5, max_ms: 5 }];
    let (sent, _) = drive(&steps, PlaybackMode::Loop, Some(7));
    let count = sent.len();
    assert!(count > 0 && count % 2 == 0, "sent count was {count}");
}

#[test]
fn run_with_stop_signals_clean_exit() {
    let steps = [Step::KeyPress { key: KeyCode::X, hold_ms: 1 }, Step::Wait { min_ms: 5, max_ms: 5 }];
    let (sent, _) = drive(&steps, PlaybackMode::Loop, Some(1));
    let count = sent.len();
    assert!(count > 0 && count % 2 == 0);
}

#[test]
fn streamed_move_sends_chunks_summing_to_total() {
    let (sent, _) = drive(
        &[Step::MouseMove { to: Point { x: 100, y: 0 }, mode: MoveMode::Relative, duration_ms: Some(50) }],
        PlaybackMode::Once,
        None,
    );
    let count = count_mouse_moves(&sent);
    assert!(count >= 40 && count <= 50, "expected ~50 chunks, got {count}");
    assert_eq!(sum_mouse_deltas(&sent), (100, 0));
}

#[test]
fn streamed_move_with_sparse_motion_skips_zero_chunks() {
    let (sent, sleeps) = drive(
        &[Step::MouseMove { to: Point { x: 3, y: 0 }, mode: MoveMode::Relative, duration_ms: Some(100) }],
        PlaybackMode::Once,
        None,
    );
    assert_eq!(count_mouse_moves(&sent), 3, "expected 3 non-zero sends");
    assert_eq!(sum_mouse_deltas(&sent), (3, 0));
    assert_eq!(sleeps.len(), 100);
}

#[test]
fn streamed_move_honors_stop_signal_mid_stream() {
    let (sent, _) = drive(
        &[Step::MouseMove { to: Point { x: 500, y: 500 }, mode: MoveMode::Relative, duration_ms: Some(500) }],
        PlaybackMode::Once,
        Some(50),
    );
    let count = count_mouse_moves(&sent);
    assert!(count < 200, "stop should have cut the stream short, got {count} chunks");
    assert_eq!(count, 50);
}

#[test]
fn absolute_move_ignores_duration_ms() {
    let (sent, _) = drive(
        &[Step::MouseMove { to: Point { x: 42, y: 17 }, mode: MoveMode::Absolute, duration_ms: Some(100) }],
        PlaybackMode::Once,
        None,
    );
    assert_eq!(count_mouse_moves(&sent), 1);
    assert_eq!(sum_mouse_deltas(&sent), (42, 17));
}

#[test]
fn none_or_zero_duration_teleports() {
    let (sent, sleeps) = drive(
        &[
            Step::MouseMove { to: Point { x: 10, y: 5 }, mode: MoveMode::Relative, duration_ms: None },
            Step::MouseMove { to: Point { x: -1, y: -1 }, mode: MoveMode::Relative, duration_ms: Some(0) },
        ],
        PlaybackMode::Once,
        None,
    );
    assert_eq!(count_mouse_moves(&sent), 2);
    assert_eq!(sent, vec![RawEvent::MouseMove { dx: 10, dy: 5 }, RawEvent::MouseMove { dx: -1, dy: -1 }]);
    assert!(sleeps.is_empty());
}

#[test]
fn scroll_and_raw_keys_pass_through() {
    let (sent, _) = drive(
        &[
            Step::KeyDown { key: KeyCode::LShift },
            Step::MouseScroll { delta: -120 },
            Step::KeyUp { key: KeyCode::LShift },
        ],
        PlaybackMode::Once,
        None,
    );
    assert_eq!(
        sent,
        vec![
            RawEvent::KeyDown { key: KeyCode::LShift },
            RawEvent::MouseWheel { delta: -120 },
            RawEvent::KeyUp { key: KeyCode::LShift },
        ]
    );
}

#[test]
fn playback_iter_counts_iterations() {
    let mut once = playback_iter(PlaybackMode::Once);
    assert!(once.next());
    assert!(!once.next());
    assert!(!once.next());
    let mut three = playback_iter(PlaybackMode::Repeat { count: 3 });
    assert!(three.next() && three.next() && three.next());
    assert!(!three.next());
    let mut forever = playback_iter(PlaybackMode::Loop);
    for _ in 0..100 {
        assert!(forever.next());
    }
    assert!(playback_iter(PlaybackMode::Toggle).next());
}

#[test]
fn done_player_stays_done() {
    let steps = [Step::KeyUp { key: KeyCode::A }];
    let mut p = Player::new(PlaybackMode::Once);
    loop {
        let (a, _) = p.next(&steps, false);
        if a == PlayerAction::Done {
            break;
        }
    }
    assert_eq!(p.next(&steps, false).0, PlayerAction::Done);
    assert_eq!(p.next(&steps, true), (PlayerAction::Done, false));
}

#[test]
fn record_then_play_roundtrip() {
    let ms = |m: u64| 1_000_000_000 + m * 1_000_000;
    let raw = vec![
        TimedEvent { event: RawEvent::KeyDown { key: KeyCode::H }, at: ms(0) },
        TimedEvent { event: RawEvent::KeyUp { key: KeyCode::H }, at: ms(60) },
        TimedEvent { event: RawEvent::KeyDown { key: KeyCode::I }, at: ms(150) },
        TimedEvent { event: RawEvent::KeyUp { key: KeyCode::I }, at: ms(220) },
    ];
    let steps = compile_events(&raw);
    assert_eq!(steps.len(), 3, "expected H, Wait, I - got {steps:?}");
    let (sent, sleeps) = drive(&steps, PlaybackMode::Once, None);
    assert_eq!(
        sent,
        vec![
            RawEvent::KeyDown { key: KeyCode::H },
            RawEvent::KeyUp { key: KeyCode::H },
            RawEvent::KeyDown { key: KeyCode::I },
            RawEvent::KeyUp { key: KeyCode::I },
        ]
    );
    assert_eq!(sleeps, vec![60, 90, 70]);
}

#[test]
fn recorded_clicks_moves_and_wheel_replay_in_order() {
    let ms = |m: u64| 7_000_000 + m * 1_000_000;
    let raw = vec![
        TimedEvent { event: RawEvent::MouseMove { dx: 4, dy: -2 }, at: ms(0) },
        TimedEvent { event: RawEvent::MouseDown { button: MouseButton::X1 }, at: ms(30) },
        TimedEvent { event: RawEvent::MouseUp { button: MouseButton::X1 }, at: ms(45) },
        TimedEvent { event: RawEvent::MouseWheel { delta: -120 }, at: ms(46) },
        TimedEvent { event: RawEvent::KeyUp { key: KeyCode::Tab }, at: ms(100) },
    ];
    let steps = compile_events(&raw);
    let (sent, _) = drive(&steps, PlaybackMode::Once, None);
    let recorded: Vec<RawEvent> = raw.iter().map(|t| t.event).collect();
    assert_eq!(sent, recorded);
}

#[test]
fn stop_during_a_streamed_move_ends_a_loop() {
    let steps = [
        Step::MouseMove { to: Point { x: 40, y: 0 }, mode: MoveMode::Relative, duration_ms: Some(40) },
        Step::KeyPress { key: KeyCode::X, hold_ms: 0 },
    ];
    let (sent, _) = drive(&steps, PlaybackMode::Loop, Some(5));
    assert_eq!(sent, vec![RawEvent::MouseMove { dx: 1, dy: 0 }; 5]);
}
