use rust_macro::compile::TimedEvent;
use rust_macro::dto::StepDto;
use rust_macro::error::AppError;
use rust_macro::event::RawEvent;
use rust_macro::hotkey::{
    hotkey_matches, key_as_modifier, normalize_modifiers, normalize_trigger, HotkeyRegistry,
    HotkeyTracker, ModifierSet,
};
use rust_macro::input::{KeyCode, Modifier, MouseButton};
use rust_macro::macro_def::{Macro, PlaybackMode, Step, Trigger};
use rust_macro::recorder::{RecorderAction, RecorderSession};
use rust_macro::session::{
    check_play, find_macro_by_id, find_macro_by_name, passthrough_decision, playback_outcome,
    recording_outcome, sort_macros_by_name, steps_from_dtos, steps_to_dtos, str_lt,
    PassthroughAction, PlaybackOutcome, RecordingOutcome, SessionSlots,
};

fn named(name: &str) -> Macro {
    Macro::new(
        name.to_string(),
        Trigger::Hotkey { key: KeyCode::F1, modifiers: vec![Modifier::Ctrl] },
        PlaybackMode::Once,
    )
}

#[test]
fn bind_and_unbind_round_trip() {
    let mut r = HotkeyRegistry::new();
    let id: u128 = 0x1234;
    r.bind(id, Trigger::Hotkey { key: KeyCode::F1, modifiers: vec![] });
    let mut s = ModifierSet::new();
    assert_eq!(r.match_pressed(KeyCode::F1, &s), vec![id]);
    r.unbind(id);
    assert!(r.match_pressed(KeyCode::F1, &s).is_empty());

    r.bind(id, Trigger::Hotkey { key: KeyCode::F1, modifiers: vec![Modifier::Ctrl] });
    assert!(r.match_pressed(KeyCode::F1, &s).is_empty());
    s.insert(Modifier::Ctrl);
    assert_eq!(r.match_pressed(KeyCode::F1, &s), vec![id]);
}

#[test]
fn listener_dispatches_on_match() {
    let mut reg = HotkeyRegistry::new();
    let id: u128 = 77;
    reg.bind(id, Trigger::Hotkey { key: KeyCode::F2, modifiers: vec![Modifier::Ctrl] });
    let mut t = HotkeyTracker::new();
    assert!(t.on_event(RawEvent::KeyDown { key: KeyCode::LCtrl }, &reg).is_empty());
    assert_eq!(t.on_event(RawEvent::KeyDown { key: KeyCode::F2 }, &reg), vec![id]);
}

#[test]
fn modifier_release_drops_match() {
    let mut reg = HotkeyRegistry::new();
    let id: u128 = 78;
    reg.bind(id, Trigger::Hotkey { key: KeyCode::F3, modifiers: vec![Modifier::Ctrl] });
    let mut t = HotkeyTracker::new();
    t.on_event(RawEvent::KeyDown { key: KeyCode::LCtrl }, &reg);
    t.on_event(RawEvent::KeyUp { key: KeyCode::LCtrl }, &reg);
    assert!(t.on_event(RawEvent::KeyDown { key: KeyCode::F3 }, &reg).is_empty());
}

#[test]
fn modifiers_must_match_exactly() {
    let t = Trigger::Hotkey { key: KeyCode::A, modifiers: vec![Modifier::Ctrl, Modifier::Shift] };
    let both = ModifierSet::from_slice(&[Modifier::Shift, Modifier::Ctrl]);
    let one = ModifierSet::from_slice(&[Modifier::Ctrl]);
    let three = ModifierSet::from_slice(&[Modifier::Ctrl, Modifier::Shift, Modifier::Alt]);
    assert!(hotkey_matches(&t, KeyCode::A, &both));
    assert!(!hotkey_matches(&t, KeyCode::A, &one));
    assert!(!hotkey_matches(&t, KeyCode::A, &three));
    assert!(!hotkey_matches(&t, KeyCode::B, &both));
    let mouse = Trigger::MouseButton { button: MouseButton::X1, modifiers: vec![] };
    assert!(!hotkey_matches(&mouse, KeyCode::A, &ModifierSet::new()));
}

#[test]
fn modifier_keys_map_to_modifiers() {
    assert_eq!(key_as_modifier(KeyCode::LCtrl), Some(Modifier::Ctrl));
    assert_eq!(key_as_modifier(KeyCode::RCtrl), Some(Modifier::Ctrl));
    assert_eq!(key_as_modifier(KeyCode::RShift), Some(Modifier::Shift));
    assert_eq!(key_as_modifier(KeyCode::LAlt), Some(Modifier::Alt));
    assert_eq!(key_as_modifier(KeyCode::RWin), Some(Modifier::Win));
    assert_eq!(key_as_modifier(KeyCode::A), None);
}

#[test]
fn modifier_lists_normalize_sorted_without_duplicates() {
    let v = vec![Modifier::Win, Modifier::Ctrl, Modifier::Win, Modifier::Alt];
    assert_eq!(normalize_modifiers(&v), vec![Modifier::Ctrl, Modifier::Alt, Modifier::Win]);
    let t = normalize_trigger(&Trigger::Hotkey { key: KeyCode::B, modifiers: v });
    assert_eq!(t, Trigger::Hotkey { key: KeyCode::B, modifiers: vec![Modifier::Ctrl, Modifier::Alt, Modifier::Win] });
    let mut s = ModifierSet::new();
    s.insert(Modifier::Shift);
    s.insert(Modifier::Ctrl);
    assert!(s.contains(Modifier::Ctrl));
    s.remove(Modifier::Ctrl);
    assert!(!s.contains(Modifier::Ctrl));
    assert_eq!(s.to_sorted_vec(), vec![Modifier::Shift]);
}

#[test]
fn stop_key_filters_event_and_ends_recording() {
    let mut r = RecorderSession::new(false, Some(KeyCode::F10));
    assert_eq!(r.on_event(RawEvent::KeyDown { key: KeyCode::A }, 0), RecorderAction::Record { forward: false });
    assert_eq!(r.on_event(RawEvent::KeyUp { key: KeyCode::A }, 50_000_000), RecorderAction::Record { forward: false });
    assert_eq!(r.on_event(RawEvent::KeyDown { key: KeyCode::F10 }, 90_000_000), RecorderAction::Stop);
    assert_eq!(r.buffer.len(), 2);
    assert_eq!(r.finish(), vec![Step::KeyPress { key: KeyCode::A, hold_ms: 50 }]);
}

#[test]
fn passthrough_re_emits_events() {
    let mut r = RecorderSession::new(true, None);
    assert_eq!(r.on_event(RawEvent::MouseWheel { delta: 1 }, 0), RecorderAction::Record { forward: true });
    assert_eq!(r.on_event(RawEvent::KeyDown { key: KeyCode::F10 }, 1), RecorderAction::Record { forward: true });
    assert_eq!(
        r.buffer,
        vec![
            TimedEvent { event: RawEvent::MouseWheel { delta: 1 }, at: 0 },
            TimedEvent { event: RawEvent::KeyDown { key: KeyCode::F10 }, at: 1 },
        ]
    );
}

#[test]
fn active_slot_rejects_concurrent_play() {
    let mut s = SessionSlots::new();
    assert_eq!(s.reserve_playback(1), Ok(()));
    assert_eq!(s.reserve_playback(2), Err(AppError::PlaybackActive));
    assert_eq!(s.playback, Some(1));
    assert!(s.is_busy());
    s.release_playback(2);
    assert_eq!(s.playback, Some(1));
    s.release_playback(1);
    assert_eq!(s.playback, None);
    assert!(!s.is_busy());
}

#[test]
fn play_rejects_when_recording_active() {
    let mut s = SessionSlots::new();
    assert_eq!(s.reserve_recording(), Ok(()));
    assert_eq!(s.check_can_play(), Err(AppError::RecordingActive));
    assert_eq!(s.reserve_playback(5), Err(AppError::RecordingActive));
    assert_eq!(s.reserve_recording(), Err(AppError::RecordingActive));
    s.release_recording();
    assert_eq!(s.check_can_play(), Ok(()));
    assert_eq!(s.reserve_playback(5), Ok(()));
    assert_eq!(s.check_can_record(), Err(AppError::PlaybackActive));
    assert_eq!(s.reserve_recording(), Err(AppError::PlaybackActive));
}

#[test]
fn listener_drops_suppressed_key_and_stops_playback() {
    let down = RawEvent::KeyDown { key: KeyCode::F10 };
    let up = RawEvent::KeyUp { key: KeyCode::F10 };
    assert_eq!(passthrough_decision(down, Some(KeyCode::F10), KeyCode::F10, false), PassthroughAction::Drop);
    assert_eq!(passthrough_decision(up, Some(KeyCode::F10), KeyCode::F10, true), PassthroughAction::Drop);
    assert_eq!(passthrough_decision(down, None, KeyCode::F10, true), PassthroughAction::StopPlayback);
    assert_eq!(passthrough_decision(down, None, KeyCode::F10, false), PassthroughAction::Forward);
    assert_eq!(passthrough_decision(up, None, KeyCode::F10, true), PassthroughAction::Forward);
}

#[test]
fn outcomes_report_failure_stop_or_completion() {
    assert_eq!(playback_outcome(&Ok(()), false), PlaybackOutcome::Completed);
    assert_eq!(playback_outcome(&Ok(()), true), PlaybackOutcome::Stopped);
    match playback_outcome(&Err(AppError::DriverIo("gone".into())), true) {
        PlaybackOutcome::Failed { error } => {
            assert_eq!(error.kind, "DriverIo");
            assert_eq!(error.message, "Driver I/O failed: gone");
        }
        other => panic!("unexpected {other:?}"),
    }
    let steps = vec![Step::KeyUp { key: KeyCode::A }];
    assert_eq!(
        recording_outcome(&Ok(steps)),
        RecordingOutcome::Completed { steps: vec![StepDto::KeyUp { key: KeyCode::A }] }
    );
    match recording_outcome(&Err(AppError::DriverNotRunning)) {
        RecordingOutcome::Failed { error } => assert_eq!(error.kind, "DriverNotRunning"),
        other => panic!("unexpected {other:?}"),
    }
}

#[test]
fn steps_convert_to_and_from_wire() {
    let steps = vec![Step::Wait { min_ms: 3, max_ms: 4 }, Step::MouseScroll { delta: 2 }];
    let dtos = steps_to_dtos(&steps);
    assert_eq!(dtos, vec![StepDto::Wait { min_ms: 3, max_ms: 4 }, StepDto::MouseScroll { delta: 2 }]);
    assert_eq!(steps_from_dtos(&dtos), steps);
}

#[test]
fn macros_are_found_by_id_and_name() {
    let v = vec![named("a"), named("b"), named("b")];
    assert_eq!(find_macro_by_id(&v, v[1].id), Some(1));
    assert_eq!(find_macro_by_id(&v, 0), None);
    assert_eq!(find_macro_by_name(&v, "b"), Some(1));
    assert_eq!(find_macro_by_name(&v, "c"), None);
}

#[test]
fn macros_sort_by_name_stably() {
    let v = vec![named("zeta"), named("alpha"), named("Beta"), named("alpha"), named("")];
    let first_alpha = v[1].id;
    let second_alpha = v[3].id;
    let sorted = sort_macros_by_name(v);
    let names: Vec<&str> = sorted.iter().map(|m| m.name.as_str()).collect();
    assert_eq!(names, vec!["", "Beta", "alpha", "alpha", "zeta"]);
    assert_eq!(sorted[2].id, first_alpha);
    assert_eq!(sorted[3].id, second_alpha);
    assert!(str_lt("ab", "b"));
    assert!(str_lt("a", "ab"));
    assert!(!str_lt("b", "b"));
    assert!(str_lt("Z", "a"));
}

#[test]
fn boot_bindings_skip_bare_clicks_and_later_macros_win() {
    let mut a = named("a");
    a.trigger = Trigger::MouseButton { button: MouseButton::Left, modifiers: vec![] };
    let b = named("b");
    let mut b2 = b.clone();
    b2.trigger = Trigger::Hotkey { key: KeyCode::F5, modifiers: vec![Modifier::Shift, Modifier::Shift] };
    let macros = vec![a.clone(), b.clone(), b2.clone()];

    let mut safe = HotkeyRegistry::new();
    safe.bind_macros(&macros, true);
    let ctrl = ModifierSet::from_slice(&[Modifier::Ctrl]);
    let shift = ModifierSet::from_slice(&[Modifier::Shift]);
    assert!(safe.match_pressed(KeyCode::F1, &ctrl).is_empty());
    assert_eq!(safe.match_pressed(KeyCode::F5, &shift), vec![b.id]);

    let mut all = HotkeyRegistry::new();
    all.bind(7, Trigger::Hotkey { key: KeyCode::Q, modifiers: vec![] });
    all.bind_macros(&macros, false);
    assert_eq!(all.match_pressed(KeyCode::Q, &ModifierSet::new()), vec![7]);
    assert_eq!(all.match_pressed(KeyCode::F5, &shift), vec![b.id]);
}

#[test]
fn play_refusals_come_in_order() {
    let v = vec![named("a"), named("b")];
    let id = v[1].id;
    let mut s = SessionSlots::new();
    assert_eq!(check_play(&s, &v, id, true), Ok(1));
    assert_eq!(check_play(&s, &v, id, false), Err(AppError::DriverNotInstalled));
    match check_play(&s, &v, 0, false) {
        Err(AppError::MacroNotFound(text)) => assert_eq!(text, "00000000-0000-0000-0000-000000000000"),
        other => panic!("unexpected {other:?}"),
    }
    s.reserve_playback(9).unwrap();
    assert_eq!(check_play(&s, &v, id, true), Err(AppError::PlaybackActive));
    assert_eq!(check_play(&s, &v, id, false), Err(AppError::DriverNotInstalled));
    let mut r = SessionSlots::new();
    r.reserve_recording().unwrap();
    assert_eq!(check_play(&r, &v, 0, false), Err(AppError::RecordingActive));
}
