use rust_macro::dto::{MacroDto, PlaybackModeDto, PointDto, MoveModeDto, SettingsDto, StepDto, TriggerDto};
use rust_macro::editing::{
    cli_playback, create_macro, macro_file_name, macro_not_found, recorded_macro, MACROS_DIR_NAME,
    PENDING_MARKER_FILE_NAME, SETTINGS_FILE_NAME,
    update_macro_full, update_macro_metadata,
};
use rust_macro::error::AppError;
use rust_macro::event::RawEvent;
use rust_macro::input::{KeyCode, Modifier, MouseButton, MoveMode, Point};
use rust_macro::macro_def::{Macro, PlaybackMode, Step, Trigger};
use rust_macro::settings::{default_stop_key, Settings};
use rust_macro::text::decimal_string;

fn hotkey(key: KeyCode, modifiers: Vec<Modifier>) -> Trigger {
    Trigger::Hotkey { key, modifiers }
}

#[test]
fn raw_event_constructible() {
    let _e = RawEvent::KeyDown { key: KeyCode::A };
}

#[test]
fn default_has_f10_stop_key() {
    let s = Settings::default();
    assert_eq!(s.stop_key, KeyCode::F10);
    assert!(s.storage_root_override.is_none());
    assert_eq!(default_stop_key(), KeyCode::F10);
}

#[test]
fn driver_not_installed_kind_is_stable() {
    assert_eq!(AppError::DriverNotInstalled.kind(), "DriverNotInstalled");
}

#[test]
fn macro_not_found_renders_name() {
    let e = AppError::MacroNotFound("foo".into());
    assert_eq!(e.message(), "Macro not found: foo");
    assert_eq!(e.kind(), "MacroNotFound");
}

#[test]
fn every_error_has_its_kind_and_message() {
    let cases: Vec<(AppError, &str, &str)> = vec![
        (AppError::DriverNotInstalled, "DriverNotInstalled", "Interception driver is not installed"),
        (
            AppError::DriverNotRunning,
            "DriverNotRunning",
            "Interception driver is installed but not running",
        ),
        (AppError::DriverIo("device closed".into()), "DriverIo", "Driver I/O failed: device closed"),
        (AppError::RecordingActive, "RecordingActive", "A recording is already in progress"),
        (AppError::PlaybackActive, "PlaybackActive", "A playback is already in progress"),
        (
            AppError::Io { path: "/tmp/x".into(), message: "denied".into() },
            "Io",
            "I/O error at /tmp/x: denied",
        ),
        (AppError::Serde("bad".into()), "Serde", "Serialization error: bad"),
        (AppError::Other("plain".into()), "Other", "plain"),
    ];
    for (e, kind, message) in cases {
        assert_eq!(e.kind(), kind);
        assert_eq!(e.message(), message);
        let w = e.to_wire();
        assert_eq!(w.kind, kind);
        assert_eq!(w.message, message);
    }
}

#[test]
fn step_wait_validates_min_le_max() {
    assert!(Step::Wait { min_ms: 100, max_ms: 100 }.validate().is_ok());
    assert!(Step::Wait { min_ms: 100, max_ms: 200 }.validate().is_ok());
    assert!(Step::Wait { min_ms: 200, max_ms: 100 }.validate().is_err());
}

#[test]
fn invalid_wait_message_names_both_bounds() {
    assert_eq!(
        Step::Wait { min_ms: 200, max_ms: 100 }.validate(),
        Err("Wait: min_ms (200) > max_ms (100)".to_string())
    );
    assert!(Step::KeyUp { key: KeyCode::A }.validate().is_ok());
}

#[test]
fn macro_new_sets_timestamps_and_id() {
    let m = Macro::new("test".to_string(), hotkey(KeyCode::F1, vec![]), PlaybackMode::Once);
    assert_eq!(m.name, "test");
    assert_eq!(m.created_at, m.updated_at);
    assert_eq!(m.steps.len(), 0);
    assert_ne!(m.id, 0);
}

#[test]
fn new_ids_are_version_four_and_fresh() {
    let a = Macro::new("a".to_string(), hotkey(KeyCode::F1, vec![]), PlaybackMode::Once);
    let b = Macro::new("b".to_string(), hotkey(KeyCode::F1, vec![]), PlaybackMode::Once);
    assert_eq!((a.id >> 76) & 0xf, 4);
    assert_eq!((a.id >> 62) & 0x3, 2);
    assert_ne!(a.id, b.id);
}

#[test]
fn macro_validate_rejects_empty_name() {
    let m = Macro::new("   ".to_string(), hotkey(KeyCode::F1, vec![]), PlaybackMode::Once);
    assert!(m.validate().is_err());
}

#[test]
fn macro_validate_reports_first_bad_step_with_index() {
    let mut m = Macro::new("ok".to_string(), hotkey(KeyCode::F1, vec![]), PlaybackMode::Once);
    m.steps = vec![
        Step::Wait { min_ms: 1, max_ms: 2 },
        Step::Wait { min_ms: 9, max_ms: 3 },
        Step::Wait { min_ms: 8, max_ms: 7 },
    ];
    assert_eq!(m.validate(), Err("step #1: Wait: min_ms (9) > max_ms (3)".to_string()));
    m.name = "\t\n ".to_string();
    assert_eq!(m.validate(), Err("Macro name cannot be empty".to_string()));
}

#[test]
fn unsafe_mouse_triggers_are_refused() {
    let bare_left = Trigger::MouseButton { button: MouseButton::Left, modifiers: vec![] };
    let ctrl_left = Trigger::MouseButton { button: MouseButton::Left, modifiers: vec![Modifier::Ctrl] };
    let bare_x1 = Trigger::MouseButton { button: MouseButton::X1, modifiers: vec![] };
    assert!(!bare_left.is_safe());
    assert!(ctrl_left.is_safe());
    assert!(bare_x1.is_safe());
    assert!(hotkey(KeyCode::A, vec![]).is_safe());
}

#[test]
fn decimal_string_writes_digits() {
    assert_eq!(decimal_string(0), "0");
    assert_eq!(decimal_string(7), "7");
    assert_eq!(decimal_string(1234567890), "1234567890");
    assert_eq!(decimal_string(u64::MAX), "18446744073709551615");
}

#[test]
fn macro_dto_from_macro_omits_steps_but_keeps_count() {
    let mut m = Macro::new(
        "demo".to_string(),
        hotkey(KeyCode::F1, vec![Modifier::Ctrl]),
        PlaybackMode::Once,
    );
    m.steps = vec![Step::Wait { min_ms: 100, max_ms: 100 }, Step::Wait { min_ms: 50, max_ms: 50 }];
    let dto = MacroDto::from_macro(&m);
    assert_eq!(dto.id, m.id);
    assert_eq!(dto.name, "demo");
    assert_eq!(dto.step_count, 2);
    assert_eq!(dto.trigger, TriggerDto::Hotkey { key: KeyCode::F1, modifiers: vec![Modifier::Ctrl] });
    assert_eq!(dto.playback, PlaybackModeDto::Once);
    assert_eq!(dto.created_at, m.created_at);
}

#[test]
fn trigger_roundtrip_dto_to_domain() {
    let dto = TriggerDto::Hotkey { key: KeyCode::Enter, modifiers: vec![Modifier::Alt] };
    let domain: Trigger = dto.clone().into();
    let back = TriggerDto::from_trigger(&domain);
    assert_eq!(back, dto);
}

#[test]
fn playback_mode_roundtrip_dto_to_domain() {
    for dto in [
        PlaybackModeDto::Once,
        PlaybackModeDto::Repeat { value: 5 },
        PlaybackModeDto::Loop,
        PlaybackModeDto::Toggle,
    ] {
        let domain: PlaybackMode = dto.into();
        let back: PlaybackModeDto = (&domain).into();
        assert_eq!(back, dto);
    }
    let repeat: PlaybackMode = PlaybackModeDto::Repeat { value: 7 }.into();
    assert_eq!(repeat, PlaybackMode::Repeat { count: 7 });
}

#[test]
fn step_roundtrip_dto_to_domain_all_variants() {
    let cases: Vec<Step> = vec![
        Step::KeyPress { key: KeyCode::W, hold_ms: 80 },
        Step::KeyDown { key: KeyCode::LShift },
        Step::KeyUp { key: KeyCode::LShift },
        Step::MouseClick { button: MouseButton::Left, hold_ms: 50, at: None },
        Step::MouseClick { button: MouseButton::Right, hold_ms: 80, at: Some(Point { x: 100, y: 200 }) },
        Step::MouseMove { to: Point { x: 5, y: -3 }, mode: MoveMode::Relative, duration_ms: None },
        Step::MouseScroll { delta: 120 },
        Step::Wait { min_ms: 100, max_ms: 100 },
    ];
    for domain in cases {
        let dto = StepDto::from(&domain);
        let back: Step = dto.into();
        assert_eq!(back, domain);
    }
}

#[test]
fn step_dto_drops_move_duration() {
    let s = Step::MouseMove { to: Point { x: 1, y: 2 }, mode: MoveMode::Absolute, duration_ms: Some(40) };
    let dto = StepDto::from(&s);
    assert_eq!(dto, StepDto::MouseMove { to: PointDto { x: 1, y: 2 }, mode: MoveModeDto::Absolute });
    let back: Step = dto.into();
    assert_eq!(back, Step::MouseMove { to: Point { x: 1, y: 2 }, mode: MoveMode::Absolute, duration_ms: None });
}

#[test]
fn settings_dto_roundtrip() {
    let s = Settings { stop_key: KeyCode::F9, storage_root_override: Some("/data".to_string()) };
    let d = SettingsDto::from(&s);
    assert_eq!(d.stop_key, KeyCode::F9);
    assert_eq!(d.storage_root_override, Some("/data".to_string()));
    let back: Settings = d.into();
    assert_eq!(back, s);
}

#[test]
fn create_macro_validates_and_keeps_fields() {
    let steps = vec![Step::KeyPress { key: KeyCode::H, hold_ms: 80 }];
    let m = create_macro(
        "greet".to_string(),
        hotkey(KeyCode::F2, vec![Modifier::Ctrl]),
        PlaybackMode::Repeat { count: 3 },
        steps.clone(),
    )
    .unwrap();
    assert_eq!(m.name, "greet");
    assert_eq!(m.steps, steps);
    assert_eq!(m.playback, PlaybackMode::Repeat { count: 3 });
    assert_eq!(m.created_at, m.updated_at);

    let err = create_macro(
        "x".to_string(),
        hotkey(KeyCode::F2, vec![]),
        PlaybackMode::Once,
        vec![Step::Wait { min_ms: 5, max_ms: 1 }],
    )
    .unwrap_err();
    assert_eq!(err, AppError::Other("step #0: Wait: min_ms (5) > max_ms (1)".to_string()));
    let err = create_macro(" ".to_string(), hotkey(KeyCode::F2, vec![]), PlaybackMode::Once, vec![])
        .unwrap_err();
    assert_eq!(err, AppError::Other("Macro name cannot be empty".to_string()));
}

#[test]
fn update_metadata_keeps_id_and_steps() {
    let mut m = Macro::new("old".to_string(), hotkey(KeyCode::F1, vec![]), PlaybackMode::Once);
    m.steps = vec![Step::KeyUp { key: KeyCode::A }];
    let id = m.id;
    let created = m.created_at;
    let u = update_macro_metadata(m, "new".to_string(), hotkey(KeyCode::F3, vec![]), PlaybackMode::Loop);
    assert_eq!(u.id, id);
    assert_eq!(u.created_at, created);
    assert_eq!(u.name, "new");
    assert_eq!(u.trigger, hotkey(KeyCode::F3, vec![]));
    assert_eq!(u.playback, PlaybackMode::Loop);
    assert_eq!(u.steps, vec![Step::KeyUp { key: KeyCode::A }]);
    assert!(u.updated_at >= created);
}

#[test]
fn update_full_replaces_steps_and_validates() {
    let m = Macro::new("old".to_string(), hotkey(KeyCode::F1, vec![]), PlaybackMode::Once);
    let id = m.id;
    let u = update_macro_full(
        m.clone(),
        "new".to_string(),
        hotkey(KeyCode::F4, vec![Modifier::Shift]),
        PlaybackMode::Toggle,
        vec![Step::MouseScroll { delta: -3 }],
    )
    .unwrap();
    assert_eq!(u.id, id);
    assert_eq!(u.steps, vec![Step::MouseScroll { delta: -3 }]);
    assert_eq!(u.playback, PlaybackMode::Toggle);
    let err = update_macro_full(m, "".to_string(), hotkey(KeyCode::F4, vec![]), PlaybackMode::Once, vec![])
        .unwrap_err();
    assert_eq!(err.kind(), "Other");
}

#[test]
fn recorded_macro_needs_steps_and_gets_ctrl_f1() {
    let err = recorded_macro("r".to_string(), vec![]).unwrap_err();
    assert_eq!(err, AppError::Other("no events recorded".to_string()));
    let m = recorded_macro("r".to_string(), vec![Step::KeyDown { key: KeyCode::Q }]).unwrap();
    assert_eq!(m.trigger, hotkey(KeyCode::F1, vec![Modifier::Ctrl]));
    assert_eq!(m.playback, PlaybackMode::Once);
    assert_eq!(m.created_at, m.updated_at);
    assert_eq!((m.id >> 76) & 0xf, 4);
    assert_eq!((m.id >> 62) & 0x3, 2);
    assert_eq!(m.steps, vec![Step::KeyDown { key: KeyCode::Q }]);
}

#[test]
fn cli_plays_loop_and_toggle_once() {
    assert_eq!(cli_playback(PlaybackMode::Loop), PlaybackMode::Once);
    assert_eq!(cli_playback(PlaybackMode::Toggle), PlaybackMode::Once);
    assert_eq!(cli_playback(PlaybackMode::Once), PlaybackMode::Once);
    assert_eq!(cli_playback(PlaybackMode::Repeat { count: 4 }), PlaybackMode::Repeat { count: 4 });
}

#[test]
fn ids_render_hyphenated_lowercase() {
    let id: u128 = 0x67e5504410b1426f9247bb680e5fe0c8;
    assert_eq!(
        macro_not_found(id).message(),
        "Macro not found: 67e55044-10b1-426f-9247-bb680e5fe0c8"
    );
    assert_eq!(macro_file_name(id), "67e55044-10b1-426f-9247-bb680e5fe0c8.json");
    assert_eq!(macro_file_name(0), "00000000-0000-0000-0000-000000000000.json");
}

#[test]
fn storage_file_names() {
    assert_eq!(MACROS_DIR_NAME, "macros");
    assert_eq!(SETTINGS_FILE_NAME, "settings.json");
    assert_eq!(PENDING_MARKER_FILE_NAME, ".driver-install-pending");
}
