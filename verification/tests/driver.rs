use rust_macro::event::RawEvent;
use rust_macro::input::{KeyCode, MouseButton};
use rust_macro::install::{
    installer_argument, installer_exit_result, open_failure, reboot_check, status_report, RebootCheck,
};
use rust_macro::error::AppError;
use rust_macro::mouse::{convert_mouse, StrokeEvents};
use rust_macro::scancode::{keycode_to_scancode, scancode_to_keycode};
use rust_macro::status::{
    detect_status_with, service_names, service_state, status_from_probe, DriverStatus, ServiceProbe,
    ServiceQuery, ServiceState,
};
use rust_macro::stroke::{convert_stroke, event_to_stroke, mouse_button_to_state, Stroke};
use rust_macro::wide::{len_before_nul, wide};

fn events(s: &StrokeEvents) -> Vec<RawEvent> {
    s.iter()
}

#[test]
fn left_button_down_then_up() {
    let s = convert_mouse(0x0001 | 0x0002, 0, 0, 0, 0);
    assert_eq!(
        events(&s),
        vec![
            RawEvent::MouseDown { button: MouseButton::Left },
            RawEvent::MouseUp { button: MouseButton::Left },
        ]
    );
}

#[test]
fn each_button_bit_maps_correctly() {
    let cases = [
        (0x0001, RawEvent::MouseDown { button: MouseButton::Left }),
        (0x0002, RawEvent::MouseUp { button: MouseButton::Left }),
        (0x0004, RawEvent::MouseDown { button: MouseButton::Right }),
        (0x0008, RawEvent::MouseUp { button: MouseButton::Right }),
        (0x0010, RawEvent::MouseDown { button: MouseButton::Middle }),
        (0x0020, RawEvent::MouseUp { button: MouseButton::Middle }),
        (0x0040, RawEvent::MouseDown { button: MouseButton::X1 }),
        (0x0080, RawEvent::MouseUp { button: MouseButton::X1 }),
        (0x0100, RawEvent::MouseDown { button: MouseButton::X2 }),
        (0x0200, RawEvent::MouseUp { button: MouseButton::X2 }),
    ];
    for (state, expected) in cases {
        let s = convert_mouse(state, 0, 0, 0, 0);
        assert_eq!(events(&s), vec![expected], "state={:#06x}", state);
    }
}

#[test]
fn wheel_emits_event_with_rolling_value() {
    let s = convert_mouse(0x0400, 0, 120, 0, 0);
    assert_eq!(events(&s), vec![RawEvent::MouseWheel { delta: 120 }]);
}

#[test]
fn wheel_bit_without_rolling_emits_nothing() {
    let s = convert_mouse(0x0400, 0, 0, 0, 0);
    assert!(events(&s).is_empty());
}

#[test]
fn zero_movement_emits_no_move_event() {
    let s = convert_mouse(0, 0, 0, 0, 0);
    assert!(events(&s).is_empty());
    assert!(StrokeEvents::empty().iter().is_empty());
}

#[test]
fn nonzero_movement_emits_relative_move() {
    let s = convert_mouse(0, 0x01, 0, 5, -3);
    assert_eq!(events(&s), vec![RawEvent::MouseMove { dx: 5, dy: -3 }]);
}

#[test]
fn combined_button_wheel_and_move_emit_in_order() {
    let s = convert_mouse(0x0001 | 0x0400, 0x01, -120, 10, 20);
    assert_eq!(
        events(&s),
        vec![
            RawEvent::MouseDown { button: MouseButton::Left },
            RawEvent::MouseWheel { delta: -120 },
            RawEvent::MouseMove { dx: 10, dy: 20 },
        ]
    );
}

#[test]
fn a_stroke_keeps_every_event_it_carries() {
    let s = convert_mouse(0x03ff | 0x0400, 0, 1, 1, 1);
    assert_eq!(
        events(&s),
        vec![
            RawEvent::MouseDown { button: MouseButton::Left },
            RawEvent::MouseUp { button: MouseButton::Left },
            RawEvent::MouseDown { button: MouseButton::Right },
            RawEvent::MouseUp { button: MouseButton::Right },
            RawEvent::MouseDown { button: MouseButton::Middle },
            RawEvent::MouseUp { button: MouseButton::Middle },
            RawEvent::MouseDown { button: MouseButton::X1 },
            RawEvent::MouseUp { button: MouseButton::X1 },
            RawEvent::MouseDown { button: MouseButton::X2 },
            RawEvent::MouseUp { button: MouseButton::X2 },
            RawEvent::MouseWheel { delta: 1 },
            RawEvent::MouseMove { dx: 1, dy: 1 },
        ]
    );
}

fn all_keycodes() -> Vec<KeyCode> {
    vec![
        KeyCode::A, KeyCode::B, KeyCode::C, KeyCode::D, KeyCode::E, KeyCode::F, KeyCode::G,
        KeyCode::H, KeyCode::I, KeyCode::J, KeyCode::K, KeyCode::L, KeyCode::M, KeyCode::N,
        KeyCode::O, KeyCode::P, KeyCode::Q, KeyCode::R, KeyCode::S, KeyCode::T, KeyCode::U,
        KeyCode::V, KeyCode::W, KeyCode::X, KeyCode::Y, KeyCode::Z, KeyCode::Num0,
        KeyCode::Num1, KeyCode::Num2, KeyCode::Num3, KeyCode::Num4, KeyCode::Num5,
        KeyCode::Num6, KeyCode::Num7, KeyCode::Num8, KeyCode::Num9, KeyCode::F1, KeyCode::F2,
        KeyCode::F3, KeyCode::F4, KeyCode::F5, KeyCode::F6, KeyCode::F7, KeyCode::F8,
        KeyCode::F9, KeyCode::F10, KeyCode::F11, KeyCode::F12, KeyCode::LShift,
        KeyCode::RShift, KeyCode::LCtrl, KeyCode::RCtrl, KeyCode::LAlt, KeyCode::RAlt,
        KeyCode::LWin, KeyCode::RWin, KeyCode::Space, KeyCode::Enter, KeyCode::Tab,
        KeyCode::Backspace, KeyCode::Escape, KeyCode::CapsLock, KeyCode::Up, KeyCode::Down,
        KeyCode::Left, KeyCode::Right, KeyCode::Insert, KeyCode::Delete, KeyCode::Home,
        KeyCode::End, KeyCode::PageUp, KeyCode::PageDown, KeyCode::Minus, KeyCode::Equals,
        KeyCode::LBracket, KeyCode::RBracket, KeyCode::Backslash, KeyCode::Semicolon,
        KeyCode::Apostrophe, KeyCode::Backtick, KeyCode::Comma, KeyCode::Period,
        KeyCode::Slash,
    ]
}

#[test]
fn roundtrip_every_keycode() {
    for k in all_keycodes() {
        let (code, e0) = keycode_to_scancode(k);
        let back = scancode_to_keycode(code, e0);
        assert_eq!(back, Some(k), "roundtrip failed for {:?}", k);
    }
}

#[test]
fn lctrl_and_rctrl_disambiguate_by_e0() {
    assert_eq!(scancode_to_keycode(0x1D, false), Some(KeyCode::LCtrl));
    assert_eq!(scancode_to_keycode(0x1D, true), Some(KeyCode::RCtrl));
    assert_eq!(keycode_to_scancode(KeyCode::LCtrl), (0x1D, false));
    assert_eq!(keycode_to_scancode(KeyCode::RCtrl), (0x1D, true));
}

#[test]
fn arrows_are_e0_extended() {
    for k in [KeyCode::Up, KeyCode::Down, KeyCode::Left, KeyCode::Right] {
        let (_, e0) = keycode_to_scancode(k);
        assert!(e0, "{:?} must be e0-prefixed", k);
    }
}

#[test]
fn unknown_scancode_returns_none() {
    assert_eq!(scancode_to_keycode(0x00, false), None);
    assert_eq!(scancode_to_keycode(0xFFFF, false), None);
}

#[test]
fn keyboard_strokes_decode_with_state_bits() {
    let a = Stroke::Keyboard { device: 1, code: 0x1E, state: 0 };
    assert_eq!(convert_stroke(a).iter(), vec![RawEvent::KeyDown { key: KeyCode::A }]);
    let up = Stroke::Keyboard { device: 1, code: 0x48, state: 0x01 | 0x02 };
    assert_eq!(convert_stroke(up).iter(), vec![RawEvent::KeyUp { key: KeyCode::Up }]);
    let termsrv = Stroke::Keyboard { device: 1, code: 0x1E, state: 0x08 };
    assert!(convert_stroke(termsrv).iter().is_empty());
    let unknown = Stroke::Keyboard { device: 1, code: 0x7F, state: 0 };
    assert!(convert_stroke(unknown).iter().is_empty());
}

#[test]
fn events_survive_a_trip_through_strokes() {
    let cases = vec![
        RawEvent::KeyDown { key: KeyCode::RCtrl },
        RawEvent::KeyUp { key: KeyCode::Slash },
        RawEvent::MouseDown { button: MouseButton::X2 },
        RawEvent::MouseUp { button: MouseButton::Middle },
        RawEvent::MouseMove { dx: -7, dy: 0 },
        RawEvent::MouseWheel { delta: -240 },
    ];
    for e in cases {
        assert_eq!(convert_stroke(event_to_stroke(e)).iter(), vec![e]);
    }
    assert_eq!(
        event_to_stroke(RawEvent::KeyUp { key: KeyCode::Left }),
        Stroke::Keyboard { device: 1, code: 0x4B, state: 0x03 }
    );
    assert_eq!(mouse_button_to_state(MouseButton::X1, false), 0x0080);
}

struct FakeServices(ServiceState);

impl ServiceQuery for FakeServices {
    fn query_all(&self, _names: &[&str]) -> ServiceState {
        self.0
    }
}

#[test]
fn open_succeeds_returns_running_regardless_of_services() {
    let s = detect_status_with(|| true, &FakeServices(ServiceState::AnyMissing));
    assert_eq!(s, DriverStatus::Running);
}

#[test]
fn open_fails_services_missing_returns_not_installed() {
    let s = detect_status_with(|| false, &FakeServices(ServiceState::AnyMissing));
    assert_eq!(s, DriverStatus::NotInstalled);
}

#[test]
fn open_fails_services_present_but_stopped_returns_installed_not_running() {
    let s = detect_status_with(|| false, &FakeServices(ServiceState::AllPresentSomeStopped));
    assert_eq!(s, DriverStatus::InstalledNotRunning);
}

#[test]
fn open_fails_but_services_all_running_returns_running() {
    let s = detect_status_with(|| false, &FakeServices(ServiceState::AllRunning));
    assert_eq!(s, DriverStatus::Running);
}

struct NamesSeen;

impl ServiceQuery for NamesSeen {
    fn query_all(&self, names: &[&str]) -> ServiceState {
        assert_eq!(names, &["keyboard", "mouse"]);
        ServiceState::AllPresentSomeStopped
    }
}

#[test]
fn services_are_queried_by_their_names() {
    assert_eq!(service_names(), ["keyboard", "mouse"]);
    assert_eq!(detect_status_with(|| false, &NamesSeen), DriverStatus::InstalledNotRunning);
    assert_eq!(status_from_probe(true, ServiceState::AnyMissing), DriverStatus::Running);
}

#[test]
fn installer_exit_code_decides() {
    assert_eq!(installer_exit_result(0), Ok(()));
    assert_eq!(
        installer_exit_result(1603),
        Err(AppError::Other("installer exited with code 1603".to_string()))
    );
    assert_eq!(installer_argument(true), "/install");
    assert_eq!(installer_argument(false), "/uninstall");
}

#[test]
fn running_driver_clears_pending_reboot() {
    assert_eq!(
        reboot_check(DriverStatus::Running, true),
        RebootCheck { pending_reboot: false, clear_marker: true }
    );
    assert_eq!(
        reboot_check(DriverStatus::Running, false),
        RebootCheck { pending_reboot: false, clear_marker: false }
    );
    assert_eq!(
        reboot_check(DriverStatus::InstalledNotRunning, true),
        RebootCheck { pending_reboot: true, clear_marker: false }
    );
    assert_eq!(
        reboot_check(DriverStatus::NotInstalled, false),
        RebootCheck { pending_reboot: false, clear_marker: false }
    );
}

#[test]
fn wide_strings_are_utf16_with_terminator() {
    assert_eq!(wide("runas"), vec![0x72, 0x75, 0x6e, 0x61, 0x73, 0]);
    assert_eq!(wide(""), vec![0]);
    let s = "\u{e9}\u{1F600}";
    let expected: Vec<u16> = s.encode_utf16().chain(std::iter::once(0)).collect();
    assert_eq!(wide(s), expected);
    assert_eq!(len_before_nul(&[65, 66, 0, 67]), 2);
    assert_eq!(len_before_nul(&[65, 66]), 2);
    assert_eq!(len_before_nul(&[]), 0);
}

#[test]
fn open_failures_are_reported_by_status() {
    assert_eq!(open_failure(DriverStatus::NotInstalled, "x".into()), AppError::DriverNotInstalled);
    assert_eq!(open_failure(DriverStatus::InstalledNotRunning, "x".into()), AppError::DriverNotRunning);
    assert_eq!(
        open_failure(DriverStatus::Running, "driver closed".into()),
        AppError::DriverIo("driver closed".to_string())
    );
}

#[test]
fn status_report_lines() {
    assert_eq!(status_report(DriverStatus::Running), vec!["Interception driver: Running."]);
    assert_eq!(
        status_report(DriverStatus::InstalledNotRunning),
        vec![
            "Interception driver: Installed but not running.",
            "A reboot may be required after installation."
        ]
    );
    assert_eq!(status_report(DriverStatus::NotInstalled).len(), 3);
    assert_eq!(status_report(DriverStatus::NotInstalled)[0], "Interception driver: Not installed.");
}

#[test]
fn service_probes_combine() {
    assert_eq!(service_state(&[ServiceProbe::Running, ServiceProbe::Running]), ServiceState::AllRunning);
    assert_eq!(service_state(&[ServiceProbe::Running, ServiceProbe::Stopped]), ServiceState::AllPresentSomeStopped);
    assert_eq!(service_state(&[ServiceProbe::Stopped, ServiceProbe::Missing]), ServiceState::AnyMissing);
    assert_eq!(service_state(&[]), ServiceState::AllRunning);
}
