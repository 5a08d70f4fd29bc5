//! Mapping between Windows set-1 ("XT") scancodes and [`KeyCode`].
//!
//! The `e0` flag is the extended-key prefix: it tells apart, for example, left
//! Ctrl (`0x1D`) from right Ctrl (`0x1D` with `e0`), and marks the arrow and
//! edit-cluster keys.

use vstd::prelude::*;

use crate::input::KeyCode;

verus! {

/// The key that a scancode and extended flag denote, if any.
pub open spec fn spec_scancode_to_keycode(code: u16, e0: bool) -> Option<KeyCode> {
    match (code, e0) {
        (0x10, false) => Some(KeyCode::Q),
        (0x11, false) => Some(KeyCode::W),
        (0x12, false) => Some(KeyCode::E),
        (0x13, false) => Some(KeyCode::R),
        (0x14, false) => Some(KeyCode::T),
        (0x15, false) => Some(KeyCode::Y),
        (0x16, false) => Some(KeyCode::U),
        (0x17, false) => Some(KeyCode::I),
        (0x18, false) => Some(KeyCode::O),
        (0x19, false) => Some(KeyCode::P),
        (0x1E, false) => Some(KeyCode::A),
        (0x1F, false) => Some(KeyCode::S),
        (0x20, false) => Some(KeyCode::D),
        (0x21, false) => Some(KeyCode::F),
        (0x22, false) => Some(KeyCode::G),
        (0x23, false) => Some(KeyCode::H),
        (0x24, false) => Some(KeyCode::J),
        (0x25, false) => Some(KeyCode::K),
        (0x26, false) => Some(KeyCode::L),
        (0x2C, false) => Some(KeyCode::Z),
        (0x2D, false) => Some(KeyCode::X),
        (0x2E, false) => Some(KeyCode::C),
        (0x2F, false) => Some(KeyCode::V),
        (0x30, false) => Some(KeyCode::B),
        (0x31, false) => Some(KeyCode::N),
        (0x32, false) => Some(KeyCode::M),
        (0x02, false) => Some(KeyCode::Num1),
        (0x03, false) => Some(KeyCode::Num2),
        (0x04, false) => Some(KeyCode::Num3),
        (0x05, false) => Some(KeyCode::Num4),
        (0x06, false) => Some(KeyCode::Num5),
        (0x07, false) => Some(KeyCode::Num6),
        (0x08, false) => Some(KeyCode::Num7),
        (0x09, false) => Some(KeyCode::Num8),
        (0x0A, false) => Some(KeyCode::Num9),
        (0x0B, false) => Some(KeyCode::Num0),
        (0x3B, false) => Some(KeyCode::F1),
        (0x3C, false) => Some(KeyCode::F2),
        (0x3D, false) => Some(KeyCode::F3),
        (0x3E, false) => Some(KeyCode::F4),
        (0x3F, false) => Some(KeyCode::F5),
        (0x40, false) => Some(KeyCode::F6),
        (0x41, false) => Some(KeyCode::F7),
        (0x42, false) => Some(KeyCode::F8),
        (0x43, false) => Some(KeyCode::F9),
        (0x44, false) => Some(KeyCode::F10),
        (0x57, false) => Some(KeyCode::F11),
        (0x58, false) => Some(KeyCode::F12),
        (0x2A, false) => Some(KeyCode::LShift),
        (0x36, false) => Some(KeyCode::RShift),
        (0x1D, false) => Some(KeyCode::LCtrl),
        (0x1D, true) => Some(KeyCode::RCtrl),
        (0x38, false) => Some(KeyCode::LAlt),
        (0x38, true) => Some(KeyCode::RAlt),
        (0x5B, true) => Some(KeyCode::LWin),
        (0x5C, true) => Some(KeyCode::RWin),
        (0x39, false) => Some(KeyCode::Space),
        (0x1C, false) => Some(KeyCode::Enter),
        (0x0F, false) => Some(KeyCode::Tab),
        (0x0E, false) => Some(KeyCode::Backspace),
        (0x01, false) => Some(KeyCode::Escape),
        (0x3A, false) => Some(KeyCode::CapsLock),
        (0x48, true) => Some(KeyCode::Up),
        (0x50, true) => Some(KeyCode::Down),
        (0x4B, true) => Some(KeyCode::Left),
        (0x4D, true) => Some(KeyCode::Right),
        (0x52, true) => Some(KeyCode::Insert),
        (0x53, true) => Some(KeyCode::Delete),
        (0x47, true) => Some(KeyCode::Home),
        (0x4F, true) => Some(KeyCode::End),
        (0x49, true) => Some(KeyCode::PageUp),
        (0x51, true) => Some(KeyCode::PageDown),
        (0x0C, false) => Some(KeyCode::Minus),
        (0x0D, false) => Some(KeyCode::Equals),
        (0x1A, false) => Some(KeyCode::LBracket),
        (0x1B, false) => Some(KeyCode::RBracket),
        (0x2B, false) => Some(KeyCode::Backslash),
        (0x27, false) => Some(KeyCode::Semicolon),
        (0x28, false) => Some(KeyCode::Apostrophe),
        (0x29, false) => Some(KeyCode::Backtick),
        (0x33, false) => Some(KeyCode::Comma),
        (0x34, false) => Some(KeyCode::Period),
        (0x35, false) => Some(KeyCode::Slash),
        _ => None,
    }
}

/// The scancode and extended flag of a key.
pub open spec fn spec_keycode_to_scancode(k: KeyCode) -> (u16, bool) {
    match k {
        KeyCode::Q => (0x10, false),
        KeyCode::W => (0x11, false),
        KeyCode::E => (0x12, false),
        KeyCode::R => (0x13, false),
        KeyCode::T => (0x14, false),
        KeyCode::Y => (0x15, false),
        KeyCode::U => (0x16, false),
        KeyCode::I => (0x17, false),
        KeyCode::O => (0x18, false),
        KeyCode::P => (0x19, false),
        KeyCode::A => (0x1E, false),
        KeyCode::S => (0x1F, false),
        KeyCode::D => (0x20, false),
        KeyCode::F => (0x21, false),
        KeyCode::G => (0x22, false),
        KeyCode::H => (0x23, false),
        KeyCode::J => (0x24, false),
        KeyCode::K => (0x25, false),
        KeyCode::L => (0x26, false),
        KeyCode::Z => (0x2C, false),
        KeyCode::X => (0x2D, false),
        KeyCode::C => (0x2E, false),
        KeyCode::V => (0x2F, false),
        KeyCode::B => (0x30, false),
        KeyCode::N => (0x31, false),
        KeyCode::M => (0x32, false),
        KeyCode::Num1 => (0x02, false),
        KeyCode::Num2 => (0x03, false),
        KeyCode::Num3 => (0x04, false),
        KeyCode::Num4 => (0x05, false),
        KeyCode::Num5 => (0x06, false),
        KeyCode::Num6 => (0x07, false),
        KeyCode::Num7 => (0x08, false),
        KeyCode::Num8 => (0x09, false),
        KeyCode::Num9 => (0x0A, false),
        KeyCode::Num0 => (0x0B, false),
        KeyCode::F1 => (0x3B, false),
        KeyCode::F2 => (0x3C, false),
        KeyCode::F3 => (0x3D, false),
        KeyCode::F4 => (0x3E, false),
        KeyCode::F5 => (0x3F, false),
        KeyCode::F6 => (0x40, false),
        KeyCode::F7 => (0x41, false),
        KeyCode::F8 => (0x42, false),
        KeyCode::F9 => (0x43, false),
        KeyCode::F10 => (0x44, false),
        KeyCode::F11 => (0x57, false),
        KeyCode::F12 => (0x58, false),
        KeyCode::LShift => (0x2A, false),
        KeyCode::RShift => (0x36, false),
        KeyCode::LCtrl => (0x1D, false),
        KeyCode::RCtrl => (0x1D, true),
        KeyCode::LAlt => (0x38, false),
        KeyCode::RAlt => (0x38, true),
        KeyCode::LWin => (0x5B, true),
        KeyCode::RWin => (0x5C, true),
        KeyCode::Space => (0x39, false),
        KeyCode::Enter => (0x1C, false),
        KeyCode::Tab => (0x0F, false),
        KeyCode::Backspace => (0x0E, false),
        KeyCode::Escape => (0x01, false),
        KeyCode::CapsLock => (0x3A, false),
        KeyCode::Up => (0x48, true),
        KeyCode::Down => (0x50, true),
        KeyCode::Left => (0x4B, true),
        KeyCode::Right => (0x4D, true),
        KeyCode::Insert => (0x52, true),
        KeyCode::Delete => (0x53, true),
        KeyCode::Home => (0x47, true),
        KeyCode::End => (0x4F, true),
        KeyCode::PageUp => (0x49, true),
        KeyCode::PageDown => (0x51, true),
        KeyCode::Minus => (0x0C, false),
        KeyCode::Equals => (0x0D, false),
        KeyCode::LBracket => (0x1A, false),
        KeyCode::RBracket => (0x1B, false),
        KeyCode::Backslash => (0x2B, false),
        KeyCode::Semicolon => (0x27, false),
        KeyCode::Apostrophe => (0x28, false),
        KeyCode::Backtick => (0x29, false),
        KeyCode::Comma => (0x33, false),
        KeyCode::Period => (0x34, false),
        KeyCode::Slash => (0x35, false),
    }
}

/// Decodes a scancode with its extended flag; `None` for codes that no key
/// uses.
pub fn scancode_to_keycode(code: u16, e0: bool) -> (r: Option<KeyCode>)
    ensures
        r == spec_scancode_to_keycode(code, e0),
{
    match (code, e0) {
        (0x10, false) => Some(KeyCode::Q),
        (0x11, false) => Some(KeyCode::W),
        (0x12, false) => Some(KeyCode::E),
        (0x13, false) => Some(KeyCode::R),
        (0x14, false) => Some(KeyCode::T),
        (0x15, false) => Some(KeyCode::Y),
        (0x16, false) => Some(KeyCode::U),
        (0x17, false) => Some(KeyCode::I),
        (0x18, false) => Some(KeyCode::O),
        (0x19, false) => Some(KeyCode::P),
        (0x1E, false) => Some(KeyCode::A),
        (0x1F, false) => Some(KeyCode::S),
        (0x20, false) => Some(KeyCode::D),
        (0x21, false) => Some(KeyCode::F),
        (0x22, false) => Some(KeyCode::G),
        (0x23, false) => Some(KeyCode::H),
        (0x24, false) => Some(KeyCode::J),
        (0x25, false) => Some(KeyCode::K),
        (0x26, false) => Some(KeyCode::L),
        (0x2C, false) => Some(KeyCode::Z),
        (0x2D, false) => Some(KeyCode::X),
        (0x2E, false) => Some(KeyCode::C),
        (0x2F, false) => Some(KeyCode::V),
        (0x30, false) => Some(KeyCode::B),
        (0x31, false) => Some(KeyCode::N),
        (0x32, false) => Some(KeyCode::M),
        (0x02, false) => Some(KeyCode::Num1),
        (0x03, false) => Some(KeyCode::Num2),
        (0x04, false) => Some(KeyCode::Num3),
        (0x05, false) => Some(KeyCode::Num4),
        (0x06, false) => Some(KeyCode::Num5),
        (0x07, false) => Some(KeyCode::Num6),
        (0x08, false) => Some(KeyCode::Num7),
        (0x09, false) => Some(KeyCode::Num8),
        (0x0A, false) => Some(KeyCode::Num9),
        (0x0B, false) => Some(KeyCode::Num0),
        (0x3B, false) => Some(KeyCode::F1),
        (0x3C, false) => Some(KeyCode::F2),
        (0x3D, false) => Some(KeyCode::F3),
        (0x3E, false) => Some(KeyCode::F4),
        (0x3F, false) => Some(KeyCode::F5),
        (0x40, false) => Some(KeyCode::F6),
        (0x41, false) => Some(KeyCode::F7),
        (0x42, false) => Some(KeyCode::F8),
        (0x43, false) => Some(KeyCode::F9),
        (0x44, false) => Some(KeyCode::F10),
        (0x57, false) => Some(KeyCode::F11),
        (0x58, false) => Some(KeyCode::F12),
        (0x2A, false) => Some(KeyCode::LShift),
        (0x36, false) => Some(KeyCode::RShift),
        (0x1D, false) => Some(KeyCode::LCtrl),
        (0x1D, true) => Some(KeyCode::RCtrl),
        (0x38, false) => Some(KeyCode::LAlt),
        (0x38, true) => Some(KeyCode::RAlt),
        (0x5B, true) => Some(KeyCode::LWin),
        (0x5C, true) => Some(KeyCode::RWin),
        (0x39, false) => Some(KeyCode::Space),
        (0x1C, false) => Some(KeyCode::Enter),
        (0x0F, false) => Some(KeyCode::Tab),
        (0x0E, false) => Some(KeyCode::Backspace),
        (0x01, false) => Some(KeyCode::Escape),
        (0x3A, false) => Some(KeyCode::CapsLock),
        (0x48, true) => Some(KeyCode::Up),
        (0x50, true) => Some(KeyCode::Down),
        (0x4B, true) => Some(KeyCode::Left),
        (0x4D, true) => Some(KeyCode::Right),
        (0x52, true) => Some(KeyCode::Insert),
        (0x53, true) => Some(KeyCode::Delete),
        (0x47, true) => Some(KeyCode::Home),
        (0x4F, true) => Some(KeyCode::End),
        (0x49, true) => Some(KeyCode::PageUp),
        (0x51, true) => Some(KeyCode::PageDown),
        (0x0C, false) => Some(KeyCode::Minus),
        (0x0D, false) => Some(KeyCode::Equals),
        (0x1A, false) => Some(KeyCode::LBracket),
        (0x1B, false) => Some(KeyCode::RBracket),
        (0x2B, false) => Some(KeyCode::Backslash),
        (0x27, false) => Some(KeyCode::Semicolon),
        (0x28, false) => Some(KeyCode::Apostrophe),
        (0x29, false) => Some(KeyCode::Backtick),
        (0x33, false) => Some(KeyCode::Comma),
        (0x34, false) => Some(KeyCode::Period),
        (0x35, false) => Some(KeyCode::Slash),
        _ => None,
    }
}

/// Encodes a key as its scancode and extended flag.
pub fn keycode_to_scancode(k: KeyCode) -> (r: (u16, bool))
    ensures
        r == spec_keycode_to_scancode(k),
{
    match k {
        KeyCode::Q => (0x10, false),
        KeyCode::W => (0x11, false),
        KeyCode::E => (0x12, false),
        KeyCode::R => (0x13, false),
        KeyCode::T => (0x14, false),
        KeyCode::Y => (0x15, false),
        KeyCode::U => (0x16, false),
        KeyCode::I => (0x17, false),
        KeyCode::O => (0x18, false),
        KeyCode::P => (0x19, false),
        KeyCode::A => (0x1E, false),
        KeyCode::S => (0x1F, false),
        KeyCode::D => (0x20, false),
        KeyCode::F => (0x21, false),
        KeyCode::G => (0x22, false),
        KeyCode::H => (0x23, false),
        KeyCode::J => (0x24, false),
        KeyCode::K => (0x25, false),
        KeyCode::L => (0x26, false),
        KeyCode::Z => (0x2C, false),
        KeyCode::X => (0x2D, false),
        KeyCode::C => (0x2E, false),
        KeyCode::V => (0x2F, false),
        KeyCode::B => (0x30, false),
        KeyCode::N => (0x31, false),
        KeyCode::M => (0x32, false),
        KeyCode::Num1 => (0x02, false),
        KeyCode::Num2 => (0x03, false),
        KeyCode::Num3 => (0x04, false),
        KeyCode::Num4 => (0x05, false),
        KeyCode::Num5 => (0x06, false),
        KeyCode::Num6 => (0x07, false),
        KeyCode::Num7 => (0x08, false),
        KeyCode::Num8 => (0x09, false),
        KeyCode::Num9 => (0x0A, false),
        KeyCode::Num0 => (0x0B, false),
        KeyCode::F1 => (0x3B, false),
        KeyCode::F2 => (0x3C, false),
        KeyCode::F3 => (0x3D, false),
        KeyCode::F4 => (0x3E, false),
        KeyCode::F5 => (0x3F, false),
        KeyCode::F6 => (0x40, false),
        KeyCode::F7 => (0x41, false),
        KeyCode::F8 => (0x42, false),
        KeyCode::F9 => (0x43, false),
        KeyCode::F10 => (0x44, false),
        KeyCode::F11 => (0x57, false),
        KeyCode::F12 => (0x58, false),
        KeyCode::LShift => (0x2A, false),
        KeyCode::RShift => (0x36, false),
        KeyCode::LCtrl => (0x1D, false),
        KeyCode::RCtrl => (0x1D, true),
        KeyCode::LAlt => (0x38, false),
        KeyCode::RAlt => (0x38, true),
        KeyCode::LWin => (0x5B, true),
        KeyCode::RWin => (0x5C, true),
        KeyCode::Space => (0x39, false),
        KeyCode::Enter => (0x1C, false),
        KeyCode::Tab => (0x0F, false),
        KeyCode::Backspace => (0x0E, false),
        KeyCode::Escape => (0x01, false),
        KeyCode::CapsLock => (0x3A, false),
        KeyCode::Up => (0x48, true),
        KeyCode::Down => (0x50, true),
        KeyCode::Left => (0x4B, true),
        KeyCode::Right => (0x4D, true),
        KeyCode::Insert => (0x52, true),
        KeyCode::Delete => (0x53, true),
        KeyCode::Home => (0x47, true),
        KeyCode::End => (0x4F, true),
        KeyCode::PageUp => (0x49, true),
        KeyCode::PageDown => (0x51, true),
        KeyCode::Minus => (0x0C, false),
        KeyCode::Equals => (0x0D, false),
        KeyCode::LBracket => (0x1A, false),
        KeyCode::RBracket => (0x1B, false),
        KeyCode::Backslash => (0x2B, false),
        KeyCode::Semicolon => (0x27, false),
        KeyCode::Apostrophe => (0x28, false),
        KeyCode::Backtick => (0x29, false),
        KeyCode::Comma => (0x33, false),
        KeyCode::Period => (0x34, false),
        KeyCode::Slash => (0x35, false),
    }
}

/// Encoding a key and decoding the result gives the key back.
pub proof fn lemma_keycode_roundtrip(k: KeyCode)
    ensures
        spec_scancode_to_keycode(spec_keycode_to_scancode(k).0, spec_keycode_to_scancode(k).1)
            == Some(k),
{
}

/// Decoding inverts encoding: every scancode that decodes to a key is that
/// key's own encoding, so no two scancodes denote one key.
pub proof fn lemma_scancode_roundtrip(code: u16, e0: bool)
    ensures
        spec_scancode_to_keycode(code, e0) matches Some(k) ==> spec_keycode_to_scancode(k) == (
            code,
            e0,
        ),
{
}

/// The set-1 assignment, as runs of keys with consecutive scancodes: each
/// entry is a list of keys, the scancode of its first key, and whether the
/// run carries the extended prefix. The first run reads the main block of a
/// US keyboard row by row, left to right, from Escape (`0x01`) to right
/// Shift (`0x36`).
pub open spec fn set1_runs() -> Seq<(Seq<KeyCode>, int, bool)> {
    seq![
        (seq![KeyCode::Escape, KeyCode::Num1, KeyCode::Num2, KeyCode::Num3, KeyCode::Num4, KeyCode::Num5, KeyCode::Num6, KeyCode::Num7, KeyCode::Num8, KeyCode::Num9, KeyCode::Num0, KeyCode::Minus, KeyCode::Equals, KeyCode::Backspace, KeyCode::Tab, KeyCode::Q, KeyCode::W, KeyCode::E, KeyCode::R, KeyCode::T, KeyCode::Y, KeyCode::U, KeyCode::I, KeyCode::O, KeyCode::P, KeyCode::LBracket, KeyCode::RBracket, KeyCode::Enter, KeyCode::LCtrl, KeyCode::A, KeyCode::S, KeyCode::D, KeyCode::F, KeyCode::G, KeyCode::H, KeyCode::J, KeyCode::K, KeyCode::L, KeyCode::Semicolon, KeyCode::Apostrophe, KeyCode::Backtick, KeyCode::LShift, KeyCode::Backslash, KeyCode::Z, KeyCode::X, KeyCode::C, KeyCode::V, KeyCode::B, KeyCode::N, KeyCode::M, KeyCode::Comma, KeyCode::Period, KeyCode::Slash, KeyCode::RShift], 0x01, false),
        (seq![KeyCode::LAlt, KeyCode::Space, KeyCode::CapsLock, KeyCode::F1, KeyCode::F2, KeyCode::F3, KeyCode::F4, KeyCode::F5, KeyCode::F6, KeyCode::F7, KeyCode::F8, KeyCode::F9, KeyCode::F10], 0x38, false),
        (seq![KeyCode::F11, KeyCode::F12], 0x57, false),
        (seq![KeyCode::RCtrl], 0x1D, true),
        (seq![KeyCode::RAlt], 0x38, true),
        (seq![KeyCode::Home, KeyCode::Up, KeyCode::PageUp], 0x47, true),
        (seq![KeyCode::Left], 0x4B, true),
        (seq![KeyCode::Right], 0x4D, true),
        (seq![KeyCode::End, KeyCode::Down, KeyCode::PageDown, KeyCode::Insert, KeyCode::Delete], 0x4F, true),
        (seq![KeyCode::LWin, KeyCode::RWin], 0x5B, true),
    ]
}

/// Whether the keys of `keys` from position `j` on have the scancodes
/// `first + j`, `first + j + 1`, ... with extended flag `e0`, both ways.
pub open spec fn run_numbered(keys: Seq<KeyCode>, first: int, e0: bool, j: int) -> bool
    decreases keys.len() - j,
{
    if j < 0 || j >= keys.len() {
        true
    } else {
        &&& spec_keycode_to_scancode(keys[j]) == ((first + j) as u16, e0)
        &&& spec_scancode_to_keycode((first + j) as u16, e0) == Some(keys[j])
        &&& run_numbered(keys, first, e0, j + 1)
    }
}

proof fn lemma_run_numbered(keys: Seq<KeyCode>, first: int, e0: bool, j: int)
    requires
        0 <= j,
        run_numbered(keys, first, e0, j),
    ensures
        forall|i: int|
            j <= i < keys.len() ==> spec_keycode_to_scancode(#[trigger] keys[i]) == (
                (first + i) as u16,
                e0,
            ) && spec_scancode_to_keycode((first + i) as u16, e0) == Some(keys[i]),
    decreases keys.len() - j,
{
    if j < keys.len() {
        lemma_run_numbered(keys, first, e0, j + 1);
    }
}

/// Whether run `r` of the set-1 runs is numbered as it says.
proof fn lemma_set1_run(r: int)
    requires
        0 <= r < set1_runs().len(),
    ensures
        forall|i: int|
            0 <= i < set1_runs()[r].0.len() ==> spec_keycode_to_scancode(
                #[trigger] set1_runs()[r].0[i],
            ) == ((set1_runs()[r].1 + i) as u16, set1_runs()[r].2) && spec_scancode_to_keycode(
                (set1_runs()[r].1 + i) as u16,
                set1_runs()[r].2,
            ) == Some(set1_runs()[r].0[i]),
{
    let run = set1_runs()[r];
    reveal_with_fuel(run_numbered, 56);
    assert(run_numbered(run.0, run.1, run.2, 0));
    lemma_run_numbered(run.0, run.1, run.2, 0);
}

/// Law (the tables follow the set-1 assignment, key by key): the `i`-th key
/// of each run of [`set1_runs`] encodes to the run's first scancode plus
/// `i`, with the run's extended flag, and that scancode decodes to it. So `Q`
/// is `0x10` and `W` is `0x11`, the digits run from `0x02`, and the arrows
/// carry the extended prefix.
pub proof fn lemma_set1_assignment()
    ensures
        forall|r: int, i: int|
            0 <= r < set1_runs().len() && 0 <= i < set1_runs()[r].0.len() ==> spec_keycode_to_scancode(
                #[trigger] set1_runs()[r].0[i],
            ) == ((set1_runs()[r].1 + i) as u16, set1_runs()[r].2) && spec_scancode_to_keycode(
                (set1_runs()[r].1 + i) as u16,
                set1_runs()[r].2,
            ) == Some(set1_runs()[r].0[i]),
{
    assert forall|r: int, i: int|
        0 <= r < set1_runs().len() && 0 <= i < set1_runs()[r].0.len() implies spec_keycode_to_scancode(
        #[trigger] set1_runs()[r].0[i],
    ) == ((set1_runs()[r].1 + i) as u16, set1_runs()[r].2) && spec_scancode_to_keycode(
        (set1_runs()[r].1 + i) as u16,
        set1_runs()[r].2,
    ) == Some(set1_runs()[r].0[i]) by {
        lemma_set1_run(r);
    }
}

} // verus!
