//! Conversion between device strokes and [`RawEvent`]s, as plain values.
//!
//! A keyboard stroke carries a scancode and state bits (`0x01` key up,
//! `0x02` extended `e0` prefix, `0x08`/`0x10`/`0x20` terminal-server flags).
//! A mouse stroke carries button/wheel state bits, flags, a wheel rotation and
//! a movement (see [`crate::mouse`]).

use vstd::prelude::*;

use crate::event::RawEvent;
use crate::input::{KeyCode, MouseButton};
use crate::mouse::{
    convert_mouse, event_if, packed_slots, spec_mouse_events, StrokeEvents,
};
use crate::scancode::{
    keycode_to_scancode, scancode_to_keycode, spec_keycode_to_scancode, spec_scancode_to_keycode,
    lemma_keycode_roundtrip,
};

verus! {

/// Key-state bit: the key was released.
pub const KEY_STATE_UP: u16 = 0x01;

/// Key-state bit: extended (`e0`-prefixed) scancode.
pub const KEY_STATE_E0: u16 = 0x02;

/// Key-state bits set by terminal-server proxying; such strokes are not modeled.
pub const KEY_STATE_TERMSRV: u16 = 0x38;

/// Device that synthesized keyboard strokes go to (the first keyboard).
pub const KEYBOARD_DEVICE: i32 = 1;

/// Device that synthesized mouse strokes go to (the first mouse).
pub const MOUSE_DEVICE: i32 = 11;

/// A stroke to send to a device, as plain values.
#[derive(Debug, Clone, Copy, PartialEq, Eq, Structural)]
pub enum Stroke {
    Keyboard { device: i32, code: u16, state: u16 },
    Mouse { device: i32, state: u16, flags: u16, rolling: i16, x: i32, y: i32 },
}

/// The event that a keyboard stroke denotes, if any.
pub open spec fn spec_key_stroke_events(code: u16, state: u16) -> Seq<RawEvent> {
    if state & 0x38 != 0 {
        Seq::empty()
    } else {
        match spec_scancode_to_keycode(code, state & 0x02 != 0) {
            Some(key) => if state & 0x01 != 0 {
                seq![RawEvent::KeyUp { key }]
            } else {
                seq![RawEvent::KeyDown { key }]
            },
            None => Seq::empty(),
        }
    }
}

/// Decodes a keyboard stroke: strokes with terminal-server flags and
/// scancodes that no key uses give no event.
pub fn convert_key_stroke(code: u16, state: u16) -> (r: StrokeEvents)
    ensures
        r@ == spec_key_stroke_events(code, state),
        r.events@ == packed_slots(spec_key_stroke_events(code, state)),
{
    let mut v: Vec<RawEvent> = Vec::new();
    if state & 0x38 == 0 {
        let is_up = state & 0x01 != 0;
        let is_e0 = state & 0x02 != 0;
        match scancode_to_keycode(code, is_e0) {
            Some(key) => {
                if is_up {
                    v.push(RawEvent::KeyUp { key });
                } else {
                    v.push(RawEvent::KeyDown { key });
                }
            },
            None => {},
        }
    }
    proof {
        assert(v@ =~= spec_key_stroke_events(code, state));
    }
    StrokeEvents::from_events(&v)
}

/// Events that a decoded stroke yields.
pub open spec fn spec_stroke_events(s: Stroke) -> Seq<RawEvent> {
    match s {
        Stroke::Keyboard { code, state, .. } => spec_key_stroke_events(code, state),
        Stroke::Mouse { state, rolling, x, y, .. } => spec_mouse_events(state, rolling, x, y),
    }
}

/// Decodes any stroke.
pub fn convert_stroke(s: Stroke) -> (r: StrokeEvents)
    ensures
        r@ == spec_stroke_events(s),
{
    match s {
        Stroke::Keyboard { code, state, .. } => convert_key_stroke(code, state),
        Stroke::Mouse { state, flags, rolling, x, y, .. } => convert_mouse(
            state,
            flags,
            rolling,
            x,
            y,
        ),
    }
}

/// Mouse state bit of a button press or release.
pub open spec fn spec_button_state(b: MouseButton, down: bool) -> u16 {
    match (b, down) {
        (MouseButton::Left, true) => 0x0001,
        (MouseButton::Left, false) => 0x0002,
        (MouseButton::Right, true) => 0x0004,
        (MouseButton::Right, false) => 0x0008,
        (MouseButton::Middle, true) => 0x0010,
        (MouseButton::Middle, false) => 0x0020,
        (MouseButton::X1, true) => 0x0040,
        (MouseButton::X1, false) => 0x0080,
        (MouseButton::X2, true) => 0x0100,
        (MouseButton::X2, false) => 0x0200,
    }
}

/// Mouse state bit of a button press (`down`) or release.
pub fn mouse_button_to_state(b: MouseButton, down: bool) -> (r: u16)
    ensures
        r == spec_button_state(b, down),
{
    match (b, down) {
        (MouseButton::Left, true) => 0x0001,
        (MouseButton::Left, false) => 0x0002,
        (MouseButton::Right, true) => 0x0004,
        (MouseButton::Right, false) => 0x0008,
        (MouseButton::Middle, true) => 0x0010,
        (MouseButton::Middle, false) => 0x0020,
        (MouseButton::X1, true) => 0x0040,
        (MouseButton::X1, false) => 0x0080,
        (MouseButton::X2, true) => 0x0100,
        (MouseButton::X2, false) => 0x0200,
    }
}

/// Wheel state bit.
pub const MOUSE_STATE_WHEEL: u16 = 0x0400;

/// The stroke that sends `e` to the device.
pub open spec fn spec_event_to_stroke(e: RawEvent) -> Stroke {
    match e {
        RawEvent::KeyDown { key } => Stroke::Keyboard {
            device: 1,
            code: spec_keycode_to_scancode(key).0,
            state: if spec_keycode_to_scancode(key).1 { 0x02 } else { 0x00 },
        },
        RawEvent::KeyUp { key } => Stroke::Keyboard {
            device: 1,
            code: spec_keycode_to_scancode(key).0,
            state: if spec_keycode_to_scancode(key).1 { 0x03 } else { 0x01 },
        },
        RawEvent::MouseDown { button } => Stroke::Mouse {
            device: 11,
            state: spec_button_state(button, true),
            flags: 0,
            rolling: 0,
            x: 0,
            y: 0,
        },
        RawEvent::MouseUp { button } => Stroke::Mouse {
            device: 11,
            state: spec_button_state(button, false),
            flags: 0,
            rolling: 0,
            x: 0,
            y: 0,
        },
        RawEvent::MouseMove { dx, dy } => Stroke::Mouse {
            device: 11,
            state: 0,
            flags: 0,
            rolling: 0,
            x: dx,
            y: dy,
        },
        RawEvent::MouseWheel { delta } => Stroke::Mouse {
            device: 11,
            state: 0x0400,
            flags: 0,
            rolling: delta as i16,
            x: 0,
            y: 0,
        },
    }
}

/// Encodes an event as the stroke that synthesizes it: keys go to the first
/// keyboard, mouse events to the first mouse; the wheel delta is truncated to
/// 16 bits.
pub fn event_to_stroke(e: RawEvent) -> (r: Stroke)
    ensures
        r == spec_event_to_stroke(e),
{
    match e {
        RawEvent::KeyDown { key } => {
            let (code, e0) = keycode_to_scancode(key);
            Stroke::Keyboard {
                device: KEYBOARD_DEVICE,
                code,
                state: if e0 { KEY_STATE_E0 } else { 0 },
            }
        },
        RawEvent::KeyUp { key } => {
            let (code, e0) = keycode_to_scancode(key);
            Stroke::Keyboard {
                device: KEYBOARD_DEVICE,
                code,
                state: if e0 { KEY_STATE_UP + KEY_STATE_E0 } else { KEY_STATE_UP },
            }
        },
        RawEvent::MouseDown { button } => Stroke::Mouse {
            device: MOUSE_DEVICE,
            state: mouse_button_to_state(button, true),
            flags: 0,
            rolling: 0,
            x: 0,
            y: 0,
        },
        RawEvent::MouseUp { button } => Stroke::Mouse {
            device: MOUSE_DEVICE,
            state: mouse_button_to_state(button, false),
            flags: 0,
            rolling: 0,
            x: 0,
            y: 0,
        },
        RawEvent::MouseMove { dx, dy } => Stroke::Mouse {
            device: MOUSE_DEVICE,
            state: 0,
            flags: 0,
            rolling: 0,
            x: dx,
            y: dy,
        },
        RawEvent::MouseWheel { delta } => Stroke::Mouse {
            device: MOUSE_DEVICE,
            state: MOUSE_STATE_WHEEL,
            flags: 0,
            rolling: delta as i16,
            x: 0,
            y: 0,
        },
    }
}

/// Whether an event survives a trip through a stroke: a wheel delta must be
/// nonzero and fit in 16 bits, a movement must be nonzero.
pub open spec fn stroke_representable(e: RawEvent) -> bool {
    match e {
        RawEvent::MouseMove { dx, dy } => dx != 0 || dy != 0,
        RawEvent::MouseWheel { delta } => delta != 0 && i16::MIN <= delta <= i16::MAX,
        _ => true,
    }
}

proof fn lemma_key_state_bits(s: u16)
    by (bit_vector)
    requires
        s < 4,
    ensures
        s & 0x38 == 0,
        (s & 0x01 != 0) == (s == 1 || s == 3),
        (s & 0x02 != 0) == (s == 2 || s == 3),
{
}

proof fn lemma_button_state_bits(s: u16)
    by (bit_vector)
    requires
        s == 1 || s == 2 || s == 4 || s == 8 || s == 16 || s == 32 || s == 64 || s == 128 || s
            == 256 || s == 512,
    ensures
        (s & 0x0001 != 0) == (s == 1),
        (s & 0x0002 != 0) == (s == 2),
        (s & 0x0004 != 0) == (s == 4),
        (s & 0x0008 != 0) == (s == 8),
        (s & 0x0010 != 0) == (s == 16),
        (s & 0x0020 != 0) == (s == 32),
        (s & 0x0040 != 0) == (s == 64),
        (s & 0x0080 != 0) == (s == 128),
        (s & 0x0100 != 0) == (s == 256),
        (s & 0x0200 != 0) == (s == 512),
        s & 0x0400 == 0,
{
}

proof fn lemma_zero_state_bits(s: u16)
    by (bit_vector)
    requires
        s == 0 || s == 0x400,
    ensures
        s & 0x0001 == 0,
        s & 0x0002 == 0,
        s & 0x0004 == 0,
        s & 0x0008 == 0,
        s & 0x0010 == 0,
        s & 0x0020 == 0,
        s & 0x0040 == 0,
        s & 0x0080 == 0,
        s & 0x0100 == 0,
        s & 0x0200 == 0,
        (s & 0x0400 != 0) == (s == 0x400),
{
}

/// Decoding the stroke that an event is sent as gives back exactly that
/// event, for every event that a stroke can carry.
pub proof fn lemma_stroke_roundtrip(e: RawEvent)
    requires
        stroke_representable(e),
    ensures
        spec_stroke_events(spec_event_to_stroke(e)) == seq![e],
{
    let s = spec_event_to_stroke(e);
    match e {
        RawEvent::KeyDown { key } | RawEvent::KeyUp { key } => {
            lemma_keycode_roundtrip(key);
            match s {
                Stroke::Keyboard { state, .. } => {
                    lemma_key_state_bits(state);
                },
                _ => {},
            }
            assert(spec_stroke_events(s) =~= seq![e]);
        },
        RawEvent::MouseDown { button } | RawEvent::MouseUp { button } => {
            match s {
                Stroke::Mouse { state, .. } => {
                    lemma_button_state_bits(state);
                },
                _ => {},
            }
            assert(spec_mouse_events(
                spec_button_state(button, e is MouseDown),
                0,
                0,
                0,
            ) =~= seq![e]);
        },
        RawEvent::MouseMove { dx, dy } => {
            lemma_zero_state_bits(0);
            assert(spec_mouse_events(0, 0, dx, dy) =~= seq![e]);
        },
        RawEvent::MouseWheel { delta } => {
            lemma_zero_state_bits(0x400);
            assert((delta as i16) as i32 == delta);
            assert(spec_mouse_events(0x400, delta as i16, 0, 0) =~= seq![e]);
        },
    }
}

/// Law (strokes are what the driver expects): a key event becomes a stroke
/// for the first keyboard that carries the key's scancode, with the release
/// bit (`0x01`) set exactly for a key-up and the extended bit (`0x02`) set
/// exactly for an extended key; a mouse event becomes a stroke for the first
/// mouse with no flag bits set, so that a movement is relative: a move of
/// `(dx, dy)` moves by `(dx, dy)` with no button or wheel state, a wheel
/// turn sets only the wheel bit and carries the delta, and a button event
/// neither moves nor turns the wheel.
pub proof fn lemma_event_stroke_shape(e: RawEvent)
    ensures
        (spec_event_to_stroke(e) is Keyboard) == (e is KeyDown || e is KeyUp),
        spec_event_to_stroke(e) matches Stroke::Mouse { device, flags, .. } ==> device == 11
            && flags == 0,
        e matches RawEvent::MouseMove { dx, dy } ==> spec_event_to_stroke(e) == (Stroke::Mouse {
            device: 11,
            state: 0,
            flags: 0,
            rolling: 0,
            x: dx,
            y: dy,
        }),
        e matches RawEvent::MouseWheel { delta } ==> spec_event_to_stroke(e) == (Stroke::Mouse {
            device: 11,
            state: 0x0400,
            flags: 0,
            rolling: delta as i16,
            x: 0,
            y: 0,
        }),
        e matches RawEvent::MouseDown { button } ==> spec_event_to_stroke(e) == (Stroke::Mouse {
            device: 11,
            state: spec_button_state(button, true),
            flags: 0,
            rolling: 0,
            x: 0,
            y: 0,
        }),
        e matches RawEvent::MouseUp { button } ==> spec_event_to_stroke(e) == (Stroke::Mouse {
            device: 11,
            state: spec_button_state(button, false),
            flags: 0,
            rolling: 0,
            x: 0,
            y: 0,
        }),
        e matches RawEvent::KeyDown { key } ==> spec_event_to_stroke(e) == (Stroke::Keyboard {
            device: 1,
            code: spec_keycode_to_scancode(key).0,
            state: if spec_keycode_to_scancode(key).1 { 0x02u16 } else { 0x00u16 },
        }),
        e matches RawEvent::KeyUp { key } ==> spec_event_to_stroke(e) == (Stroke::Keyboard {
            device: 1,
            code: spec_keycode_to_scancode(key).0,
            state: if spec_keycode_to_scancode(key).1 { 0x03u16 } else { 0x01u16 },
        }),
{
}

/// The mouse buttons in the order of their state bits.
pub open spec fn buttons_in_bit_order() -> Seq<MouseButton> {
    seq![MouseButton::Left, MouseButton::Right, MouseButton::Middle, MouseButton::X1, MouseButton::X2]
}

/// Law (button bits follow the driver's layout): the `i`-th button of
/// [`buttons_in_bit_order`] presses with bit `4^i` (`0x001`, `0x004`,
/// `0x010`, `0x040`, `0x100`) and releases with the next bit up, twice that.
pub proof fn lemma_button_bits()
    ensures
        forall|i: int|
            0 <= i < buttons_in_bit_order().len() ==> spec_button_state(
                #[trigger] buttons_in_bit_order()[i],
                true,
            ) == vstd::arithmetic::power::pow(4, i as nat) && spec_button_state(
                buttons_in_bit_order()[i],
                false,
            ) == 2 * vstd::arithmetic::power::pow(4, i as nat),
{
    reveal_with_fuel(vstd::arithmetic::power::pow, 6);
    assert forall|i: int| 0 <= i < buttons_in_bit_order().len() implies spec_button_state(
        #[trigger] buttons_in_bit_order()[i],
        true,
    ) == vstd::arithmetic::power::pow(4, i as nat) && spec_button_state(
        buttons_in_bit_order()[i],
        false,
    ) == 2 * vstd::arithmetic::power::pow(4, i as nat) by {
        if i == 0 {
        } else if i == 1 {
        } else if i == 2 {
        } else if i == 3 {
        } else {
        }
    }
}

/// Where a mouse event stands among the events that one stroke carries: a
/// button event at its state bit, the wheel at the wheel bit, the movement
/// after them all.
pub open spec fn mouse_event_rank(e: RawEvent) -> int {
    match e {
        RawEvent::MouseDown { button } => spec_button_state(button, true) as int,
        RawEvent::MouseUp { button } => spec_button_state(button, false) as int,
        RawEvent::MouseWheel { .. } => 0x0400,
        RawEvent::MouseMove { .. } => 0x0800,
        _ => 0,
    }
}

/// Whether `s` holds mouse events only, in strictly increasing rank.
pub open spec fn ranked(s: Seq<RawEvent>) -> bool {
    &&& forall|k: int| 0 <= k < s.len() ==> mouse_event_rank(#[trigger] s[k]) > 0
    &&& forall|a: int, b: int|
        0 <= a < b < s.len() ==> mouse_event_rank(#[trigger] s[a]) < mouse_event_rank(#[trigger] s[b])
}

/// Whether `s` is ranked with no rank above `r`.
#[verifier::opaque]
spec fn ranked_below(s: Seq<RawEvent>, r: int) -> bool {
    &&& ranked(s)
    &&& forall|k: int| 0 <= k < s.len() ==> mouse_event_rank(#[trigger] s[k]) <= r
}

proof fn lemma_ranked_append(a: Seq<RawEvent>, r: int, c: bool, e: RawEvent)
    requires
        ranked_below(a, r),
        0 < r < mouse_event_rank(e),
    ensures
        ranked_below(a + event_if(c, e), mouse_event_rank(e)),
{
    reveal(ranked_below);
    let s = a + event_if(c, e);
    assert forall|k: int| 0 <= k < s.len() implies mouse_event_rank(#[trigger] s[k]) > 0
        && mouse_event_rank(s[k]) <= mouse_event_rank(e) by {
        if k >= a.len() {
            assert(s[k] == e);
        } else {
            assert(s[k] == a[k]);
        }
    }
    assert forall|x: int, y: int| 0 <= x < y < s.len() implies mouse_event_rank(#[trigger] s[x])
        < mouse_event_rank(#[trigger] s[y]) by {
        assert(s[x] == a[x]);
        if y >= a.len() {
            assert(s[y] == e);
        } else {
            assert(s[y] == a[y]);
        }
    }
}

/// Law (a stroke's events come in a fixed order): the events decoded from
/// one mouse stroke are mouse events only, and come in the order of their
/// state bits: left press, left release, right press, right release, middle,
/// X1 and X2 alike, then the wheel, then the movement last, each at most
/// once.
#[verifier::rlimit(30)]
#[verifier::spinoff_prover]
pub proof fn lemma_stroke_events_ordered(state: u16, rolling: i16, x: i32, y: i32)
    ensures
        ranked(spec_mouse_events(state, rolling, x, y)),
{
    let p0 = event_if(state & 0x0001 != 0, RawEvent::MouseDown { button: MouseButton::Left });
    assert(ranked_below(p0, 1)) by {
        reveal(ranked_below);
        if p0.len() > 0 {
            assert(p0[0] == (RawEvent::MouseDown { button: MouseButton::Left }));
        }
    }
    assert(mouse_event_rank(RawEvent::MouseUp { button: MouseButton::Left }) == 2);
    lemma_ranked_append(p0, 1, state & 0x0002 != 0, RawEvent::MouseUp { button: MouseButton::Left });
    let p1 = p0 + event_if(state & 0x0002 != 0, RawEvent::MouseUp { button: MouseButton::Left });
    assert(mouse_event_rank(RawEvent::MouseDown { button: MouseButton::Right }) == 4);
    lemma_ranked_append(p1, 2, state & 0x0004 != 0, RawEvent::MouseDown { button: MouseButton::Right });
    let p2 = p1 + event_if(state & 0x0004 != 0, RawEvent::MouseDown { button: MouseButton::Right });
    assert(mouse_event_rank(RawEvent::MouseUp { button: MouseButton::Right }) == 8);
    lemma_ranked_append(p2, 4, state & 0x0008 != 0, RawEvent::MouseUp { button: MouseButton::Right });
    let p3 = p2 + event_if(state & 0x0008 != 0, RawEvent::MouseUp { button: MouseButton::Right });
    assert(mouse_event_rank(RawEvent::MouseDown { button: MouseButton::Middle }) == 16);
    lemma_ranked_append(p3, 8, state & 0x0010 != 0, RawEvent::MouseDown { button: MouseButton::Middle });
    let p4 = p3 + event_if(state & 0x0010 != 0, RawEvent::MouseDown { button: MouseButton::Middle });
    assert(mouse_event_rank(RawEvent::MouseUp { button: MouseButton::Middle }) == 32);
    lemma_ranked_append(p4, 16, state & 0x0020 != 0, RawEvent::MouseUp { button: MouseButton::Middle });
    let p5 = p4 + event_if(state & 0x0020 != 0, RawEvent::MouseUp { button: MouseButton::Middle });
    assert(mouse_event_rank(RawEvent::MouseDown { button: MouseButton::X1 }) == 64);
    lemma_ranked_append(p5, 32, state & 0x0040 != 0, RawEvent::MouseDown { button: MouseButton::X1 });
    let p6 = p5 + event_if(state & 0x0040 != 0, RawEvent::MouseDown { button: MouseButton::X1 });
    assert(mouse_event_rank(RawEvent::MouseUp { button: MouseButton::X1 }) == 128);
    lemma_ranked_append(p6, 64, state & 0x0080 != 0, RawEvent::MouseUp { button: MouseButton::X1 });
    let p7 = p6 + event_if(state & 0x0080 != 0, RawEvent::MouseUp { button: MouseButton::X1 });
    assert(mouse_event_rank(RawEvent::MouseDown { button: MouseButton::X2 }) == 256);
    lemma_ranked_append(p7, 128, state & 0x0100 != 0, RawEvent::MouseDown { button: MouseButton::X2 });
    let p8 = p7 + event_if(state & 0x0100 != 0, RawEvent::MouseDown { button: MouseButton::X2 });
    assert(mouse_event_rank(RawEvent::MouseUp { button: MouseButton::X2 }) == 512);
    lemma_ranked_append(p8, 256, state & 0x0200 != 0, RawEvent::MouseUp { button: MouseButton::X2 });
    let p9 = p8 + event_if(state & 0x0200 != 0, RawEvent::MouseUp { button: MouseButton::X2 });
    assert(mouse_event_rank(RawEvent::MouseWheel { delta: rolling as i32 }) == 1024);
    lemma_ranked_append(p9, 512, state & 0x0400 != 0 && rolling != 0, RawEvent::MouseWheel { delta: rolling as i32 });
    let p10 = p9 + event_if(state & 0x0400 != 0 && rolling != 0, RawEvent::MouseWheel { delta: rolling as i32 });
    assert(mouse_event_rank(RawEvent::MouseMove { dx: x, dy: y }) == 2048);
    lemma_ranked_append(p10, 1024, x != 0 || y != 0, RawEvent::MouseMove { dx: x, dy: y });
    let p11 = p10 + event_if(x != 0 || y != 0, RawEvent::MouseMove { dx: x, dy: y });
    assert(p11 == spec_mouse_events(state, rolling, x, y));
    assert(ranked(p11)) by {
        reveal(ranked_below);
    }
}

} // verus!
