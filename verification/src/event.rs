//! Low-level input events exchanged with the device layer.

use vstd::prelude::*;

use crate::input::{KeyCode, MouseButton};

verus! {

/// One low-level event from or to the input device layer. Mouse motion is
/// relative.
#[derive(Debug, Clone, Copy, PartialEq, Eq, Structural)]
pub enum RawEvent {
    KeyDown { key: KeyCode },
    KeyUp { key: KeyCode },
    MouseDown { button: MouseButton },
    MouseUp { button: MouseButton },
    MouseMove { dx: i32, dy: i32 },
    MouseWheel { delta: i32 },
}

/// Failure of the device layer.
#[derive(Debug, PartialEq, Eq)]
pub enum DriverError {
    Closed,
    Io(String),
    Unavailable(String),
}

} // verus!
