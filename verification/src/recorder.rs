//! The decisions of a recording session.
//!
//! The caller receives events from the device layer and hands each one, with
//! its capture time, to [`RecorderSession::on_event`], which says whether to
//! stop, and otherwise whether to forward the event to the system.

use vstd::prelude::*;

use crate::compile::{compile_events, spec_compile, TimedEvent};
use crate::event::RawEvent;
use crate::input::KeyCode;
use crate::macro_def::Step;

verus! {

/// What the caller does with an event.
#[derive(Debug, Clone, Copy, PartialEq, Eq, Structural)]
pub enum RecorderAction {
    /// The stop key was pressed: end the recording; the event is neither
    /// recorded nor forwarded.
    Stop,
    /// The event was recorded; forward it to the system when `forward`.
    Record { forward: bool },
}

/// A recording in progress.
#[derive(Debug, Clone)]
pub struct RecorderSession {
    /// Whether recorded events are forwarded to the system.
    pub passthrough: bool,
    /// The key whose press ends the recording.
    pub stop_key: Option<KeyCode>,
    /// The recorded events, oldest first.
    pub buffer: Vec<TimedEvent>,
}

/// Whether `e` is a press of the stop key.
pub open spec fn is_stop_press(stop_key: Option<KeyCode>, e: RawEvent) -> bool {
    stop_key matches Some(k) && e == (RawEvent::KeyDown { key: k })
}

impl RecorderSession {
    /// A session with an empty buffer.
    pub fn new(passthrough: bool, stop_key: Option<KeyCode>) -> (r: RecorderSession)
        ensures
            r.passthrough == passthrough,
            r.stop_key == stop_key,
            r.buffer@ == Seq::<TimedEvent>::empty(),
    {
        RecorderSession { passthrough, stop_key, buffer: Vec::new() }
    }

    /// Handles one event captured at `at` (nanoseconds): a press of the stop
    /// key stops the session and is dropped; any other event is appended to
    /// the buffer and forwarded when passthrough is on.
    pub fn on_event(&mut self, event: RawEvent, at: u64) -> (r: RecorderAction)
        ensures
            final(self).passthrough == old(self).passthrough,
            final(self).stop_key == old(self).stop_key,
            is_stop_press(old(self).stop_key, event) ==> r == RecorderAction::Stop
                && final(self).buffer@ == old(self).buffer@,
            !is_stop_press(old(self).stop_key, event) ==> r == (RecorderAction::Record {
                forward: old(self).passthrough,
            }) && final(self).buffer@ == old(self).buffer@.push(TimedEvent { event, at }),
    {
        match self.stop_key {
            Some(k) => {
                if event == (RawEvent::KeyDown { key: k }) {
                    return RecorderAction::Stop;
                }
            },
            None => {},
        }
        self.buffer.push(TimedEvent { event, at });
        RecorderAction::Record { forward: self.passthrough }
    }

    /// The steps compiled from the recorded events.
    pub fn finish(&self) -> (r: Vec<Step>)
        ensures
            r@ == spec_compile(self.buffer@),
    {
        compile_events(self.buffer.as_slice())
    }
}

} // verus!
