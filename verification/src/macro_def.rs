//! Macro definitions: steps, triggers, playback modes, and validation.

use vstd::prelude::*;

use crate::ids::{lemma_v4_id_not_nil, new_macro_id, now, Timestamp};
use crate::input::{KeyCode, Modifier, MouseButton, MoveMode, Point};
use crate::text::{decimal, decimal_string, is_blank, is_blank_str};

verus! {

/// One step of a macro.
#[derive(Debug, Clone, Copy, PartialEq, Eq, Structural)]
pub enum Step {
    KeyPress { key: KeyCode, hold_ms: u32 },
    KeyDown { key: KeyCode },
    KeyUp { key: KeyCode },
    MouseClick { button: MouseButton, hold_ms: u32, at: Option<Point> },
    /// Mouse motion to `to`; for a relative move with a nonzero
    /// `duration_ms`, playback streams the motion across that duration.
    MouseMove { to: Point, mode: MoveMode, duration_ms: Option<u32> },
    MouseScroll { delta: i32 },
    /// Pause for a duration drawn from `min_ms..=max_ms`.
    Wait { min_ms: u32, max_ms: u32 },
}

/// The message of an invalid step, or `None` for a valid one: only a `Wait`
/// whose minimum exceeds its maximum is invalid.
pub open spec fn spec_step_error(s: Step) -> Option<Seq<char>> {
    match s {
        Step::Wait { min_ms, max_ms } => if min_ms > max_ms {
            Some(
                "Wait: min_ms ("@ + decimal(min_ms as nat) + ") > max_ms ("@ + decimal(
                    max_ms as nat,
                ) + ")"@,
            )
        } else {
            None
        },
        _ => None,
    }
}

/// Whether every `Wait` step has `min_ms <= max_ms`.
pub open spec fn steps_valid(steps: Seq<Step>) -> bool {
    forall|i: int| 0 <= i < steps.len() ==> (#[trigger] spec_step_error(steps[i])) is None
}

impl Step {
    /// Checks that a `Wait` step has `min_ms <= max_ms`.
    pub fn validate(&self) -> (r: Result<(), String>)
        ensures
            r is Ok <==> spec_step_error(*self) is None,
            r matches Err(m) ==> spec_step_error(*self) == Some(m@),
    {
        match self {
            Step::Wait { min_ms, max_ms } => {
                if *min_ms > *max_ms {
                    let mut m = String::from_str("Wait: min_ms (");
                    m.append(decimal_string(*min_ms as u64).as_str());
                    m.append(") > max_ms (");
                    m.append(decimal_string(*max_ms as u64).as_str());
                    m.append(")");
                    return Err(m);
                }
                Ok(())
            },
            _ => Ok(()),
        }
    }
}

/// What starts a macro: a key with modifiers, or a mouse button with
/// modifiers.
#[derive(Debug, Clone, PartialEq)]
pub enum Trigger {
    Hotkey { key: KeyCode, modifiers: Vec<Modifier> },
    MouseButton { button: MouseButton, modifiers: Vec<Modifier> },
}

/// Whether a trigger may be bound: a bare left, right or middle click (no
/// modifiers) would fire on ordinary clicks and is refused.
pub open spec fn spec_trigger_is_safe(t: Trigger) -> bool {
    match t {
        Trigger::Hotkey { .. } => true,
        Trigger::MouseButton { button, modifiers } => !(modifiers.len() == 0 && (button
            == MouseButton::Left || button == MouseButton::Right || button
            == MouseButton::Middle)),
    }
}

impl Trigger {
    /// Whether the trigger may be bound (not a bare left, right or middle
    /// click).
    pub fn is_safe(&self) -> (r: bool)
        ensures
            r == spec_trigger_is_safe(*self),
    {
        match self {
            Trigger::Hotkey { .. } => true,
            Trigger::MouseButton { button, modifiers } => {
                let primary = match button {
                    MouseButton::Left | MouseButton::Right | MouseButton::Middle => true,
                    _ => false,
                };
                !(modifiers.len() == 0 && primary)
            },
        }
    }
}

/// How many times a macro runs.
#[derive(Debug, Clone, Copy, PartialEq, Eq, Structural)]
pub enum PlaybackMode {
    Once,
    Repeat { count: u32 },
    Loop,
    Toggle,
}

/// A named, triggerable sequence of steps. `id` is a 128-bit UUID value;
/// `created_at` and `updated_at` are points in time at full clock precision.
#[derive(Debug, Clone, PartialEq)]
pub struct Macro {
    pub id: u128,
    pub name: String,
    pub created_at: Timestamp,
    pub updated_at: Timestamp,
    pub trigger: Trigger,
    pub playback: PlaybackMode,
    pub steps: Vec<Step>,
}

/// The first step error at or after index `i`, prefixed with its index.
pub open spec fn first_step_error(steps: Seq<Step>, i: int) -> Option<Seq<char>>
    decreases steps.len() - i,
{
    if i < 0 || i >= steps.len() {
        None
    } else {
        match spec_step_error(steps[i]) {
            Some(e) => Some("step #"@ + decimal(i as nat) + ": "@ + e),
            None => first_step_error(steps, i + 1),
        }
    }
}

/// The validation error of a macro with this name and these steps.
pub open spec fn spec_macro_error(name: Seq<char>, steps: Seq<Step>) -> Option<Seq<char>> {
    if is_blank(name) {
        Some("Macro name cannot be empty"@)
    } else {
        first_step_error(steps, 0)
    }
}

proof fn lemma_first_step_error_none(steps: Seq<Step>, i: int)
    requires
        0 <= i,
        first_step_error(steps, i) is None,
    ensures
        forall|j: int| i <= j < steps.len() ==> (#[trigger] spec_step_error(steps[j])) is None,
    decreases steps.len() - i,
{
    if i < steps.len() {
        lemma_first_step_error_none(steps, i + 1);
    }
}

/// A macro that passes validation has only valid steps.
pub proof fn lemma_valid_macro_steps(name: Seq<char>, steps: Seq<Step>)
    requires
        spec_macro_error(name, steps) is None,
    ensures
        steps_valid(steps),
{
    lemma_first_step_error_none(steps, 0);
}

impl Macro {
    /// A new macro with no steps, a fresh id, and both timestamps set to now.
    pub fn new(name: String, trigger: Trigger, playback: PlaybackMode) -> (r: Macro)
        ensures
            r.name == name,
            r.trigger == trigger,
            r.playback == playback,
            r.steps@.len() == 0,
            r.created_at == r.updated_at,
            r.id != 0,
            (r.id >> 76u128) & 0xfu128 == 4u128,
            (r.id >> 62u128) & 0x3u128 == 2u128,
    {
        let id = new_macro_id();
        proof {
            lemma_v4_id_not_nil(id);
        }
        let stamp = now();
        Macro {
            id,
            name,
            created_at: stamp,
            updated_at: stamp,
            trigger,
            playback,
            steps: Vec::new(),
        }
    }

    /// Checks that the name is not blank and that every step is valid;
    /// reports the first failure.
    pub fn validate(&self) -> (r: Result<(), String>)
        ensures
            r is Ok <==> spec_macro_error(self.name@, self.steps@) is None,
            r matches Err(m) ==> spec_macro_error(self.name@, self.steps@) == Some(m@),
    {
        if is_blank_str(self.name.as_str()) {
            return Err(String::from_str("Macro name cannot be empty"));
        }
        let n = self.steps.len();
        let mut i: usize = 0;
        while i < n
            invariant
                n == self.steps@.len(),
                i <= n,
                !is_blank(self.name@),
                first_step_error(self.steps@, 0) == first_step_error(self.steps@, i as int),
            decreases n - i,
        {
            match self.steps[i].validate() {
                Err(e) => {
                    let mut m = String::from_str("step #");
                    m.append(decimal_string(i as u64).as_str());
                    m.append(": ");
                    m.append(e.as_str());
                    proof {
                        assert(first_step_error(self.steps@, i as int) == Some(
                            "step #"@ + decimal(i as nat) + ": "@ + e@,
                        ));
                    }
                    return Err(m);
                },
                Ok(()) => {},
            }
            i = i + 1;
        }
        Ok(())
    }
}

} // verus!
