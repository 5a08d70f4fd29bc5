//! Wire-format mirrors of the model types, kept apart so that the wire format
//! can evolve independently of the model.

use vstd::prelude::*;

use crate::input::{KeyCode, Modifier, MouseButton, MoveMode, Point};
use crate::macro_def::{Macro, PlaybackMode, Step, Trigger};
use crate::settings::Settings;
use crate::ids::Timestamp;

verus! {

/// A trigger on the wire.
#[derive(Debug, Clone, PartialEq, Eq)]
pub enum TriggerDto {
    Hotkey { key: KeyCode, modifiers: Vec<Modifier> },
    MouseButton { button: MouseButton, modifiers: Vec<Modifier> },
}

/// A playback mode on the wire; the repeat count is called `value`.
#[derive(Debug, Clone, Copy, PartialEq, Eq, Structural)]
pub enum PlaybackModeDto {
    Once,
    Repeat { value: u32 },
    Loop,
    Toggle,
}

#[derive(Debug, Clone, Copy, PartialEq, Eq, Structural)]
pub struct PointDto {
    pub x: i32,
    pub y: i32,
}

#[derive(Debug, Clone, Copy, PartialEq, Eq, Structural)]
pub enum MoveModeDto {
    Absolute,
    Relative,
}

/// A step on the wire. A mouse move carries no duration.
#[derive(Debug, Clone, Copy, PartialEq, Eq, Structural)]
pub enum StepDto {
    KeyPress { key: KeyCode, hold_ms: u32 },
    KeyDown { key: KeyCode },
    KeyUp { key: KeyCode },
    MouseClick { button: MouseButton, hold_ms: u32, at: Option<PointDto> },
    MouseMove { to: PointDto, mode: MoveModeDto },
    MouseScroll { delta: i32 },
    Wait { min_ms: u32, max_ms: u32 },
}

/// Settings on the wire.
#[derive(Debug, Clone, PartialEq)]
pub struct SettingsDto {
    pub stop_key: KeyCode,
    pub storage_root_override: Option<String>,
}

/// A macro summary on the wire: everything but the steps, which are counted.
#[derive(Debug, Clone, PartialEq, Eq)]
pub struct MacroDto {
    pub id: u128,
    pub name: String,
    pub trigger: TriggerDto,
    pub playback: PlaybackModeDto,
    pub step_count: usize,
    pub created_at: Timestamp,
    pub updated_at: Timestamp,
}

/// Whether a wire trigger and a model trigger say the same thing.
pub open spec fn trigger_agrees(d: TriggerDto, t: Trigger) -> bool {
    match (d, t) {
        (TriggerDto::Hotkey { key, modifiers }, Trigger::Hotkey { key: k2, modifiers: m2 }) => key
            == k2 && modifiers@ == m2@,
        (
            TriggerDto::MouseButton { button, modifiers },
            Trigger::MouseButton { button: b2, modifiers: m2 },
        ) => button == b2 && modifiers@ == m2@,
        _ => false,
    }
}

/// Whether two wire triggers say the same thing.
pub open spec fn trigger_dto_same(a: TriggerDto, b: TriggerDto) -> bool {
    match (a, b) {
        (TriggerDto::Hotkey { key, modifiers }, TriggerDto::Hotkey { key: k2, modifiers: m2 }) => key
            == k2 && modifiers@ == m2@,
        (
            TriggerDto::MouseButton { button, modifiers },
            TriggerDto::MouseButton { button: b2, modifiers: m2 },
        ) => button == b2 && modifiers@ == m2@,
        _ => false,
    }
}

/// A copy of a modifier list.
fn copy_modifiers(v: &Vec<Modifier>) -> (r: Vec<Modifier>)
    ensures
        r@ == v@,
{
    let mut r: Vec<Modifier> = Vec::new();
    let mut i: usize = 0;
    while i < v.len()
        invariant
            i <= v@.len(),
            r@ == v@.take(i as int),
        decreases v@.len() - i,
    {
        r.push(v[i]);
        proof {
            assert(v@.take(i + 1) =~= v@.take(i as int).push(v@[i as int]));
        }
        i = i + 1;
    }
    proof {
        assert(v@.take(v@.len() as int) =~= v@);
    }
    r
}

impl TriggerDto {
    /// The wire form of a trigger.
    pub fn from_trigger(t: &Trigger) -> (r: TriggerDto)
        ensures
            trigger_agrees(r, *t),
    {
        match t {
            Trigger::Hotkey { key, modifiers } => TriggerDto::Hotkey {
                key: *key,
                modifiers: copy_modifiers(modifiers),
            },
            Trigger::MouseButton { button, modifiers } => TriggerDto::MouseButton {
                button: *button,
                modifiers: copy_modifiers(modifiers),
            },
        }
    }
}

/// The model trigger of a wire trigger.
pub open spec fn spec_trigger_from_dto(d: TriggerDto) -> Trigger {
    match d {
        TriggerDto::Hotkey { key, modifiers } => Trigger::Hotkey { key, modifiers },
        TriggerDto::MouseButton { button, modifiers } => Trigger::MouseButton { button, modifiers },
    }
}

impl From<TriggerDto> for Trigger {
    fn from(d: TriggerDto) -> (r: Trigger) {
        match d {
            TriggerDto::Hotkey { key, modifiers } => Trigger::Hotkey { key, modifiers },
            TriggerDto::MouseButton { button, modifiers } => Trigger::MouseButton {
                button,
                modifiers,
            },
        }
    }
}

impl vstd::std_specs::convert::FromSpecImpl<TriggerDto> for Trigger {
    open spec fn obeys_from_spec() -> bool {
        true
    }

    open spec fn from_spec(d: TriggerDto) -> Trigger {
        spec_trigger_from_dto(d)
    }
}

/// The wire form of a playback mode.
pub open spec fn spec_playback_to_dto(p: PlaybackMode) -> PlaybackModeDto {
    match p {
        PlaybackMode::Once => PlaybackModeDto::Once,
        PlaybackMode::Repeat { count } => PlaybackModeDto::Repeat { value: count },
        PlaybackMode::Loop => PlaybackModeDto::Loop,
        PlaybackMode::Toggle => PlaybackModeDto::Toggle,
    }
}

/// The model form of a wire playback mode.
pub open spec fn spec_playback_from_dto(p: PlaybackModeDto) -> PlaybackMode {
    match p {
        PlaybackModeDto::Once => PlaybackMode::Once,
        PlaybackModeDto::Repeat { value } => PlaybackMode::Repeat { count: value },
        PlaybackModeDto::Loop => PlaybackMode::Loop,
        PlaybackModeDto::Toggle => PlaybackMode::Toggle,
    }
}

impl From<&PlaybackMode> for PlaybackModeDto {
    fn from(p: &PlaybackMode) -> (r: PlaybackModeDto) {
        match p {
            PlaybackMode::Once => PlaybackModeDto::Once,
            PlaybackMode::Repeat { count } => PlaybackModeDto::Repeat { value: *count },
            PlaybackMode::Loop => PlaybackModeDto::Loop,
            PlaybackMode::Toggle => PlaybackModeDto::Toggle,
        }
    }
}

impl vstd::std_specs::convert::FromSpecImpl<&PlaybackMode> for PlaybackModeDto {
    open spec fn obeys_from_spec() -> bool {
        true
    }

    open spec fn from_spec(p: &PlaybackMode) -> PlaybackModeDto {
        spec_playback_to_dto(*p)
    }
}

impl From<PlaybackModeDto> for PlaybackMode {
    fn from(p: PlaybackModeDto) -> (r: PlaybackMode) {
        match p {
            PlaybackModeDto::Once => PlaybackMode::Once,
            PlaybackModeDto::Repeat { value } => PlaybackMode::Repeat { count: value },
            PlaybackModeDto::Loop => PlaybackMode::Loop,
            PlaybackModeDto::Toggle => PlaybackMode::Toggle,
        }
    }
}

impl vstd::std_specs::convert::FromSpecImpl<PlaybackModeDto> for PlaybackMode {
    open spec fn obeys_from_spec() -> bool {
        true
    }

    open spec fn from_spec(p: PlaybackModeDto) -> PlaybackMode {
        spec_playback_from_dto(p)
    }
}

impl From<&Point> for PointDto {
    fn from(p: &Point) -> (r: PointDto) {
        PointDto { x: p.x, y: p.y }
    }
}

impl vstd::std_specs::convert::FromSpecImpl<&Point> for PointDto {
    open spec fn obeys_from_spec() -> bool {
        true
    }

    open spec fn from_spec(p: &Point) -> PointDto {
        PointDto { x: p.x, y: p.y }
    }
}

impl From<PointDto> for Point {
    fn from(p: PointDto) -> (r: Point) {
        Point { x: p.x, y: p.y }
    }
}

impl vstd::std_specs::convert::FromSpecImpl<PointDto> for Point {
    open spec fn obeys_from_spec() -> bool {
        true
    }

    open spec fn from_spec(p: PointDto) -> Point {
        Point { x: p.x, y: p.y }
    }
}

/// The wire form of a move mode.
pub open spec fn spec_move_mode_to_dto(m: MoveMode) -> MoveModeDto {
    match m {
        MoveMode::Absolute => MoveModeDto::Absolute,
        MoveMode::Relative => MoveModeDto::Relative,
    }
}

/// The model form of a wire move mode.
pub open spec fn spec_move_mode_from_dto(m: MoveModeDto) -> MoveMode {
    match m {
        MoveModeDto::Absolute => MoveMode::Absolute,
        MoveModeDto::Relative => MoveMode::Relative,
    }
}

impl From<&MoveMode> for MoveModeDto {
    fn from(m: &MoveMode) -> (r: MoveModeDto) {
        match m {
            MoveMode::Absolute => MoveModeDto::Absolute,
            MoveMode::Relative => MoveModeDto::Relative,
        }
    }
}

impl vstd::std_specs::convert::FromSpecImpl<&MoveMode> for MoveModeDto {
    open spec fn obeys_from_spec() -> bool {
        true
    }

    open spec fn from_spec(m: &MoveMode) -> MoveModeDto {
        spec_move_mode_to_dto(*m)
    }
}

impl From<MoveModeDto> for MoveMode {
    fn from(m: MoveModeDto) -> (r: MoveMode) {
        match m {
            MoveModeDto::Absolute => MoveMode::Absolute,
            MoveModeDto::Relative => MoveMode::Relative,
        }
    }
}

impl vstd::std_specs::convert::FromSpecImpl<MoveModeDto> for MoveMode {
    open spec fn obeys_from_spec() -> bool {
        true
    }

    open spec fn from_spec(m: MoveModeDto) -> MoveMode {
        spec_move_mode_from_dto(m)
    }
}

/// The wire form of a step: a mouse move loses its duration.
pub open spec fn spec_step_to_dto(s: Step) -> StepDto {
    match s {
        Step::KeyPress { key, hold_ms } => StepDto::KeyPress { key, hold_ms },
        Step::KeyDown { key } => StepDto::KeyDown { key },
        Step::KeyUp { key } => StepDto::KeyUp { key },
        Step::MouseClick { button, hold_ms, at } => StepDto::MouseClick {
            button,
            hold_ms,
            at: match at {
                Some(p) => Some(PointDto { x: p.x, y: p.y }),
                None => None,
            },
        },
        Step::MouseMove { to, mode, .. } => StepDto::MouseMove {
            to: PointDto { x: to.x, y: to.y },
            mode: spec_move_mode_to_dto(mode),
        },
        Step::MouseScroll { delta } => StepDto::MouseScroll { delta },
        Step::Wait { min_ms, max_ms } => StepDto::Wait { min_ms, max_ms },
    }
}

/// The model form of a wire step: a mouse move gets no duration.
pub open spec fn spec_step_from_dto(s: StepDto) -> Step {
    match s {
        StepDto::KeyPress { key, hold_ms } => Step::KeyPress { key, hold_ms },
        StepDto::KeyDown { key } => Step::KeyDown { key },
        StepDto::KeyUp { key } => Step::KeyUp { key },
        StepDto::MouseClick { button, hold_ms, at } => Step::MouseClick {
            button,
            hold_ms,
            at: match at {
                Some(p) => Some(Point { x: p.x, y: p.y }),
                None => None,
            },
        },
        StepDto::MouseMove { to, mode } => Step::MouseMove {
            to: Point { x: to.x, y: to.y },
            mode: spec_move_mode_from_dto(mode),
            duration_ms: None,
        },
        StepDto::MouseScroll { delta } => Step::MouseScroll { delta },
        StepDto::Wait { min_ms, max_ms } => Step::Wait { min_ms, max_ms },
    }
}

impl From<&Step> for StepDto {
    fn from(s: &Step) -> (r: StepDto) {
        match *s {
            Step::KeyPress { key, hold_ms } => StepDto::KeyPress { key, hold_ms },
            Step::KeyDown { key } => StepDto::KeyDown { key },
            Step::KeyUp { key } => StepDto::KeyUp { key },
            Step::MouseClick { button, hold_ms, at } => StepDto::MouseClick {
                button,
                hold_ms,
                at: match at {
                    Some(p) => Some(PointDto { x: p.x, y: p.y }),
                    None => None,
                },
            },
            Step::MouseMove { to, mode, .. } => StepDto::MouseMove {
                to: PointDto { x: to.x, y: to.y },
                mode: MoveModeDto::from(&mode),
            },
            Step::MouseScroll { delta } => StepDto::MouseScroll { delta },
            Step::Wait { min_ms, max_ms } => StepDto::Wait { min_ms, max_ms },
        }
    }
}

impl vstd::std_specs::convert::FromSpecImpl<&Step> for StepDto {
    open spec fn obeys_from_spec() -> bool {
        true
    }

    open spec fn from_spec(s: &Step) -> StepDto {
        spec_step_to_dto(*s)
    }
}

impl From<StepDto> for Step {
    fn from(s: StepDto) -> (r: Step) {
        match s {
            StepDto::KeyPress { key, hold_ms } => Step::KeyPress { key, hold_ms },
            StepDto::KeyDown { key } => Step::KeyDown { key },
            StepDto::KeyUp { key } => Step::KeyUp { key },
            StepDto::MouseClick { button, hold_ms, at } => Step::MouseClick {
                button,
                hold_ms,
                at: match at {
                    Some(p) => Some(Point { x: p.x, y: p.y }),
                    None => None,
                },
            },
            StepDto::MouseMove { to, mode } => Step::MouseMove {
                to: Point { x: to.x, y: to.y },
                mode: MoveMode::from(mode),
                duration_ms: None,
            },
            StepDto::MouseScroll { delta } => Step::MouseScroll { delta },
            StepDto::Wait { min_ms, max_ms } => Step::Wait { min_ms, max_ms },
        }
    }
}

impl vstd::std_specs::convert::FromSpecImpl<StepDto> for Step {
    open spec fn obeys_from_spec() -> bool {
        true
    }

    open spec fn from_spec(s: StepDto) -> Step {
        spec_step_from_dto(s)
    }
}

/// Copies an optional string.
fn copy_opt_string(s: &Option<String>) -> (r: Option<String>)
    ensures
        r == *s,
{
    match s {
        Some(p) => Some(p.clone()),
        None => None,
    }
}

impl From<&Settings> for SettingsDto {
    fn from(s: &Settings) -> (r: SettingsDto) {
        SettingsDto {
            stop_key: s.stop_key,
            storage_root_override: copy_opt_string(&s.storage_root_override),
        }
    }
}

impl vstd::std_specs::convert::FromSpecImpl<&Settings> for SettingsDto {
    open spec fn obeys_from_spec() -> bool {
        true
    }

    open spec fn from_spec(s: &Settings) -> SettingsDto {
        SettingsDto { stop_key: s.stop_key, storage_root_override: s.storage_root_override }
    }
}

impl From<SettingsDto> for Settings {
    fn from(s: SettingsDto) -> (r: Settings) {
        Settings { stop_key: s.stop_key, storage_root_override: s.storage_root_override }
    }
}

impl vstd::std_specs::convert::FromSpecImpl<SettingsDto> for Settings {
    open spec fn obeys_from_spec() -> bool {
        true
    }

    open spec fn from_spec(s: SettingsDto) -> Settings {
        Settings { stop_key: s.stop_key, storage_root_override: s.storage_root_override }
    }
}

impl MacroDto {
    /// The summary of a macro: its fields, with the steps replaced by their
    /// count.
    pub fn from_macro(m: &Macro) -> (r: MacroDto)
        ensures
            r.id == m.id,
            r.name@ == m.name@,
            trigger_agrees(r.trigger, m.trigger),
            r.playback == spec_playback_to_dto(m.playback),
            r.step_count == m.steps@.len(),
            r.created_at == m.created_at,
            r.updated_at == m.updated_at,
    {
        MacroDto {
            id: m.id,
            name: m.name.clone(),
            trigger: TriggerDto::from_trigger(&m.trigger),
            playback: PlaybackModeDto::from(&m.playback),
            step_count: m.steps.len(),
            created_at: m.created_at,
            updated_at: m.updated_at,
        }
    }
}

/// Law (wire triggers round-trip): converting a wire trigger to the model and
/// back says the same thing as the trigger it started from.
pub proof fn lemma_trigger_roundtrip(d: TriggerDto, d2: TriggerDto)
    requires
        trigger_agrees(d2, spec_trigger_from_dto(d)),
    ensures
        trigger_dto_same(d2, d),
{
}

/// Law (model triggers round-trip through the wire).
pub proof fn lemma_trigger_model_roundtrip(t: Trigger, d: TriggerDto)
    requires
        trigger_agrees(d, t),
    ensures
        match (spec_trigger_from_dto(d), t) {
            (Trigger::Hotkey { key, modifiers }, Trigger::Hotkey { key: k2, modifiers: m2 }) => key
                == k2 && modifiers@ == m2@,
            (
                Trigger::MouseButton { button, modifiers },
                Trigger::MouseButton { button: b2, modifiers: m2 },
            ) => button == b2 && modifiers@ == m2@,
            _ => false,
        },
{
}

/// Law (playback modes round-trip through the wire, both ways).
pub proof fn lemma_playback_roundtrip(p: PlaybackMode, d: PlaybackModeDto)
    ensures
        spec_playback_from_dto(spec_playback_to_dto(p)) == p,
        spec_playback_to_dto(spec_playback_from_dto(d)) == d,
{
}

/// Law (steps round-trip through the wire): a wire step comes back
/// unchanged; a model step comes back unchanged unless it is a mouse move
/// with a duration, whose duration the wire form drops.
pub proof fn lemma_step_roundtrip(s: Step, d: StepDto)
    ensures
        spec_step_to_dto(spec_step_from_dto(d)) == d,
        !(s matches Step::MouseMove { duration_ms: Some(_), .. }) ==> spec_step_from_dto(
            spec_step_to_dto(s),
        ) == s,
{
}

} // verus!
