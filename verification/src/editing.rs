//! Creating and editing macros: what the create, update and record commands
//! compute before the result is stored, and the names of the files they are
//! stored in.

use vstd::prelude::*;

use crate::error::AppError;
use crate::ids::{id_text, now, spec_id_text};
use crate::input::{KeyCode, Modifier};
use crate::macro_def::{spec_macro_error, Macro, PlaybackMode, Step, Trigger};

verus! {

/// A new macro from its parts, validated: a fresh id, both timestamps set to
/// now. A validation failure is reported as `AppError::Other` with the
/// validation message.
pub fn create_macro(name: String, trigger: Trigger, playback: PlaybackMode, steps: Vec<Step>) -> (r:
    Result<Macro, AppError>)
    ensures
        r is Ok <==> spec_macro_error(name@, steps@) is None,
        r matches Ok(m) ==> m.name == name && m.trigger == trigger && m.playback == playback
            && m.steps@ == steps@ && m.created_at == m.updated_at && m.id != 0 && (m.id >> 76u128)
            & 0xfu128 == 4u128 && (m.id >> 62u128) & 0x3u128 == 2u128,
        r matches Err(e) ==> e matches AppError::Other(msg) && spec_macro_error(name@, steps@)
            == Some(msg@),
{
    let mut m = Macro::new(name, trigger, playback);
    m.steps = steps;
    match m.validate() {
        Ok(()) => Ok(m),
        Err(msg) => Err(AppError::Other(msg)),
    }
}

/// Replaces name, trigger and playback mode and stamps the update time; the
/// id, creation time and steps stay. Nothing is validated here.
pub fn update_macro_metadata(m: Macro, name: String, trigger: Trigger, playback: PlaybackMode) -> (r:
    Macro)
    ensures
        r.id == m.id,
        r.created_at == m.created_at,
        r.steps == m.steps,
        r.name == name,
        r.trigger == trigger,
        r.playback == playback,
{
    let mut m = m;
    m.name = name;
    m.trigger = trigger;
    m.playback = playback;
    m.updated_at = now();
    m
}

/// Replaces name, trigger, playback mode and steps, stamps the update time,
/// and validates the result (a failure is `AppError::Other` with the
/// validation message).
pub fn update_macro_full(
    m: Macro,
    name: String,
    trigger: Trigger,
    playback: PlaybackMode,
    steps: Vec<Step>,
) -> (r: Result<Macro, AppError>)
    ensures
        r is Ok <==> spec_macro_error(name@, steps@) is None,
        r matches Ok(u) ==> u.id == m.id && u.created_at == m.created_at && u.name == name
            && u.trigger == trigger && u.playback == playback && u.steps@ == steps@,
        r matches Err(e) ==> e matches AppError::Other(msg) && spec_macro_error(name@, steps@)
            == Some(msg@),
{
    let mut u = m;
    u.name = name;
    u.trigger = trigger;
    u.playback = playback;
    u.steps = steps;
    u.updated_at = now();
    match u.validate() {
        Ok(()) => Ok(u),
        Err(msg) => Err(AppError::Other(msg)),
    }
}

/// A macro recorded from the command line: refused when nothing was
/// recorded; otherwise named `name`, triggered by Ctrl+F1, played once.
pub fn recorded_macro(name: String, steps: Vec<Step>) -> (r: Result<Macro, AppError>)
    ensures
        steps@.len() == 0 <==> r is Err,
        r matches Err(e) ==> e matches AppError::Other(msg) && msg@ == "no events recorded"@,
        r matches Ok(m) ==> m.name == name && m.steps@ == steps@ && m.playback
            == PlaybackMode::Once && (m.trigger matches Trigger::Hotkey { key, modifiers } && key
            == KeyCode::F1 && modifiers@ == seq![Modifier::Ctrl]) && m.created_at == m.updated_at
            && m.id != 0 && (m.id >> 76u128) & 0xfu128 == 4u128 && (m.id >> 62u128) & 0x3u128
            == 2u128,
{
    if steps.len() == 0 {
        return Err(AppError::Other(String::from_str("no events recorded")));
    }
    let mut modifiers: Vec<Modifier> = Vec::new();
    modifiers.push(Modifier::Ctrl);
    let mut m = Macro::new(
        name,
        Trigger::Hotkey { key: KeyCode::F1, modifiers },
        PlaybackMode::Once,
    );
    m.steps = steps;
    Ok(m)
}

/// The playback mode the command line plays a macro with: it has no stop
/// signal, so `Loop` and `Toggle` run once; other modes are kept.
pub open spec fn spec_cli_playback(mode: PlaybackMode) -> PlaybackMode {
    match mode {
        PlaybackMode::Loop | PlaybackMode::Toggle => PlaybackMode::Once,
        _ => mode,
    }
}

/// The playback mode the command line plays a macro with.
pub fn cli_playback(mode: PlaybackMode) -> (r: PlaybackMode)
    ensures
        r == spec_cli_playback(mode),
{
    match mode {
        PlaybackMode::Loop | PlaybackMode::Toggle => PlaybackMode::Once,
        _ => mode,
    }
}

/// The error for a macro id that is not stored; it names the id in its
/// hyphenated text form.
pub fn macro_not_found(id: u128) -> (r: AppError)
    ensures
        r matches AppError::MacroNotFound(s) && s@ == spec_id_text(id),
{
    AppError::MacroNotFound(id_text(id))
}

/// The directory, under the storage root, that holds the macro files.
pub const MACROS_DIR_NAME: &'static str = "macros";

/// The settings file, under the storage root.
pub const SETTINGS_FILE_NAME: &'static str = "settings.json";

/// The file, under the storage root, whose presence says that a driver
/// install or uninstall waits for a reboot.
pub const PENDING_MARKER_FILE_NAME: &'static str = ".driver-install-pending";

/// The file a macro is stored in, inside the macros directory: its id's
/// text followed by `.json`.
pub fn macro_file_name(id: u128) -> (r: String)
    ensures
        r@ == spec_id_text(id) + ".json"@,
{
    let mut r = id_text(id);
    r.append(".json");
    r
}

} // verus!
