//! Application errors and their wire form.

use vstd::prelude::*;

verus! {

/// Errors that the application reports.
#[derive(Debug, Clone, PartialEq, Eq)]
pub enum AppError {
    DriverNotInstalled,
    DriverNotRunning,
    DriverIo(String),
    MacroNotFound(String),
    RecordingActive,
    PlaybackActive,
    /// A file-system failure at `path`, with the system's message.
    Io { path: String, message: String },
    Serde(String),
    Other(String),
}

/// The stable name of an error's kind.
pub open spec fn spec_error_kind(e: AppError) -> Seq<char> {
    match e {
        AppError::DriverNotInstalled => "DriverNotInstalled"@,
        AppError::DriverNotRunning => "DriverNotRunning"@,
        AppError::DriverIo(_) => "DriverIo"@,
        AppError::MacroNotFound(_) => "MacroNotFound"@,
        AppError::RecordingActive => "RecordingActive"@,
        AppError::PlaybackActive => "PlaybackActive"@,
        AppError::Io { .. } => "Io"@,
        AppError::Serde(_) => "Serde"@,
        AppError::Other(_) => "Other"@,
    }
}

/// The human-readable message of an error.
pub open spec fn spec_error_message(e: AppError) -> Seq<char> {
    match e {
        AppError::DriverNotInstalled => "Interception driver is not installed"@,
        AppError::DriverNotRunning => "Interception driver is installed but not running"@,
        AppError::DriverIo(s) => "Driver I/O failed: "@ + s@,
        AppError::MacroNotFound(s) => "Macro not found: "@ + s@,
        AppError::RecordingActive => "A recording is already in progress"@,
        AppError::PlaybackActive => "A playback is already in progress"@,
        AppError::Io { path, message } => "I/O error at "@ + path@ + ": "@ + message@,
        AppError::Serde(s) => "Serialization error: "@ + s@,
        AppError::Other(s) => s@,
    }
}

/// An error as sent to a user interface: its kind and its message.
#[derive(Debug, Clone, PartialEq, Eq)]
pub struct WireError {
    pub kind: &'static str,
    pub message: String,
}

/// `prefix` followed by `s`.
fn prefixed(prefix: &str, s: &String) -> (r: String)
    ensures
        r@ == prefix@ + s@,
{
    let mut r = String::from_str(prefix);
    r.append(s.as_str());
    r
}

impl AppError {
    /// The stable name of the error's kind.
    pub fn kind(&self) -> (r: &'static str)
        ensures
            r@ == spec_error_kind(*self),
    {
        match self {
            AppError::DriverNotInstalled => "DriverNotInstalled",
            AppError::DriverNotRunning => "DriverNotRunning",
            AppError::DriverIo(_) => "DriverIo",
            AppError::MacroNotFound(_) => "MacroNotFound",
            AppError::RecordingActive => "RecordingActive",
            AppError::PlaybackActive => "PlaybackActive",
            AppError::Io { .. } => "Io",
            AppError::Serde(_) => "Serde",
            AppError::Other(_) => "Other",
        }
    }

    /// The human-readable message of the error.
    pub fn message(&self) -> (r: String)
        ensures
            r@ == spec_error_message(*self),
    {
        match self {
            AppError::DriverNotInstalled => String::from_str("Interception driver is not installed"),
            AppError::DriverNotRunning => String::from_str(
                "Interception driver is installed but not running",
            ),
            AppError::DriverIo(s) => prefixed("Driver I/O failed: ", s),
            AppError::MacroNotFound(s) => prefixed("Macro not found: ", s),
            AppError::RecordingActive => String::from_str("A recording is already in progress"),
            AppError::PlaybackActive => String::from_str("A playback is already in progress"),
            AppError::Io { path, message } => {
                let mut r = prefixed("I/O error at ", path);
                r.append(": ");
                r.append(message.as_str());
                r
            },
            AppError::Serde(s) => prefixed("Serialization error: ", s),
            AppError::Other(s) => String::from_str(s.as_str()),
        }
    }

    /// The wire form: kind and message.
    pub fn to_wire(&self) -> (r: WireError)
        ensures
            r.kind@ == spec_error_kind(*self),
            r.message@ == spec_error_message(*self),
    {
        WireError { kind: self.kind(), message: self.message() }
    }
}

} // verus!
