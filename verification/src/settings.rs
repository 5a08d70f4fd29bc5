//! Persistent application settings.

use vstd::prelude::*;

use crate::input::KeyCode;

verus! {

/// Application settings.
#[derive(Debug, Clone, PartialEq)]
pub struct Settings {
    /// Key that ends an in-app recording and stops a running playback.
    pub stop_key: KeyCode,
    /// Storage root to use instead of the default one, as a path string.
    pub storage_root_override: Option<String>,
}

/// The default stop key: F10.
pub fn default_stop_key() -> (r: KeyCode)
    ensures
        r == KeyCode::F10,
{
    KeyCode::F10
}

impl Default for Settings {
    /// F10 as the stop key, no storage override.
    fn default() -> (r: Settings)
        ensures
            r.stop_key == KeyCode::F10,
            r.storage_root_override is None,
    {
        Settings { stop_key: default_stop_key(), storage_root_override: None }
    }
}

} // verus!
