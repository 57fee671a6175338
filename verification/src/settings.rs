//! The application settings record and its defaults.  Reading and
//! writing the settings file, and validating storage directories, are
//! file-system work that lives at the process edge.

use vstd::prelude::*;

verus! {

/// The persisted settings: the configured durations, an optional
/// custom storage directory, and the cosmetic preferences.
#[derive(Debug, Clone, PartialEq, Eq)]
pub struct Settings {
    /// Focus session duration in seconds.
    pub focus_duration: u32,
    /// Break duration in seconds.
    pub break_duration: u32,
    /// Custom storage path for sessions; `None` means the system
    /// default.
    pub storage_path: Option<String>,
    /// Whether notification audio is enabled.
    pub audio_enabled: bool,
    /// The selected companion character.
    pub character: String,
}

/// The default focus duration: 25 minutes.
pub fn default_focus_duration() -> (r: u32)
    ensures
        r == 1500,
{
    1500
}

/// The default break duration: 5 minutes.
pub fn default_break_duration() -> (r: u32)
    ensures
        r == 300,
{
    300
}

/// Audio is enabled by default.
pub fn default_audio_enabled() -> (r: bool)
    ensures
        r,
{
    true
}

/// The default companion character.
pub fn default_character() -> (r: String)
    ensures
        r@ == "cat"@,
{
    String::from_str("cat")
}

impl Default for Settings {
    /// The settings of a fresh install.
    fn default() -> (r: Self)
        ensures
            r.focus_duration == 1500,
            r.break_duration == 300,
            r.storage_path is None,
            r.audio_enabled,
            r.character@ == "cat"@,
    {
        Settings {
            focus_duration: default_focus_duration(),
            break_duration: default_break_duration(),
            storage_path: None,
            audio_enabled: default_audio_enabled(),
            character: default_character(),
        }
    }
}

/// The path of the settings file under a data directory.
pub fn get_settings_file_path(data_dir: &str) -> (r: String)
    ensures
        r@ == data_dir@ + "/settings.json"@,
{
    let mut s = String::from_str(data_dir);
    s.append("/settings.json");
    s
}

} // verus!
