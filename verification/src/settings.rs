//! The flat configuration record consumed by the tracker and the host glue.

use vstd::prelude::*;

verus! {

/// Notification and update-checking preferences.
///
/// The tracker reads `flash_window`, `ready_check_nag` and
/// `ready_check_nag_interval_millis`; the remaining fields belong to the
/// audio, persistence and self-update glue around the library.
#[derive(Debug, Clone)]
pub struct Settings {
    pub version: u32,
    pub ready_check_path: Option<String>,
    pub squad_ready_path: Option<String>,
    pub ready_check_volume: i32,
    pub squad_ready_volume: i32,
    pub flash_window: bool,
    pub ready_check_nag: bool,
    pub ready_check_nag_in_combat: bool,
    /// Delay between nag reminders, in milliseconds. A negative value is
    /// treated as zero wherever a deadline is computed from it.
    pub ready_check_nag_interval_millis: i64,
    pub audio_output_device: Option<String>,
    pub check_for_updates: bool,
    pub include_prereleases: bool,
}

/// Default volume percentage for both notification sounds.
pub fn default_volume() -> (v: i32)
    ensures
        v == 100,
{
    100
}

/// Default for the settings flags that start out enabled.
pub fn default_true() -> (v: bool)
    ensures
        v,
{
    true
}

/// Default delay between nag reminders, in milliseconds.
pub fn default_nag_interval_millis() -> (v: i64)
    ensures
        v == 5000,
{
    5000
}

impl Default for Settings {
    /// The configuration used until a settings file has been loaded.
    fn default() -> (s: Settings)
        ensures
            s.version == 1,
            s.ready_check_path is None,
            s.squad_ready_path is None,
            s.ready_check_volume == 100,
            s.squad_ready_volume == 100,
            s.flash_window,
            !s.ready_check_nag,
            !s.ready_check_nag_in_combat,
            s.ready_check_nag_interval_millis == 5000,
            s.audio_output_device is None,
            s.check_for_updates,
            !s.include_prereleases,
    {
        Settings {
            version: 1,
            ready_check_path: None,
            squad_ready_path: None,
            ready_check_volume: default_volume(),
            squad_ready_volume: default_volume(),
            flash_window: default_true(),
            ready_check_nag: false,
            ready_check_nag_in_combat: false,
            ready_check_nag_interval_millis: default_nag_interval_millis(),
            audio_output_device: None,
            check_for_updates: default_true(),
            include_prereleases: false,
        }
    }
}

} // verus!
