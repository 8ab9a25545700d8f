//! `config.json`: the application's user-interface state (not the loader's):
//! last target folder, whether authenticated access was on, and the share
//! user. The share password is never stored here.
use vstd::prelude::*;
use crate::text::push_str;

verus! {

/// Schema version of `config.json`.
pub const SETTINGS_VERSION: u32 = 1;

/// State kept between runs; non-sensitive fields only.
#[derive(Debug, Clone, PartialEq, Eq)]
pub struct AppSettings {
    pub version: u32,
    /// Last target folder chosen.
    pub last_target_dir: Option<String>,
    /// Whether authenticated access was switched on.
    pub auth_required: bool,
    /// Share user (the folder's owner). Never with a password.
    pub auth_username: Option<String>,
}

impl Default for AppSettings {
    fn default() -> (r: Self)
        ensures
            r.version == SETTINGS_VERSION,
            r.last_target_dir is None,
            !r.auth_required,
            r.auth_username is None,
    {
        AppSettings {
            version: SETTINGS_VERSION,
            last_target_dir: None,
            auth_required: false,
            auth_username: None,
        }
    }
}

/// Port of the interface state's persistence. `load` never fails: a missing
/// or broken file gives the default.
pub trait SettingsStore {
    /// Reads the user's settings, or the default when missing or broken.
    fn load(&self) -> AppSettings;

    /// Writes the user's settings (best effort in the interface).
    fn save(&self, settings: &AppSettings) -> Result<(), SettingsError>;
}

/// Failure writing the settings.
#[derive(Debug, Clone, PartialEq, Eq)]
pub enum SettingsError {
    /// I/O failure creating the folder or writing the file.
    Io(String),
    /// Failure serializing the settings to JSON.
    Serialize(String),
}

impl SettingsError {
    /// The message shown for the error.
    pub fn message(&self) -> (r: String)
        ensures
            r@ == (match self {
                SettingsError::Io(m) => "falha de I/O no config.json: "@ + m@,
                SettingsError::Serialize(m) => "config.json não serializável: "@ + m@,
            }),
    {
        match self {
            SettingsError::Io(m) => {
                let mut s = "falha de I/O no config.json: ".to_owned();
                push_str(&mut s, m.as_str());
                s
            },
            SettingsError::Serialize(m) => {
                let mut s = "config.json não serializável: ".to_owned();
                push_str(&mut s, m.as_str());
                s
            },
        }
    }
}

} // verus!
