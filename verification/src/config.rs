//! Launcher configuration values. Reading and writing the settings file is
//! outside work; this module owns the shape of the configuration and its
//! defaults.
use vstd::prelude::*;

use crate::version::MinecraftVersion;

verus! {

/// Per-launch user options.
#[derive(Debug, Clone, PartialEq, Eq)]
pub struct LaunchOptions {
    pub username: String,
    pub ram_usage: u64,
}

/// Launcher-wide settings.
#[derive(Debug, Clone, PartialEq, Eq)]
pub struct LauncherSettings {
    pub language: String,
}

/// The launcher's configuration: user options, the known versions, and the
/// launcher-wide settings. The version list is derived from disk, never
/// persisted with the rest.
#[derive(Debug, Clone)]
pub struct Config {
    pub launch_options: LaunchOptions,
    pub versions: Vec<MinecraftVersion>,
    pub launcher_settings: LauncherSettings,
}

/// The configuration used until the settings file says otherwise: a default
/// player name, a two-gigabyte heap, English, and whatever versions the
/// caller discovered on disk.
pub fn default_config(versions: Vec<MinecraftVersion>) -> (r: Config)
    ensures
        r.launch_options.username@ == "Steve"@,
        r.launch_options.ram_usage == 2048,
        r.launcher_settings.language@ == "en"@,
        r.versions@ == versions@,
{
    Config {
        launch_options: LaunchOptions { username: "Steve".to_owned(), ram_usage: 2048 },
        versions,
        launcher_settings: LauncherSettings { language: "en".to_owned() },
    }
}

} // verus!
