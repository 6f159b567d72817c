//! The plain-data parts of the editor configuration.
//!
//! Loading and saving the configuration file, and the sections carrying
//! fractional display values (font size, transparency), live in the
//! embedding application; the sections here are plain values the core
//! can own.

use vstd::prelude::*;

verus! {

/// Settings of the assistant integration.
#[derive(Debug, Clone)]
pub struct AiConfig {
    pub provider: String,
    pub model: String,
    pub api_key: Option<String>,
    pub auto_complete: bool,
}

/// The keybinding strings for the main commands.
#[derive(Debug, Clone)]
pub struct KeybindingsConfig {
    pub save: String,
    pub open: String,
    pub find: String,
    pub command_palette: String,
}

impl Default for AiConfig {
    fn default() -> (r: Self)
        ensures
            r.provider@ == "gemini"@,
            r.model@ == "gemini-pro"@,
            (r.api_key is None),
            r.auto_complete,
    {
        AiConfig {
            provider: "gemini".to_owned(),
            model: "gemini-pro".to_owned(),
            api_key: None,
            auto_complete: true,
        }
    }
}

impl Default for KeybindingsConfig {
    fn default() -> (r: Self)
        ensures
            r.save@ == "Ctrl+S"@,
            r.open@ == "Ctrl+O"@,
            r.find@ == "Ctrl+F"@,
            r.command_palette@ == "Ctrl+Shift+P"@,
    {
        KeybindingsConfig {
            save: "Ctrl+S".to_owned(),
            open: "Ctrl+O".to_owned(),
            find: "Ctrl+F".to_owned(),
            command_palette: "Ctrl+Shift+P".to_owned(),
        }
    }
}

} // verus!
