//! The float-free parts of the bot's configuration and their defaults.
use vstd::prelude::*;
use vstd::string::*;

verus! {

pub struct BotInfo {
    pub name: String,
    pub version: String,
    pub author: String,
}

impl BotInfo {
    /// The default identity, carrying the given build version.
    pub fn with_version(version: &str) -> (r: BotInfo)
        ensures
            r.name@ == "COC Attack Bot"@,
            r.version@ == version@,
            r.author@ == "COC Bot User"@,
    {
        BotInfo {
            name: String::from_str("COC Attack Bot"),
            version: String::from_str(version),
            author: String::from_str("COC Bot User"),
        }
    }
}

pub struct Display {
    pub show_coordinates_on_click: bool,
    pub show_progress_during_playback: bool,
    pub log_level: String,
}

impl Default for Display {
    fn default() -> (r: Display)
        ensures
            r.show_coordinates_on_click,
            r.show_progress_during_playback,
            r.log_level@ == "INFO"@,
    {
        Display {
            show_coordinates_on_click: true,
            show_progress_during_playback: true,
            log_level: String::from_str("INFO"),
        }
    }
}

pub struct Directories {
    pub screenshots: String,
    pub recordings: String,
    pub coordinates: String,
    pub templates: String,
    pub logs: String,
}

impl Default for Directories {
    fn default() -> (r: Directories)
        ensures
            r.screenshots@ == "screenshots"@,
            r.recordings@ == "recordings"@,
            r.coordinates@ == "coordinates"@,
            r.templates@ == "templates"@,
            r.logs@ == "logs"@,
    {
        Directories {
            screenshots: String::from_str("screenshots"),
            recordings: String::from_str("recordings"),
            coordinates: String::from_str("coordinates"),
            templates: String::from_str("templates"),
            logs: String::from_str("logs"),
        }
    }
}

/// Settings of the AI base analysis.
pub struct AiAnalyzer {
    pub google_gemini_api_key: String,
    pub enabled: bool,
    pub min_gold: u64,
    pub min_elixir: u64,
    pub min_dark_elixir: u64,
}

impl Default for AiAnalyzer {
    fn default() -> (r: AiAnalyzer)
        ensures
            r.google_gemini_api_key@ == "REPLACE_ME_WITH_YOUR_GEMINI_API_KEY"@,
            !r.enabled,
            r.min_gold == 300_000,
            r.min_elixir == 300_000,
            r.min_dark_elixir == 2_000,
    {
        AiAnalyzer {
            google_gemini_api_key: String::from_str("REPLACE_ME_WITH_YOUR_GEMINI_API_KEY"),
            enabled: false,
            min_gold: 300_000,
            min_elixir: 300_000,
            min_dark_elixir: 2_000,
        }
    }
}

/// Settings of the auto-attack loop.
pub struct AutoAttacker {
    pub attack_sessions: Vec<String>,
    pub max_search_attempts: u32,
}

impl Default for AutoAttacker {
    /// No sessions and a zero attempt count, as a derived `Default` gives;
    /// a config file that lacks only the attempt count gets
    /// [`default_max_search_attempts`] instead.
    fn default() -> (r: AutoAttacker)
        ensures
            r.attack_sessions@.len() == 0,
            r.max_search_attempts == 0,
    {
        AutoAttacker { attack_sessions: Vec::new(), max_search_attempts: 0 }
    }
}

/// The attempt count used when the config file leaves it out.
pub fn default_max_search_attempts() -> (r: u32)
    ensures
        r == 10,
{
    10
}

/// Window titles the game may run under, by default.
pub fn default_window_titles() -> (r: Vec<String>)
    ensures
        r@.len() == 6,
        r@[0]@ == "Clash of Clans"@,
        r@[1]@ == "Google Play Games"@,
        r@[2]@ == "BlueStacks"@,
        r@[3]@ == "NoxPlayer"@,
        r@[4]@ == "LDPlayer"@,
        r@[5]@ == "MEmu"@,
{
    let mut v: Vec<String> = Vec::new();
    v.push(String::from_str("Clash of Clans"));
    v.push(String::from_str("Google Play Games"));
    v.push(String::from_str("BlueStacks"));
    v.push(String::from_str("NoxPlayer"));
    v.push(String::from_str("LDPlayer"));
    v.push(String::from_str("MEmu"));
    v
}

} // verus!
