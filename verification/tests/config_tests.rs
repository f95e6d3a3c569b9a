use coc_attack_bot::config::{
    default_max_search_attempts, default_window_titles, AiAnalyzer, AutoAttacker, BotInfo,
    Directories, Display,
};

#[test]
fn defaults_match_the_documented_config() {
    let ai = AiAnalyzer::default();
    assert_eq!(ai.google_gemini_api_key, "REPLACE_ME_WITH_YOUR_GEMINI_API_KEY");
    assert!(!ai.enabled);
    assert_eq!(ai.min_gold, 300_000);
    assert_eq!(ai.min_elixir, 300_000);
    assert_eq!(ai.min_dark_elixir, 2_000);
    let auto = AutoAttacker::default();
    assert!(auto.attack_sessions.is_empty());
    assert_eq!(auto.max_search_attempts, 0);
    assert_eq!(default_max_search_attempts(), 10);
}

#[test]
fn default_sections() {
    let bot = BotInfo::with_version("1.2.3");
    assert_eq!(bot.name, "COC Attack Bot");
    assert_eq!(bot.version, "1.2.3");
    assert_eq!(bot.author, "COC Bot User");
    let d = Display::default();
    assert!(d.show_coordinates_on_click && d.show_progress_during_playback);
    assert_eq!(d.log_level, "INFO");
    let dirs = Directories::default();
    assert_eq!(
        [dirs.screenshots, dirs.recordings, dirs.coordinates, dirs.templates, dirs.logs],
        ["screenshots", "recordings", "coordinates", "templates", "logs"]
    );
    assert_eq!(
        default_window_titles(),
        vec!["Clash of Clans", "Google Play Games", "BlueStacks", "NoxPlayer", "LDPlayer", "MEmu"]
    );
}
