use coc_attack_bot::ctrlc_like::set_handler;
use coc_attack_bot::hotkeys::{
    emergency_stop_pressed, keep_waiting, key_down, VK_CONTROL, VK_ESCAPE, VK_F1, VK_F9, VK_MENU,
    VK_S,
};
use coc_attack_bot::config::AiAnalyzer;
use coc_attack_bot::ui::{
    add_session, ai_setup_begin, ai_setup_key, ai_setup_tested, is_no, is_yes, menu_choice,
    needs_api_key, parse_u64, parse_usize, pick_session, read_minimum, AiSetupAction, Pick,
};

#[test]
fn hotkey_rules() {
    assert_eq!((VK_ESCAPE, VK_F1, VK_F9, VK_CONTROL, VK_MENU, VK_S), (0x1B, 0x70, 0x78, 0x11, 0x12, 0x53));
    assert!(emergency_stop_pressed(true, true, true));
    assert!(!emergency_stop_pressed(true, false, true));
    assert!(key_down(0x8001));
    assert!(!key_down(0x0001));
    assert!(keep_waiting(true, 980, 1000));
    assert!(!keep_waiting(true, 1000, 1000));
    assert!(!keep_waiting(false, 0, 1000));
}

#[test]
fn answers() {
    assert!(is_yes(" Y\n"));
    assert!(!is_yes("yes"));
    assert!(is_no("n"));
    assert!(!is_no(""));
}

#[test]
fn numbers_parse_like_std() {
    for s in ["0", "+5", "", "+", "-1", " 5", "18446744073709551615", "18446744073709551616", "12a", "007"] {
        assert_eq!(parse_u64(s), s.parse::<u64>().ok(), "{s:?}");
        assert_eq!(parse_usize(s), s.parse::<usize>().ok(), "{s:?}");
    }
}

#[test]
fn session_picks() {
    assert_eq!(pick_session(" 2 \n", 3), Pick::Index(1));
    assert_eq!(pick_session("0", 3), Pick::Finish);
    assert_eq!(pick_session(" 0\n", 3), Pick::Finish);
    assert_eq!(pick_session("00", 3), Pick::OutOfRange);
    assert_eq!(pick_session("4", 3), Pick::OutOfRange);
    assert_eq!(pick_session("two", 3), Pick::NotANumber);
    let mut selected = vec!["a".to_string()];
    assert!(add_session(&mut selected, "b".to_string()));
    assert!(!add_session(&mut selected, "a".to_string()));
    assert_eq!(selected, vec!["a", "b"]);
}

#[test]
fn setup_rules() {
    assert!(needs_api_key(""));
    assert!(needs_api_key("REPLACE_ME_WITH_YOUR_GEMINI_API_KEY"));
    assert!(!needs_api_key("AIza123"));
    assert_eq!(read_minimum(" 1500\n", 300_000), 1500);
    assert_eq!(read_minimum("\n", 300_000), 300_000);
    assert_eq!(menu_choice(" 4\n", 9), Some(4));
    assert_eq!(menu_choice("7", 6), None);
    assert_eq!(menu_choice("0", 9), None);
    assert_eq!(menu_choice("12", 9), None);
    assert_eq!(set_handler(|| {}), Ok(()));
}

#[test]
fn decimal_round_trips_through_parse() {
    for n in [0u64, 9, 10, 4096, 300_000, u64::MAX] {
        let mut s = String::new();
        coc_attack_bot::text::push_decimal(&mut s, n);
        assert_eq!(parse_u64(&s), Some(n));
    }
}

fn ai_settings(key: &str) -> AiAnalyzer {
    AiAnalyzer {
        google_gemini_api_key: key.to_string(),
        enabled: false,
        min_gold: 1,
        min_elixir: 2,
        min_dark_elixir: 3,
    }
}

#[test]
fn ai_setup_with_a_configured_key_tests_it() {
    let mut ai = ai_settings("AIza123");
    match ai_setup_begin(&mut ai, " Y ") {
        AiSetupAction::TestConnection(k) => assert_eq!(k, "AIza123"),
        other => panic!("unexpected {other:?}"),
    }
    assert!(ai.enabled);
    ai_setup_tested(&mut ai, true);
    assert!(ai.enabled);
    ai_setup_tested(&mut ai, false);
    assert!(!ai.enabled);
    assert_eq!((ai.google_gemini_api_key.as_str(), ai.min_gold, ai.min_elixir, ai.min_dark_elixir), ("AIza123", 1, 2, 3));
}

#[test]
fn ai_setup_asks_for_a_missing_key() {
    let mut ai = ai_settings("REPLACE_ME_WITH_YOUR_GEMINI_API_KEY");
    assert!(matches!(ai_setup_begin(&mut ai, ""), AiSetupAction::AskKey));
    assert!(ai.enabled);
    match ai_setup_key(&mut ai, "  new-key \n") {
        AiSetupAction::TestConnection(k) => assert_eq!(k, "new-key"),
        other => panic!("unexpected {other:?}"),
    }
    assert_eq!(ai.google_gemini_api_key, "new-key");
    assert!(ai.enabled);

    let mut ai = ai_settings("");
    assert!(matches!(ai_setup_begin(&mut ai, "yes"), AiSetupAction::AskKey));
    assert!(matches!(ai_setup_key(&mut ai, "   "), AiSetupAction::Done));
    assert!(!ai.enabled);
    assert_eq!(ai.google_gemini_api_key, "");
}

#[test]
fn ai_setup_answer_no_turns_ai_off() {
    let mut ai = ai_settings("AIza123");
    ai.enabled = true;
    assert!(matches!(ai_setup_begin(&mut ai, " n"), AiSetupAction::Done));
    assert!(!ai.enabled);
    assert_eq!(ai.google_gemini_api_key, "AIza123");
}
