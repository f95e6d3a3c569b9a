use coc_attack_bot::ai_analyzer::{
    build_prompt, conclude_analysis, error_response, inline_image, reply_text,
    strip_markdown_fence, Analysis, AnalysisAttempt, Json, Loot,
};

#[test]
fn fences_are_stripped() {
    assert_eq!(strip_markdown_fence("```json\n{\"a\":1}\n```"), "{\"a\":1}");
    assert_eq!(strip_markdown_fence("  ```\n{}\n```  "), "{}");
    assert_eq!(strip_markdown_fence("{\"x\": 2}"), "{\"x\": 2}");
    assert_eq!(strip_markdown_fence("```json```"), "");
    assert_eq!(strip_markdown_fence("  text ``` "), "text");
}

#[test]
fn error_response_is_a_skip() {
    let a = error_response("boom");
    assert_eq!(a.loot, Loot::default());
    assert_eq!(a.townhall_level, 0);
    assert_eq!(a.difficulty, "Unknown");
    assert_eq!(a.recommendation, "SKIP");
    assert_eq!(a.reasoning, "Error: boom");
    assert!(a.error);
}

fn answer() -> Analysis {
    Analysis {
        loot: Loot { gold: 1, elixir: 2, dark_elixir: 3 },
        townhall_level: 9,
        difficulty: "Easy".to_string(),
        recommendation: "ATTACK".to_string(),
        reasoning: "ok".to_string(),
        error: false,
    }
}

#[test]
fn attempts_conclude() {
    let a = conclude_analysis(AnalysisAttempt::Answered(answer()));
    assert_eq!(a.loot.gold, 1);
    assert!(!a.error);
    assert_eq!(conclude_analysis(AnalysisAttempt::ImageUnreadable).reasoning, "Error: Failed to encode image");
    assert_eq!(conclude_analysis(AnalysisAttempt::NoAnswer).reasoning, "Error: Failed to get AI response");
    let failed = conclude_analysis(AnalysisAttempt::Failed("timeout".to_string()));
    assert_eq!(failed.reasoning, "Error: Analysis error: timeout");
    assert!(failed.error);
}

#[test]
fn prompt_carries_the_minimums() {
    let p = build_prompt(300000, 250000, 2000);
    assert!(p.starts_with("\nYou are an expert Clash of Clans player"));
    assert!(p.contains("- Minimum Gold: 300000\n- Minimum Elixir: 250000\n- Minimum Dark Elixir: 2000\n"));
    assert!(p.contains("\"recommendation\": \"ATTACK/SKIP\","));
    assert!(p.ends_with("TH level E\"\n}\n"));
}

fn s(x: &str) -> String {
    x.to_string()
}

#[test]
fn reply_text_follows_the_candidate_path() {
    let reply = Json::Object(vec![
        (s("modelVersion"), Json::Str(s("x"))),
        (
            s("candidates"),
            Json::Array(vec![Json::Object(vec![(
                s("content"),
                Json::Object(vec![(
                    s("parts"),
                    Json::Array(vec![Json::Object(vec![(s("text"), Json::Str(s("{\"a\":1}")))])]),
                )]),
            )])]),
        ),
    ]);
    assert_eq!(reply_text(&reply), Some(s("{\"a\":1}")));
    let no_text = Json::Object(vec![(s("candidates"), Json::Array(vec![]))]);
    assert_eq!(reply_text(&no_text), None);
    let number = Json::Object(vec![(
        s("candidates"),
        Json::Array(vec![Json::Object(vec![(
            s("content"),
            Json::Object(vec![(
                s("parts"),
                Json::Array(vec![Json::Object(vec![(s("text"), Json::Number(s("5")))])]),
            )]),
        )])]),
    )]);
    assert_eq!(reply_text(&number), None);
    assert_eq!(reply_text(&Json::Null), None);
}

#[test]
fn images_are_sent_in_base64() {
    let img = inline_image(b"Man");
    assert_eq!(img.mime_type, "image/png");
    assert_eq!(img.data, "TWFu");
    assert_eq!(inline_image(b"Ma").data, "TWE=");
    assert_eq!(inline_image(b"M").data, "TQ==");
    assert_eq!(inline_image(&[0xff, 0xfe, 0x00, 0x3e]).data, "//4APg==");
    assert_eq!(inline_image(&[]).data, "");
}

#[test]
fn unfenced_text_has_no_outer_white_space() {
    for s in ["```json\n  {\"a\": 1}  \n```", " ``` x ``` ", "\t{}\n"] {
        let out = strip_markdown_fence(s);
        assert_eq!(out.trim(), out);
    }
    for n in 0..8usize {
        let bytes = vec![7u8; n];
        assert_eq!(inline_image(&bytes).data.len(), (n / 3) * 4 + if n % 3 > 0 { 4 } else { 0 });
    }
}
