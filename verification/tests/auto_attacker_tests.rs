use coc_attack_bot::ai_analyzer::{error_response, Analysis, Loot};
use coc_attack_bot::auto_attacker::{
    loot_acceptable, next_session, required_button_list, required_buttons, start_decision,
    AttackMachine, AttackPlan, Buttons, Command, Event, Phase, Sample, StartDecision, Stats,
};
use coc_attack_bot::config;
use coc_attack_bot::coordinate_mapper::{Coord, CoordMap};

fn c(x: i32) -> Coord {
    Coord { x, y: x }
}

fn all_buttons() -> Buttons {
    Buttons {
        attack: Some(c(1)),
        find_a_match: Some(c(2)),
        next_button: Some(c(3)),
        return_home: Some(c(4)),
        end_button: Some(c(5)),
    }
}

fn plan(ai: bool, sessions: &[&str], max: u32) -> AttackPlan {
    AttackPlan {
        ai_enabled: ai,
        min_gold: 100,
        min_elixir: 200,
        min_dark_elixir: 3,
        sessions: sessions.iter().map(|s| s.to_string()).collect(),
        max_search_attempts: max,
    }
}

fn run(now: u64) -> Sample {
    Sample { running: true, emergency: false, now, jitter: 3 }
}

fn analysis(th: u32, rec: &str) -> Analysis {
    Analysis {
        loot: Loot { gold: 500_000, elixir: 500_000, dark_elixir: 5_000 },
        townhall_level: th,
        difficulty: "Easy".to_string(),
        recommendation: rec.to_string(),
        reasoning: String::new(),
        error: false,
    }
}

fn click_at(cmd: &Command) -> (Coord, u64) {
    match cmd {
        Command::Click { at, settle_millis } => (*at, *settle_millis),
        _ => panic!("expected a click"),
    }
}

#[test]
fn stats_and_buttons() {
    assert_eq!(Stats::default().total_attacks, 0);
    let list = required_button_list();
    assert_eq!(list.len(), 5);
    assert_eq!(list[1], ("find_a_match", "Find match/search button in attack screen"));
    let m = required_buttons();
    assert_eq!(m.len(), 5);
    assert_eq!(m["end_button"], "End battle button (restart search loop)");
    assert_eq!(m["attack"], "Main attack button on home screen");
}

#[test]
fn sessions_rotate() {
    let sessions = vec!["a".to_string(), "b".to_string()];
    let mut idx = 0;
    assert_eq!(next_session(&mut idx, &sessions), "a");
    assert_eq!(next_session(&mut idx, &sessions), "b");
    assert_eq!(next_session(&mut idx, &sessions), "a");
    assert_eq!(idx, 1);
    let mut idx2 = 3;
    assert_eq!(next_session(&mut idx2, &Vec::new()), "");
    assert_eq!(idx2, 3);
}

#[test]
fn loot_judgement() {
    assert!(loot_acceptable(&analysis(12, "attack")));
    assert!(!loot_acceptable(&analysis(13, "ATTACK")));
    assert!(!loot_acceptable(&analysis(10, "SKIP")));
    assert!(!loot_acceptable(&error_response("x")));
}

#[test]
fn starting_a_run() {
    assert_eq!(start_decision(true, 3), StartDecision::AlreadyRunning);
    assert_eq!(start_decision(false, 0), StartDecision::NoSessions);
    assert_eq!(start_decision(false, 1), StartDecision::Start);
}

#[test]
fn buttons_and_plan_from_config() {
    let mut m = CoordMap::new();
    m.insert("attack".to_string(), c(7));
    m.insert("end_button".to_string(), c(8));
    let b = Buttons::from_map(&m);
    assert_eq!(b.attack, Some(c(7)));
    assert_eq!(b.end_button, Some(c(8)));
    assert_eq!(b.find_a_match, None);
    let ai = config::AiAnalyzer::default();
    let mut auto = config::AutoAttacker::default();
    auto.attack_sessions.push("raid".to_string());
    let p = AttackPlan::from_config(&ai, &auto);
    assert_eq!(p.min_gold, 300_000);
    assert_eq!(p.sessions, vec!["raid"]);
    assert!(!p.ai_enabled);
}

#[test]
fn full_cycle_without_ai() {
    let mut m = AttackMachine::new(plan(false, &["raid"], 2), all_buttons(), 100);
    assert_eq!(m.stats().start_time, Some(100));
    assert_eq!(click_at(&m.step(Event::Proceed, run(1))), (c(1), 2000));
    assert_eq!(click_at(&m.step(Event::Proceed, run(2))), (c(2), 5000));
    assert!(matches!(m.step(Event::Proceed, run(3)), Command::Capture));
    match m.step(Event::Captured(true), run(4)) {
        Command::Play { session } => assert_eq!(session, "raid"),
        _ => panic!("expected playback"),
    }
    assert!(matches!(m.step(Event::PlaybackStarted(true), run(5)), Command::CheckPlayback));
    assert!(matches!(m.step(Event::PlaybackStatus { finished: false }, run(6)), Command::Pause { millis: 200 }));
    assert!(matches!(m.step(Event::Proceed, run(7)), Command::CheckPlayback));
    let mut waited = 0;
    let mut cmd = m.step(Event::PlaybackStatus { finished: true }, run(8));
    while let Command::Pause { millis } = cmd {
        waited += millis;
        cmd = m.step(Event::Proceed, run(9));
    }
    assert_eq!(waited, 180_000);
    assert_eq!(click_at(&cmd), (c(4), 5000));
    assert!(matches!(m.step(Event::Proceed, run(10)), Command::Pause { millis: 1000 }));
    let s = m.stats();
    assert_eq!((s.total_attacks, s.successful_attacks, s.failed_attacks), (1, 1, 0));
    assert_eq!(s.last_attack_time, Some(10));
    // jitter 3: a cooldown of 5 + 3 = 8 seconds, the first already issued.
    let mut pauses = 1;
    let mut cmd = m.step(Event::Proceed, run(11));
    while let Command::Pause { millis: 1000 } = cmd {
        pauses += 1;
        cmd = m.step(Event::Proceed, run(12));
    }
    assert_eq!(pauses, 8);
    assert_eq!(click_at(&cmd), (c(1), 2000));
}

#[test]
fn ai_rejections_then_end_button_then_failure() {
    let mut m = AttackMachine::new(plan(true, &["raid"], 0), all_buttons(), 0);
    m.step(Event::Proceed, run(1));
    for pass in 0..2 {
        assert_eq!(click_at(&m.step(Event::Proceed, run(2))), (c(2), 5000));
        assert!(matches!(m.step(Event::Proceed, run(3)), Command::Capture));
        match m.step(Event::Captured(true), run(4)) {
            Command::Analyze { min_gold, min_elixir, min_dark_elixir } => {
                assert_eq!((min_gold, min_elixir, min_dark_elixir), (100, 200, 3))
            }
            _ => panic!("expected analysis"),
        }
        // Town hall 14 is skipped even though the model says ATTACK.
        assert_eq!(click_at(&m.step(Event::Analyzed(analysis(14, "ATTACK")), run(5))), (c(3), 3000));
        if pass == 0 {
            assert_eq!(click_at(&m.step(Event::Proceed, run(6))), (c(5), 3000));
        }
    }
    assert!(matches!(m.step(Event::Proceed, run(7)), Command::Pause { millis: 1000 }));
    let s = m.stats();
    assert_eq!((s.total_attacks, s.successful_attacks, s.failed_attacks), (1, 0, 1));
}

#[test]
fn failed_screenshot_moves_to_the_next_attempt() {
    let mut m = AttackMachine::new(plan(true, &["raid"], 3), all_buttons(), 0);
    m.step(Event::Proceed, run(1));
    m.step(Event::Proceed, run(2));
    m.step(Event::Proceed, run(3));
    assert_eq!(click_at(&m.step(Event::Captured(false), run(4))), (c(2), 5000));
    assert_eq!(m.phase(), Phase::FindClicked { pass: coc_attack_bot::auto_attacker::SearchPass::First, attempt: 2 });
}

#[test]
fn missing_buttons_fail_the_sequence() {
    let mut b = all_buttons();
    b.attack = None;
    let mut m = AttackMachine::new(plan(false, &["raid"], 1), b, 0);
    assert!(matches!(m.step(Event::Proceed, run(1)), Command::Pause { millis: 1000 }));
    assert_eq!(m.stats().failed_attacks, 1);
    let mut b2 = all_buttons();
    b2.next_button = None;
    let mut m2 = AttackMachine::new(plan(false, &["raid"], 1), b2, 0);
    m2.step(Event::Proceed, run(1));
    let stopped = Sample { running: false, emergency: false, now: 2, jitter: 0 };
    assert!(matches!(m2.step(Event::Proceed, stopped), Command::Stop));
    assert_eq!(m2.stats().failed_attacks, 1);
    assert_eq!(m2.phase(), Phase::Stopped);
}

#[test]
fn stop_flag_and_emergency_end_the_loop() {
    let mut m = AttackMachine::new(plan(false, &["raid"], 1), all_buttons(), 0);
    let emergency = Sample { running: true, emergency: true, now: 1, jitter: 0 };
    assert!(matches!(m.step(Event::Proceed, emergency), Command::Stop));
    assert!(matches!(m.step(Event::Proceed, run(2)), Command::Stop));
    assert_eq!(m.stats().total_attacks, 0);

    let mut m = AttackMachine::new(plan(false, &["raid"], 1), all_buttons(), 0);
    m.step(Event::Proceed, run(1));
    m.step(Event::Proceed, run(2));
    m.step(Event::Proceed, run(3));
    m.step(Event::Captured(true), run(4));
    m.step(Event::PlaybackStarted(true), run(5));
    assert!(matches!(m.step(Event::PlaybackStatus { finished: false }, emergency), Command::StopPlayback));
    // The run flag is still up: the battle wait follows.
    assert!(matches!(m.step(Event::Proceed, run(6)), Command::Pause { millis: 10000 }));
}

#[test]
fn unexpected_reply_stops() {
    let mut m = AttackMachine::new(plan(false, &["raid"], 1), all_buttons(), 0);
    assert!(matches!(m.step(Event::Captured(true), run(1)), Command::Stop));
}

/// Answers each command the way that keeps the loop going longest.
fn drive_with_chord_held(m: &mut AttackMachine, first: Command, accept: bool) -> u32 {
    let held = Sample { running: true, emergency: true, now: 50, jitter: 10 };
    let mut cmd = first;
    let mut steps = 0;
    loop {
        let event = match cmd {
            Command::Stop => return steps,
            Command::Click { .. } | Command::Pause { .. } | Command::StopPlayback => Event::Proceed,
            Command::Capture => Event::Captured(true),
            Command::Analyze { .. } => {
                Event::Analyzed(analysis(if accept { 10 } else { 14 }, "ATTACK"))
            }
            Command::Play { .. } => Event::PlaybackStarted(true),
            Command::CheckPlayback => Event::PlaybackStatus { finished: true },
        };
        cmd = m.step(event, held);
        steps += 1;
        let s = m.stats();
        assert_eq!(s.total_attacks, s.successful_attacks + s.failed_attacks);
        assert!(steps <= 1000, "the loop did not stop");
    }
}

#[test]
fn held_emergency_chord_stops_within_bound() {
    let bound = 206 + 10 * 2;
    for accept in [false, true] {
        let mut m = AttackMachine::new(plan(true, &["raid"], 2), all_buttons(), 0);
        let first = m.step(Event::Proceed, run(1));
        assert_eq!(click_at(&first), (c(1), 2000));
        let steps = drive_with_chord_held(&mut m, first, accept);
        assert!(steps <= bound, "{steps} steps");
        assert_eq!(m.phase(), Phase::Stopped);
        let s = m.stats();
        assert_eq!(s.total_attacks, 1);
        assert_eq!(s.successful_attacks, if accept { 1 } else { 0 });
        assert_eq!(s.start_time, Some(0));
        assert_eq!(s.last_attack_time, Some(50));
    }
}

#[test]
fn counters_start_with_the_run() {
    let m = AttackMachine::new(plan(false, &["raid"], 1), all_buttons(), 42);
    let s = m.stats();
    assert_eq!((s.total_attacks, s.successful_attacks, s.failed_attacks), (0, 0, 0));
    assert_eq!((s.start_time, s.last_attack_time), (Some(42), None));
}
