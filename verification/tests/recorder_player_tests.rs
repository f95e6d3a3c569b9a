use coc_attack_bot::player::{
    action_kind_name, kind_breakdown, mouse_steps, preview_split, validate_recording, waits_before,
    MouseStep, PlaybackControl, PlaybackStop, Validation,
};
use coc_attack_bot::recorder::{
    json_file_stem, recording_file_name, recording_from, recording_keys, recording_outcome,
    session_file_name, session_names, Action, ActionKind, Observed, Pos, RecordingOutcome,
    RecordingStop, RecordingTracker,
};

fn act(kind: ActionKind<f64>, x: i32, y: i32, t: f64) -> Action<f64> {
    Action { kind, x, y, timestamp: t, relative_time: t }
}

#[test]
fn file_names() {
    assert_eq!(recording_file_name("barch", "20240101_120000"), "barch_20240101_120000.json");
    assert_eq!(session_file_name("barch"), "barch.json");
    assert_eq!(json_file_stem("raid.json").as_deref(), Some("raid"));
    assert_eq!(json_file_stem("a.b.json").as_deref(), Some("a.b"));
    assert_eq!(json_file_stem(".json"), None);
    assert_eq!(json_file_stem("raid.JSON"), None);
    assert_eq!(json_file_stem("raid.json.bak"), None);
    assert_eq!(json_file_stem("noext"), None);
}

#[test]
fn session_list_is_sorted_json_stems() {
    let files: Vec<String> =
        ["z.json", "notes.txt", "a.json", "M.json", ".json", "b.json"].iter().map(|s| s.to_string()).collect();
    assert_eq!(session_names(&files), vec!["M", "a", "b", "z"]);
}

#[test]
fn recording_duration_is_last_timestamp() {
    let r = recording_from(
        "n".to_string(),
        "stamp".to_string(),
        vec![act(ActionKind::Click, 1, 2, 0.5), act(ActionKind::Move, 3, 4, 2.25)],
        0.0,
    );
    assert_eq!(r.duration, 2.25);
    assert_eq!(r.actions.len(), 2);
    let empty = recording_from("n".to_string(), "s".to_string(), Vec::<Action<f64>>::new(), 0.0);
    assert_eq!(empty.duration, 0.0);
}

#[test]
fn hotkeys_while_recording() {
    assert_eq!(recording_keys(true, true, true, true).stop, Some(RecordingStop::Cancelled));
    assert_eq!(recording_keys(false, true, true, false).stop, Some(RecordingStop::Stopped));
    let k = recording_keys(false, false, true, true);
    assert!(k.stop.is_none() && k.manual_click && k.ask_delay);
    assert_eq!(recording_outcome(false, 3), RecordingOutcome::NoSession);
    assert_eq!(recording_outcome(true, 0), RecordingOutcome::Empty);
    assert_eq!(recording_outcome(true, 3), RecordingOutcome::Save);
}

#[test]
fn automatic_clicks_are_debounced_on_press_edges() {
    let p = Pos { x: 10, y: 10 };
    let mut t = RecordingTracker::new(true, p);
    // Too early: 0.1 s after start.
    assert!(t.observe(100_000_000, true, false, p, p).is_empty());
    // Still held: no edge.
    assert!(t.observe(300_000_000, true, false, p, p).is_empty());
    assert!(t.observe(350_000_000, false, false, p, p).is_empty());
    assert_eq!(t.observe(400_000_000, false, true, p, p), vec![Observed::Click(p)]);
    // Released and pressed again within 0.15 s.
    assert!(t.observe(450_000_000, false, false, p, p).is_empty());
    assert!(t.observe(500_000_000, true, false, p, p).is_empty());
    let mut manual = RecordingTracker::new(false, p);
    assert!(manual.observe(1_000_000_000, true, false, p, p).is_empty());
}

#[test]
fn moves_beyond_fifty_pixels_are_recorded() {
    let mut t = RecordingTracker::new(false, Pos { x: 0, y: 0 });
    assert!(t.observe(1, false, false, Pos { x: 30, y: 40 }, Pos { x: 30, y: 40 }).is_empty());
    let far = Pos { x: 30, y: 41 };
    assert_eq!(t.observe(2, false, false, far, far), vec![Observed::Move(far)]);
    assert_eq!(t.last_pos, far);
    let mut both = RecordingTracker::new(true, Pos { x: 0, y: 0 });
    let q = Pos { x: 100, y: 0 };
    assert_eq!(both.observe(200_000_000, true, false, q, q), vec![Observed::Click(q), Observed::Move(q)]);
    // The click is placed at the first reading, the move at the second.
    let mut apart = RecordingTracker::new(true, Pos { x: 0, y: 0 });
    let press = Pos { x: 5, y: 5 };
    let later = Pos { x: 80, y: 0 };
    assert_eq!(
        apart.observe(200_000_000, true, false, press, later),
        vec![Observed::Click(press), Observed::Move(later)]
    );
    assert_eq!(apart.last_pos, later);
}

#[test]
fn actions_become_mouse_steps() {
    assert_eq!(
        mouse_steps(&act(ActionKind::Click, 5, 6, 0.0)),
        vec![MouseStep::MoveTo { x: 5, y: 6 }, MouseStep::Click]
    );
    assert_eq!(mouse_steps(&act(ActionKind::Move, 5, 6, 0.0)), vec![MouseStep::MoveTo { x: 5, y: 6 }]);
    assert_eq!(mouse_steps(&act(ActionKind::Delay { duration: 1.5 }, 0, 0, 0.0)), vec![MouseStep::Wait(1.5)]);
    assert_eq!(
        mouse_steps(&act(ActionKind::Drag { start_x: 1, start_y: 2 }, 3, 4, 0.0)),
        vec![MouseStep::MoveTo { x: 1, y: 2 }, MouseStep::Press, MouseStep::MoveTo { x: 3, y: 4 }, MouseStep::Release]
    );
    assert_eq!(action_kind_name(&ActionKind::<f64>::Drag { start_x: 0, start_y: 0 }), "drag");
}

#[test]
fn preview_breakdown() {
    let actions = vec![
        act(ActionKind::Move, 0, 0, 0.0),
        act(ActionKind::Click, 0, 0, 0.0),
        act(ActionKind::Move, 0, 0, 0.0),
        act(ActionKind::Delay { duration: 1.0 }, 0, 0, 0.0),
    ];
    assert_eq!(kind_breakdown(&actions), vec![("click", 1), ("delay", 1), ("move", 2)]);
    assert_eq!(preview_split(4), (4, 0));
    assert_eq!(preview_split(25), (10, 15));
    assert!(!waits_before(0) && waits_before(1));
}

#[test]
fn validation_reports_off_screen_actions() {
    let rec = recording_from(
        "r".to_string(),
        "s".to_string(),
        vec![act(ActionKind::Click, 10, 10, 1.0), act(ActionKind::Click, 1920, 5, 2.0), act(ActionKind::Move, -1, 1079, 3.0)],
        0.0,
    );
    match validate_recording(Some(&rec), 1920, 1080) {
        Validation::Checked { valid, total_actions, duration, out_of_bounds } => {
            assert!(!valid);
            assert_eq!(total_actions, 3);
            assert_eq!(duration, 3.0);
            assert_eq!(out_of_bounds, vec![(1, 1920, 5), (2, -1, 1079)]);
        }
        _ => panic!("expected a report"),
    }
    assert!(matches!(validate_recording::<f64>(None, 1, 1), Validation::NotFound));
    let empty = recording_from("r".to_string(), "s".to_string(), Vec::<Action<f64>>::new(), 0.0);
    assert!(matches!(validate_recording(Some(&empty), 1, 1), Validation::NoActions));
}

#[test]
fn playback_keys() {
    let mut c = PlaybackControl::new();
    assert_eq!(c.gate(false, true, true, true), Some(PlaybackStop::Halted));
    assert_eq!(c.gate(true, true, true, true), Some(PlaybackStop::Emergency));
    assert_eq!(c.gate(true, false, true, true), Some(PlaybackStop::ByUser));
    assert!(!c.paused);
    assert_eq!(c.gate(true, false, false, true), None);
    assert!(c.paused && c.must_wait(true));
    assert!(c.hold(true, false));
    assert!(!c.hold(true, true));
    assert!(!c.paused);
}

#[test]
fn saved_recording_is_listed_and_loadable() {
    let file = recording_file_name("barch.v2", "20240101_120000");
    let listed = session_names(&vec![file.clone(), "other.txt".to_string()]);
    assert_eq!(listed, vec!["barch.v2_20240101_120000"]);
    assert_eq!(session_file_name(&listed[0]), file);
}
