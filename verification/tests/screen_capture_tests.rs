use coc_attack_bot::screen_capture::{
    crop_rect, locate_window, monitor_offset, screenshot_file_name, select_monitor,
    virtual_screen_bounds, window_rect,
    MonitorInfo, ScreenCapture, WindowEntry,
};

fn w(title: &str, rect: Option<(i32, i32, u32, u32)>) -> WindowEntry {
    WindowEntry { title: title.to_string(), rect }
}

fn m(x: i32, y: i32, width: u32, height: u32, primary: bool) -> MonitorInfo {
    MonitorInfo { x, y, width, height, primary }
}

#[test]
fn game_title_wins_over_emulator() {
    let mut sc = ScreenCapture::new("screenshots".to_string());
    let windows = vec![
        w("BlueStacks App Player", Some((0, 0, 800, 600))),
        w("CLASH OF CLANS", Some((0, 0, 0, 600))),
        w("Clash of Clans", Some((10, 20, 1280, 720))),
    ];
    let g = sc.find_game_window(&windows).unwrap();
    assert_eq!((g.title.as_str(), g.x, g.y, g.width, g.height), ("Clash of Clans", 10, 20, 1280, 720));
    assert_eq!(sc.last_window.as_ref().unwrap().title, "Clash of Clans");
}

#[test]
fn emulator_is_the_fallback_and_case_is_ignored() {
    let mut sc = ScreenCapture::new("s".to_string());
    let windows = vec![w("Notepad", Some((0, 0, 10, 10))), w("LDPLAYER 9", Some((5, 5, 100, 100))), w("MEmu", None)];
    let g = sc.find_game_window(&windows).unwrap();
    assert_eq!(g.title, "LDPLAYER 9");
    let none = vec![w("Notepad", Some((0, 0, 10, 10)))];
    assert!(sc.find_game_window(&none).is_none());
    assert_eq!(sc.last_window.as_ref().unwrap().title, "LDPLAYER 9");
    sc.forget_window();
    assert!(sc.last_window.is_none());
}

#[test]
fn window_is_found_again_by_title() {
    let titles = vec!["Other".to_string(), "clash OF clans".to_string()];
    assert_eq!(locate_window(&titles, "Clash of Clans"), Some(1));
    assert_eq!(locate_window(&titles, "BlueStacks"), None);
}

#[test]
fn monitor_choice() {
    let monitors = vec![m(-1920, 0, 1920, 1080, false), m(0, 0, 2560, 1440, true)];
    assert_eq!(select_monitor(&monitors, -100, 50), Some(0));
    assert_eq!(select_monitor(&monitors, 100, 50), Some(1));
    assert_eq!(select_monitor(&monitors, 5000, 50), Some(1));
    assert_eq!(select_monitor(&vec![m(0, 0, 10, 10, false)], 50, 50), None);
}

#[test]
fn full_screen_spans_every_monitor() {
    let monitors = vec![m(-1920, 0, 1920, 1080, false), m(0, -200, 2560, 1440, true)];
    assert_eq!(virtual_screen_bounds(&monitors), Some((-1920, -200, 4480, 1440)));
    assert_eq!(monitor_offset(monitors[0], -1920, -200), (0, 200));
    assert_eq!(monitor_offset(monitors[1], -1920, -200), (1920, 0));
    assert_eq!(virtual_screen_bounds(&vec![m(0, 0, 2560, 1440, true)]), Some((0, 0, 2560, 1440)));
    let stacked = vec![m(0, 0, 1920, 1080, true), m(0, 1080, 1280, 1024, false)];
    assert_eq!(virtual_screen_bounds(&stacked), Some((0, 0, 1920, 2104)));
    assert_eq!(monitor_offset(stacked[1], 0, 0), (0, 1080));
    assert_eq!(virtual_screen_bounds(&vec![]), None);
}

#[test]
fn crop_geometry() {
    let mon = m(0, 0, 1920, 1080, true);
    assert_eq!(crop_rect(100, 50, 800, 600, mon), (100, 50, 800, 600));
    assert_eq!(crop_rect(-10, -20, 800, 600, mon), (0, 0, 800, 600));
    assert_eq!(crop_rect(1800, 1000, 800, 600, mon), (1800, 1000, 120, 80));
    assert_eq!(crop_rect(3000, 0, 800, 600, mon), (3000, 0, 0, 600));
    assert_eq!(window_rect(10, 20, 110, 220), (10, 20, 100, 200));
    assert_eq!(window_rect(10, 20, 5, 20), (10, 20, 0, 0));
    assert_eq!(screenshot_file_name(1700000000), "screenshot_1700000000.png");
}

#[test]
fn screenshot_listing_is_newest_first() {
    let mut names: Vec<String> = (1..=12).map(|i| format!("screenshot_{:02}.png", i)).collect();
    names.push("notes.txt".to_string());
    names.push(".png".to_string());
    let (shown, total) = coc_attack_bot::screen_capture::recent_screenshots(&names);
    assert_eq!(total, 12);
    assert_eq!(shown.len(), 10);
    assert_eq!(shown[0], "screenshot_12.png");
    assert_eq!(shown[9], "screenshot_03.png");
    let (few, n) = coc_attack_bot::screen_capture::recent_screenshots(&vec!["a.png".to_string(), "b.PNG".to_string()]);
    assert_eq!((few, n), (vec!["a.png".to_string()], 1));
}
