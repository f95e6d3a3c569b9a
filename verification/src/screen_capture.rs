//! Finding the game window among the desktop's windows, and the geometry of
//! capturing it.
use vstd::prelude::*;
use vstd::string::*;
use crate::recorder::{file_stem_for, stem_for};
use crate::text::{
    chars_of, contains_chars, contains_seq, decimal, lex_order, push_decimal, sort_strings, views,
};

verus! {

/// Unicode lower-casing of a string, as `str::to_lowercase` does it.
pub uninterp spec fn lowercase(s: Seq<char>) -> Seq<char>;

/// `str::to_lowercase`: the full Unicode lower-case mapping, which depends
/// on the string alone.
#[verifier::external_body]
fn to_lowercase(s: &str) -> (r: String)
    ensures
        r@ == lowercase(s@),
{
    s.to_lowercase()
}

/// A located game window.
#[derive(Debug)]
pub struct GameWindow {
    pub title: String,
    pub x: i32,
    pub y: i32,
    pub width: u32,
    pub height: u32,
}

/// A visible top-level window: its title, and its rectangle as
/// `(x, y, width, height)` when it could be read.
pub struct WindowEntry {
    pub title: String,
    pub rect: Option<(i32, i32, u32, u32)>,
}

/// A monitor's position, size and whether it is the primary one.
#[derive(Clone, Copy, Debug, PartialEq, Eq, Structural)]
pub struct MonitorInfo {
    pub x: i32,
    pub y: i32,
    pub width: u32,
    pub height: u32,
    pub primary: bool,
}

pub struct ScreenCapture {
    pub screenshot_dir: String,
    pub last_window: Option<GameWindow>,
}

/// Titles of the game itself (lower case).
pub open spec fn primary_patterns() -> Seq<Seq<char>> {
    seq!["clash of clans"@]
}

/// Titles of launchers and emulators the game runs in (lower case).
pub open spec fn fallback_patterns() -> Seq<Seq<char>> {
    seq!["bluestacks"@, "nox"@, "ldplayer"@, "memu"@, "google play games"@]
}

pub open spec fn title_matches(title: Seq<char>, pats: Seq<Seq<char>>) -> bool {
    exists|k: int| 0 <= k < pats.len() && contains_seq(lowercase(title), #[trigger] pats[k])
}

/// A window that may be the game: its lower-cased title contains one of the
/// patterns, and its rectangle is known and not empty.
pub open spec fn qualifies(w: WindowEntry, pats: Seq<Seq<char>>) -> bool {
    &&& title_matches(w.title@, pats)
    &&& w.rect matches Some(r) && r.2 != 0 && r.3 != 0
}

/// Index of the first window that qualifies.
pub open spec fn first_match(ws: Seq<WindowEntry>, pats: Seq<Seq<char>>) -> Option<int>
    decreases ws.len(),
{
    if ws.len() == 0 {
        None
    } else {
        match first_match(ws.drop_last(), pats) {
            Some(i) => Some(i),
            None => if qualifies(ws.last(), pats) {
                Some(ws.len() - 1)
            } else {
                None
            },
        }
    }
}

/// The window chosen as the game's: the first one whose title names the
/// game, else the first one whose title names an emulator or launcher.
pub open spec fn chosen_window(ws: Seq<WindowEntry>) -> Option<int> {
    match first_match(ws, primary_patterns()) {
        Some(i) => Some(i),
        None => first_match(ws, fallback_patterns()),
    }
}

pub open spec fn describes(g: GameWindow, w: WindowEntry) -> bool {
    &&& g.title@ == w.title@
    &&& w.rect == Some((g.x, g.y, g.width, g.height))
}

proof fn lemma_first_match_prefix(ws: Seq<WindowEntry>, pats: Seq<Seq<char>>, i: int)
    requires
        0 <= i < ws.len(),
        first_match(ws.take(i), pats) is None,
        qualifies(ws[i], pats),
    ensures
        first_match(ws, pats) == Some(i),
    decreases ws.len(),
{
    if i < ws.len() - 1 {
        assert(ws.drop_last().take(i) =~= ws.take(i));
        assert(ws.drop_last()[i] == ws[i]);
        lemma_first_match_prefix(ws.drop_last(), pats, i);
    } else {
        assert(ws.drop_last() =~= ws.take(i));
    }
}

proof fn lemma_first_match_none(ws: Seq<WindowEntry>, pats: Seq<Seq<char>>)
    requires
        forall|j: int| 0 <= j < ws.len() ==> !qualifies(#[trigger] ws[j], pats),
    ensures
        first_match(ws, pats) is None,
    decreases ws.len(),
{
    if ws.len() > 0 {
        assert forall|j: int| 0 <= j < ws.len() - 1 implies !qualifies(#[trigger] ws.drop_last()[j], pats) by {
            assert(ws.drop_last()[j] == ws[j]);
        }
        lemma_first_match_none(ws.drop_last(), pats);
        assert(!qualifies(ws[ws.len() - 1], pats));
    }
}

/// The window has a known, non-empty rectangle.
pub open spec fn has_area(w: WindowEntry) -> bool {
    w.rect matches Some(r) && r.2 != 0 && r.3 != 0
}

/// The lower-cased title names the game.
pub open spec fn names_game(title: Seq<char>) -> bool {
    contains_seq(lowercase(title), "clash of clans"@)
}

/// The lower-cased title names an emulator or launcher the game runs in.
pub open spec fn names_launcher(title: Seq<char>) -> bool {
    let t = lowercase(title);
    ||| contains_seq(t, "bluestacks"@)
    ||| contains_seq(t, "nox"@)
    ||| contains_seq(t, "ldplayer"@)
    ||| contains_seq(t, "memu"@)
    ||| contains_seq(t, "google play games"@)
}

proof fn lemma_qualifies_literally(w: WindowEntry)
    ensures
        qualifies(w, primary_patterns()) <==> has_area(w) && names_game(w.title@),
        qualifies(w, fallback_patterns()) <==> has_area(w) && names_launcher(w.title@),
{
    let p = primary_patterns();
    let f = fallback_patterns();
    assert(p[0] == "clash of clans"@);
    assert(f[0] == "bluestacks"@);
    assert(f[1] == "nox"@);
    assert(f[2] == "ldplayer"@);
    assert(f[3] == "memu"@);
    assert(f[4] == "google play games"@);
}

/// The first window with an area whose title names the game is chosen.
pub proof fn law_game_title_is_chosen(ws: Seq<WindowEntry>, i: int)
    requires
        0 <= i < ws.len(),
        has_area(ws[i]) && names_game(ws[i].title@),
        forall|j: int| 0 <= j < i ==> !(has_area(#[trigger] ws[j]) && names_game(ws[j].title@)),
    ensures
        chosen_window(ws) == Some(i),
{
    let pats = primary_patterns();
    lemma_qualifies_literally(ws[i]);
    assert forall|j: int| 0 <= j < i implies !qualifies(#[trigger] ws.take(i)[j], pats) by {
        assert(ws.take(i)[j] == ws[j]);
        lemma_qualifies_literally(ws[j]);
    }
    lemma_first_match_none(ws.take(i), pats);
    lemma_first_match_prefix(ws, pats, i);
}

/// When no window with an area names the game, the first window with an
/// area whose title names BlueStacks, Nox, LDPlayer, MEmu or Google Play
/// Games is chosen.
pub proof fn law_launcher_is_the_fallback(ws: Seq<WindowEntry>, i: int)
    requires
        forall|j: int| 0 <= j < ws.len() ==> !(has_area(#[trigger] ws[j]) && names_game(ws[j].title@)),
        0 <= i < ws.len(),
        has_area(ws[i]) && names_launcher(ws[i].title@),
        forall|j: int| 0 <= j < i ==> !(has_area(#[trigger] ws[j]) && names_launcher(ws[j].title@)),
    ensures
        chosen_window(ws) == Some(i),
{
    let pats = fallback_patterns();
    assert forall|j: int| 0 <= j < ws.len() implies !qualifies(#[trigger] ws[j], primary_patterns()) by {
        lemma_qualifies_literally(ws[j]);
    }
    lemma_first_match_none(ws, primary_patterns());
    lemma_qualifies_literally(ws[i]);
    assert forall|j: int| 0 <= j < i implies !qualifies(#[trigger] ws.take(i)[j], pats) by {
        assert(ws.take(i)[j] == ws[j]);
        lemma_qualifies_literally(ws[j]);
    }
    lemma_first_match_none(ws.take(i), pats);
    lemma_first_match_prefix(ws, pats, i);
}

/// No window is chosen when no window with an area names the game or a
/// launcher.
pub proof fn law_nothing_chosen_without_a_match(ws: Seq<WindowEntry>)
    requires
        forall|j: int|
            0 <= j < ws.len() ==> !(has_area(#[trigger] ws[j]) && (names_game(ws[j].title@)
                || names_launcher(ws[j].title@))),
    ensures
        chosen_window(ws) is None,
{
    assert forall|j: int| 0 <= j < ws.len() implies !qualifies(#[trigger] ws[j], primary_patterns())
        && !qualifies(ws[j], fallback_patterns()) by {
        lemma_qualifies_literally(ws[j]);
    }
    lemma_first_match_none(ws, primary_patterns());
    lemma_first_match_none(ws, fallback_patterns());
}

fn pattern_list(primary: bool) -> (r: Vec<Vec<char>>)
    ensures
        r@.len() == (if primary {
            primary_patterns()
        } else {
            fallback_patterns()
        }).len(),
        forall|k: int| 0 <= k < r@.len() ==> (#[trigger] r@[k])@ == (if primary {
            primary_patterns()
        } else {
            fallback_patterns()
        })[k],
{
    let mut v: Vec<Vec<char>> = Vec::new();
    if primary {
        v.push(chars_of("clash of clans"));
    } else {
        v.push(chars_of("bluestacks"));
        v.push(chars_of("nox"));
        v.push(chars_of("ldplayer"));
        v.push(chars_of("memu"));
        v.push(chars_of("google play games"));
    }
    v
}

fn matches_any(title: &str, pats: &Vec<Vec<char>>, spec_pats: Ghost<Seq<Seq<char>>>) -> (r: bool)
    requires
        pats@.len() == spec_pats@.len(),
        forall|k: int| 0 <= k < pats@.len() ==> (#[trigger] pats@[k])@ == spec_pats@[k],
    ensures
        r == title_matches(title@, spec_pats@),
{
    let lower = to_lowercase(title);
    let lv = chars_of(lower.as_str());
    for k in 0..pats.len()
        invariant
            lv@ == lowercase(title@),
            pats@.len() == spec_pats@.len(),
            forall|k: int| 0 <= k < pats@.len() ==> (#[trigger] pats@[k])@ == spec_pats@[k],
            forall|j: int| 0 <= j < k ==> !contains_seq(lowercase(title@), #[trigger] spec_pats@[j]),
    {
        if contains_chars(&lv, &pats[k]) {
            assert(contains_seq(lowercase(title@), spec_pats@[k as int]));
            return true;
        }
    }
    false
}

fn first_qualifying(ws: &Vec<WindowEntry>, primary: bool) -> (r: Option<usize>)
    ensures
        ({
            let pats = if primary {
                primary_patterns()
            } else {
                fallback_patterns()
            };
            match first_match(ws@, pats) {
                Some(i) => r matches Some(k) && k as int == i,
                None => r is None,
            }
        }),
{
    let ghost pats = if primary {
        primary_patterns()
    } else {
        fallback_patterns()
    };
    let pv = pattern_list(primary);
    for i in 0..ws.len()
        invariant
            pats == (if primary {
                primary_patterns()
            } else {
                fallback_patterns()
            }),
            pv@.len() == pats.len(),
            forall|k: int| 0 <= k < pv@.len() ==> (#[trigger] pv@[k])@ == pats[k],
            forall|j: int| 0 <= j < i ==> !qualifies(#[trigger] ws@[j], pats),
    {
        let w = &ws[i];
        let sized = match w.rect {
            Some(r) => r.2 != 0 && r.3 != 0,
            None => false,
        };
        if sized && matches_any(w.title.as_str(), &pv, Ghost(pats)) {
            proof {
                assert(qualifies(ws@[i as int], pats));
                assert forall|j: int| 0 <= j < i implies !qualifies(#[trigger] ws@.take(i as int)[j], pats) by {
                    assert(ws@.take(i as int)[j] == ws@[j]);
                }
                lemma_first_match_none(ws@.take(i as int), pats);
                lemma_first_match_prefix(ws@, pats, i as int);
                assert(first_match(ws@, pats) == Some(i as int));
            }
            return Some(i);
        }
    }
    proof {
        lemma_first_match_none(ws@, pats);
    }
    None
}

fn window_from(w: &WindowEntry) -> (r: GameWindow)
    requires
        w.rect is Some,
    ensures
        describes(r, *w),
{
    let (x, y, width, height) = w.rect.unwrap();
    GameWindow { title: w.title.clone(), x, y, width, height }
}

fn copy_window(g: &GameWindow) -> (r: GameWindow)
    ensures
        r == *g,
{
    GameWindow { title: g.title.clone(), x: g.x, y: g.y, width: g.width, height: g.height }
}

impl ScreenCapture {
    pub fn new(screenshot_dir: String) -> (r: ScreenCapture)
        ensures
            r.screenshot_dir == screenshot_dir,
            r.last_window is None,
    {
        ScreenCapture { screenshot_dir, last_window: None }
    }

    /// Picks the game window among the visible windows (game titles first,
    /// then emulators and launchers) and remembers it. When none fits, the
    /// remembered window stays as it was.
    pub fn find_game_window(&mut self, windows: &Vec<WindowEntry>) -> (r: Option<GameWindow>)
        ensures
            final(self).screenshot_dir == old(self).screenshot_dir,
            match chosen_window(windows@) {
                Some(i) => r matches Some(g) && describes(g, windows@[i]) && final(self).last_window
                    == r,
                None => r is None && final(self).last_window == old(self).last_window,
            },
    {
        let found = match first_qualifying(windows, true) {
            Some(i) => Some(i),
            None => first_qualifying(windows, false),
        };
        match found {
            Some(i) => {
                proof {
                    lemma_first_match_bound(windows@, primary_patterns());
                    lemma_first_match_bound(windows@, fallback_patterns());
                    assert(chosen_window(windows@) == Some(i as int));
                    assert(qualifies(windows@[i as int], primary_patterns()) || qualifies(windows@[i as int], fallback_patterns()));
                }
                let g = window_from(&windows[i]);
                let kept = copy_window(&g);
                self.last_window = Some(kept);
                Some(g)
            },
            None => None,
        }
    }

    /// Forgets the remembered window (it disappeared).
    pub fn forget_window(&mut self)
        ensures
            final(self).screenshot_dir == old(self).screenshot_dir,
            final(self).last_window is None,
    {
        self.last_window = None;
    }
}

proof fn lemma_first_match_bound(ws: Seq<WindowEntry>, pats: Seq<Seq<char>>)
    ensures
        first_match(ws, pats) matches Some(i) ==> 0 <= i < ws.len() && qualifies(ws[i], pats),
    decreases ws.len(),
{
    if ws.len() > 0 {
        lemma_first_match_bound(ws.drop_last(), pats);
        if first_match(ws.drop_last(), pats) is Some {
            let i = first_match(ws.drop_last(), pats)->0;
            assert(ws.drop_last()[i] == ws[i]);
        }
    }
}

/// Index of the first title equal to `title` once both are lower-cased: the
/// remembered game window, found again.
pub fn locate_window(titles: &Vec<String>, title: &str) -> (r: Option<usize>)
    ensures
        match r {
            Some(i) => i < titles@.len() && lowercase(titles@[i as int]@) == lowercase(title@)
                && forall|j: int| 0 <= j < i ==> lowercase((#[trigger] titles@[j])@) != lowercase(
                title@),
            None => forall|j: int|
                0 <= j < titles@.len() ==> lowercase((#[trigger] titles@[j])@) != lowercase(title@),
        },
{
    let target = to_lowercase(title);
    for i in 0..titles.len()
        invariant
            target@ == lowercase(title@),
            forall|j: int| 0 <= j < i ==> lowercase((#[trigger] titles@[j])@) != lowercase(title@),
    {
        let t = to_lowercase(titles[i].as_str());
        if t == target {
            return Some(i);
        }
    }
    None
}

/// The monitor containing the point: `x` in `[m.x, m.x + m.width)` and `y`
/// in `[m.y, m.y + m.height)`.
pub open spec fn contains_point(m: MonitorInfo, x: i32, y: i32) -> bool {
    m.x <= x < m.x + m.width && m.y <= y < m.y + m.height
}

/// A monitor whose extent fits the `i32` coordinates it is compared in.
pub open spec fn monitor_fits(m: MonitorInfo) -> bool {
    &&& m.width <= i32::MAX
    &&& m.height <= i32::MAX
    &&& m.x + m.width <= i32::MAX
    &&& m.y + m.height <= i32::MAX
}

/// The monitor to capture the window from: the first one containing the
/// window's top-left corner, else the first primary one.
pub fn select_monitor(monitors: &Vec<MonitorInfo>, x: i32, y: i32) -> (r: Option<usize>)
    requires
        forall|k: int| 0 <= k < monitors@.len() ==> monitor_fits(#[trigger] monitors@[k]),
    ensures
        match r {
            Some(i) => i < monitors@.len() && (if exists|k: int|
                0 <= k < monitors@.len() && contains_point(#[trigger] monitors@[k], x, y) {
                contains_point(monitors@[i as int], x, y) && forall|j: int|
                    0 <= j < i ==> !contains_point(#[trigger] monitors@[j], x, y)
            } else {
                monitors@[i as int].primary && forall|j: int|
                    0 <= j < i ==> !(#[trigger] monitors@[j]).primary
            }),
            None => forall|k: int|
                0 <= k < monitors@.len() ==> !contains_point(#[trigger] monitors@[k], x, y)
                    && !monitors@[k].primary,
        },
{
    let n = monitors.len();
    for i in 0..n
        invariant
            n == monitors@.len(),
            forall|k: int| 0 <= k < monitors@.len() ==> monitor_fits(#[trigger] monitors@[k]),
            forall|j: int| 0 <= j < i ==> !contains_point(#[trigger] monitors@[j], x, y),
    {
        let m = monitors[i];
        assert(monitor_fits(monitors@[i as int]));
        let mw = m.width as i32;
        let mh = m.height as i32;
        if x >= m.x && x < m.x + mw && y >= m.y && y < m.y + mh {
            return Some(i);
        }
    }
    for i in 0..n
        invariant
            n == monitors@.len(),
            forall|j: int| 0 <= j < n ==> !contains_point(#[trigger] monitors@[j], x, y),
            forall|j: int| 0 <= j < i ==> !(#[trigger] monitors@[j]).primary,
    {
        if monitors[i].primary {
            return Some(i);
        }
    }
    None
}

/// The virtual screen spanned by the monitors, as `(x, y, width, height)`:
/// the smallest rectangle that holds every monitor. Its left and top edges
/// are those of some monitor, and so are its right and bottom edges.
pub open spec fn is_virtual_screen(
    monitors: Seq<MonitorInfo>,
    x: int,
    y: int,
    width: int,
    height: int,
) -> bool {
    &&& forall|k: int|
        0 <= k < monitors.len() ==> {
            let m = #[trigger] monitors[k];
            &&& x <= m.x
            &&& y <= m.y
            &&& m.x + m.width <= x + width
            &&& m.y + m.height <= y + height
        }
    &&& exists|k: int| 0 <= k < monitors.len() && (#[trigger] monitors[k]).x == x
    &&& exists|k: int| 0 <= k < monitors.len() && (#[trigger] monitors[k]).y == y
    &&& exists|k: int|
        0 <= k < monitors.len() && (#[trigger] monitors[k]).x + monitors[k].width == x + width
    &&& exists|k: int|
        0 <= k < monitors.len() && (#[trigger] monitors[k]).y + monitors[k].height == y + height
}

/// The rectangle of the full virtual screen, the union of all monitors;
/// `None` when there is no monitor.
pub fn virtual_screen_bounds(monitors: &Vec<MonitorInfo>) -> (r: Option<(i32, i32, u32, u32)>)
    requires
        forall|k: int| 0 <= k < monitors@.len() ==> monitor_fits(#[trigger] monitors@[k]),
    ensures
        r is None <==> monitors@.len() == 0,
        r matches Some((x, y, w, h)) ==> is_virtual_screen(
            monitors@,
            x as int,
            y as int,
            w as int,
            h as int,
        ),
{
    let n = monitors.len();
    if n == 0 {
        return None;
    }
    let first = monitors[0];
    assert(monitor_fits(monitors@[0]));
    let mut left: i64 = first.x as i64;
    let mut top: i64 = first.y as i64;
    let mut right: i64 = first.x as i64 + first.width as i64;
    let mut bottom: i64 = first.y as i64 + first.height as i64;
    let ghost mut kl: int = 0;
    let ghost mut kt: int = 0;
    let ghost mut kr: int = 0;
    let ghost mut kb: int = 0;
    for i in 1..n
        invariant
            n == monitors@.len(),
            forall|k: int| 0 <= k < monitors@.len() ==> monitor_fits(#[trigger] monitors@[k]),
            0 <= kl < i && monitors@[kl].x == left,
            0 <= kt < i && monitors@[kt].y == top,
            0 <= kr < i && monitors@[kr].x + monitors@[kr].width == right,
            0 <= kb < i && monitors@[kb].y + monitors@[kb].height == bottom,
            forall|k: int|
                0 <= k < i ==> {
                    let m = #[trigger] monitors@[k];
                    &&& left <= m.x
                    &&& top <= m.y
                    &&& m.x + m.width <= right
                    &&& m.y + m.height <= bottom
                },
    {
        let m = monitors[i];
        assert(monitor_fits(monitors@[i as int]));
        let mr: i64 = m.x as i64 + m.width as i64;
        let mb: i64 = m.y as i64 + m.height as i64;
        if (m.x as i64) < left {
            left = m.x as i64;
            proof {
                kl = i as int;
            }
        }
        if (m.y as i64) < top {
            top = m.y as i64;
            proof {
                kt = i as int;
            }
        }
        if mr > right {
            right = mr;
            proof {
                kr = i as int;
            }
        }
        if mb > bottom {
            bottom = mb;
            proof {
                kb = i as int;
            }
        }
    }
    assert(monitor_fits(monitors@[kr]) && monitor_fits(monitors@[kb]));
    assert(monitors@[kl].x + monitors@[kl].width <= right);
    assert(monitors@[kt].y + monitors@[kt].height <= bottom);
    let w: u32 = (right - left) as u32;
    let h: u32 = (bottom - top) as u32;
    Some((left as i32, top as i32, w, h))
}

/// Where a monitor's image goes on the virtual screen whose top-left corner
/// is `(left, top)`.
pub fn monitor_offset(m: MonitorInfo, left: i32, top: i32) -> (r: (u32, u32))
    requires
        left <= m.x,
        top <= m.y,
    ensures
        r.0 == m.x - left,
        r.1 == m.y - top,
{
    let dx: i64 = m.x as i64 - left as i64;
    let dy: i64 = m.y as i64 - top as i64;
    (dx as u32, dy as u32)
}

/// Every monitor's image, placed at its offset, lies wholly inside the
/// virtual screen's image.
pub proof fn law_monitors_lie_within_virtual_screen(
    monitors: Seq<MonitorInfo>,
    x: int,
    y: int,
    width: int,
    height: int,
    k: int,
)
    requires
        is_virtual_screen(monitors, x, y, width, height),
        0 <= k < monitors.len(),
    ensures
        0 <= monitors[k].x - x,
        monitors[k].x - x + monitors[k].width <= width,
        0 <= monitors[k].y - y,
        monitors[k].y - y + monitors[k].height <= height,
{
}

/// The part of the monitor image to keep: the window's rectangle relative
/// to the monitor, clamped to the monitor's bounds.
pub open spec fn crop_spec(
    wx: i32,
    wy: i32,
    ww: u32,
    wh: u32,
    m: MonitorInfo,
) -> (u32, u32, u32, u32) {
    let cx: int = if wx - m.x > 0 {
        wx - m.x
    } else {
        0
    };
    let cy: int = if wy - m.y > 0 {
        wy - m.y
    } else {
        0
    };
    let room_w: int = if m.width > cx {
        m.width - cx
    } else {
        0
    };
    let room_h: int = if m.height > cy {
        m.height - cy
    } else {
        0
    };
    (
        cx as u32,
        cy as u32,
        (if ww < room_w {
            ww as int
        } else {
            room_w
        }) as u32,
        (if wh < room_h {
            wh as int
        } else {
            room_h
        }) as u32,
    )
}

pub fn crop_rect(wx: i32, wy: i32, ww: u32, wh: u32, m: MonitorInfo) -> (r: (u32, u32, u32, u32))
    requires
        i32::MIN <= wx - m.x <= i32::MAX,
        i32::MIN <= wy - m.y <= i32::MAX,
    ensures
        r == crop_spec(wx, wy, ww, wh, m),
{
    let dx = wx - m.x;
    let dy = wy - m.y;
    let cx: u32 = if dx > 0 {
        dx as u32
    } else {
        0
    };
    let cy: u32 = if dy > 0 {
        dy as u32
    } else {
        0
    };
    let room_w = m.width.saturating_sub(cx);
    let room_h = m.height.saturating_sub(cy);
    let cw = if ww < room_w {
        ww
    } else {
        room_w
    };
    let ch = if wh < room_h {
        wh
    } else {
        room_h
    };
    (cx, cy, cw, ch)
}

/// The crop is the window's rectangle taken relative to the monitor: its
/// left edge is the window's x less the monitor's x (0 when the window
/// starts left of the monitor), and its width is the window's, cut to what
/// is left of the monitor from there. Likewise for the top edge and height.
pub proof fn law_crop_is_relative_to_monitor(wx: i32, wy: i32, ww: u32, wh: u32, m: MonitorInfo)
    ensures
        ({
            let c = crop_spec(wx, wy, ww, wh, m);
            &&& wx >= m.x ==> c.0 == wx - m.x
            &&& wx < m.x ==> c.0 == 0
            &&& wy >= m.y ==> c.1 == wy - m.y
            &&& wy < m.y ==> c.1 == 0
            &&& c.0 < m.width ==> c.2 == (if ww <= m.width - c.0 {
                ww as int
            } else {
                m.width - c.0
            })
            &&& c.0 >= m.width ==> c.2 == 0
            &&& c.1 < m.height ==> c.3 == (if wh <= m.height - c.1 {
                wh as int
            } else {
                m.height - c.1
            })
            &&& c.1 >= m.height ==> c.3 == 0
        }),
{
}

/// Moving the window and the monitor together leaves the crop unchanged:
/// only their relative position matters.
pub proof fn law_crop_ignores_common_shift(
    wx: i32,
    wy: i32,
    ww: u32,
    wh: u32,
    m: MonitorInfo,
    dx: int,
    dy: int,
)
    requires
        i32::MIN <= wx + dx <= i32::MAX,
        i32::MIN <= wy + dy <= i32::MAX,
        i32::MIN <= m.x + dx <= i32::MAX,
        i32::MIN <= m.y + dy <= i32::MAX,
    ensures
        crop_spec(
            (wx + dx) as i32,
            (wy + dy) as i32,
            ww,
            wh,
            MonitorInfo { x: (m.x + dx) as i32, y: (m.y + dy) as i32, ..m },
        ) == crop_spec(wx, wy, ww, wh, m),
{
}

/// A window's position and size from its edges; a negative extent counts
/// as zero.
pub fn window_rect(left: i32, top: i32, right: i32, bottom: i32) -> (r: (i32, i32, u32, u32))
    requires
        i32::MIN <= right - left <= i32::MAX,
        i32::MIN <= bottom - top <= i32::MAX,
    ensures
        r.0 == left,
        r.1 == top,
        r.2 == (if right - left > 0 {
            right - left
        } else {
            0
        }),
        r.3 == (if bottom - top > 0 {
            bottom - top
        } else {
            0
        }),
{
    let w = right - left;
    let h = bottom - top;
    let w: u32 = if w > 0 {
        w as u32
    } else {
        0
    };
    let h: u32 = if h > 0 {
        h as u32
    } else {
        0
    };
    (left, top, w, h)
}

/// The file a screenshot taken at `stamp` (seconds since the epoch) is
/// saved to: `screenshot_{stamp}.png`.
pub fn screenshot_file_name(stamp: u64) -> (r: String)
    ensures
        r@ == "screenshot_"@ + decimal(stamp as nat) + ".png"@,
{
    let mut s = String::from_str("screenshot_");
    push_decimal(&mut s, stamp);
    s.append(".png");
    s
}

/// The names of the PNG files, in lexicographic order.
pub open spec fn png_names(names: Seq<String>) -> Seq<Seq<char>>
    decreases names.len(),
{
    if names.len() == 0 {
        Seq::empty()
    } else if stem_for(names.last()@, "png"@) is Some {
        png_names(names.drop_last()).push(names.last()@)
    } else {
        png_names(names.drop_last())
    }
}

/// The screenshot listing: the PNG file names of the folder sorted and
/// reversed (newest stamp first), the first ten of them, and how many
/// there are in all.
pub fn recent_screenshots(file_names: &Vec<String>) -> (r: (Vec<String>, usize))
    ensures
        ({
            let all = png_names(file_names@).sort_by(lex_order()).reverse();
            &&& r.1 == all.len()
            &&& views(r.0@) == all.take(if all.len() < 10 {
                all.len() as int
            } else {
                10
            })
        }),
{
    let mut pngs: Vec<String> = Vec::new();
    let n = file_names.len();
    for i in 0..n
        invariant
            n == file_names@.len(),
            views(pngs@) == png_names(file_names@.take(i as int)),
    {
        proof {
            assert(file_names@.take(i + 1).drop_last() =~= file_names@.take(i as int));
            assert(file_names@.take(i + 1).last() == file_names@[i as int]);
        }
        if file_stem_for(file_names[i].as_str(), "png").is_some() {
            pngs.push(file_names[i].clone());
            proof {
                assert(views(pngs@) =~= views(pngs@.drop_last()).push(pngs@.last()@));
            }
        }
    }
    proof {
        assert(file_names@.take(n as int) =~= file_names@);
    }
    let sorted = sort_strings(pngs);
    let total = sorted.len();
    let ghost all = views(sorted@).reverse();
    let shown_count: usize = if total < 10 {
        total
    } else {
        10
    };
    let mut shown: Vec<String> = Vec::new();
    for k in 0..shown_count
        invariant
            shown_count <= total,
            total == sorted@.len(),
            all == views(sorted@).reverse(),
            views(shown@) == all.take(k as int),
    {
        let item = sorted[total - 1 - k].clone();
        let ghost before = shown@;
        shown.push(item);
        proof {
            assert(all[k as int] == views(sorted@)[total - 1 - k]);
            assert(views(shown@) =~= views(before).push(item@));
            assert(views(shown@) =~= all.take(k + 1));
        }
    }
    (shown, total)
}

} // verus!
