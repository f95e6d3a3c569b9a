//! Recorded attack sessions and the decisions of the recording loop: which
//! clicks and moves to keep, what a session file is called, which files
//! are sessions.
//!
//! Time values (timestamps, delay lengths) are carried as the type
//! parameter `T`; this module never computes with them.
use vstd::prelude::*;
use vstd::string::*;
use crate::text::{chars_of, matches_at, sort_strings, views, lex_order};

verus! {

/// What a recorded action does.
#[derive(Clone, Copy, Debug, PartialEq, Eq)]
pub enum ActionKind<T> {
    Click,
    Move,
    Delay { duration: T },
    Drag { start_x: i32, start_y: i32 },
}

#[derive(Clone, Copy, Debug, PartialEq, Eq)]
pub struct Action<T> {
    pub kind: ActionKind<T>,
    pub x: i32,
    pub y: i32,
    pub timestamp: T,
    pub relative_time: T,
}

#[derive(Clone, Debug)]
pub struct Recording<T> {
    pub name: String,
    pub created: String,
    pub duration: T,
    pub actions: Vec<Action<T>>,
}

/// A recording of the given actions: its duration is the timestamp of the
/// last action, or `zero` when there is none.
pub fn recording_from<T: Copy>(name: String, created: String, actions: Vec<Action<T>>, zero: T) -> (r:
    Recording<T>)
    ensures
        r.name == name,
        r.created == created,
        r.actions@ == actions@,
        r.duration == (if actions@.len() == 0 {
            zero
        } else {
            actions@.last().timestamp
        }),
{
    let duration = if actions.len() == 0 {
        zero
    } else {
        actions[actions.len() - 1].timestamp
    };
    Recording { name, created, duration, actions }
}

/// The file a session is saved to: `{name}_{stamp}.json`.
pub fn recording_file_name(name: &str, stamp: &str) -> (r: String)
    ensures
        r@ == name@ + "_"@ + stamp@ + ".json"@,
{
    let mut s = String::from_str(name);
    s.append("_");
    s.append(stamp);
    s.append(".json");
    s
}

/// The file a named session is read from: `{name}.json`.
pub fn session_file_name(name: &str) -> (r: String)
    ensures
        r@ == name@ + ".json"@,
{
    let mut s = String::from_str(name);
    s.append(".json");
    s
}

/// Index of the last `.` in `s`, if any.
pub open spec fn last_dot(s: Seq<char>) -> Option<int>
    decreases s.len(),
{
    if s.len() == 0 {
        None
    } else if s.last() == '.' {
        Some(s.len() - 1)
    } else {
        last_dot(s.drop_last())
    }
}

/// The stem of a file name whose extension is `ext`, as `Path::extension`
/// and `Path::file_stem` split it: at the last `.`, which must not be the
/// first character.
pub open spec fn stem_for(name: Seq<char>, ext: Seq<char>) -> Option<Seq<char>> {
    match last_dot(name) {
        Some(p) => if p > 0 && name.subrange(p + 1, name.len() as int) == ext {
            Some(name.subrange(0, p))
        } else {
            None
        },
        None => None,
    }
}

pub open spec fn json_stem(name: Seq<char>) -> Option<Seq<char>> {
    stem_for(name, "json"@)
}

/// The stems of the `.json` names, in order.
pub open spec fn json_stems(names: Seq<Seq<char>>) -> Seq<Seq<char>>
    decreases names.len(),
{
    if names.len() == 0 {
        Seq::empty()
    } else {
        match json_stem(names.last()) {
            Some(stem) => json_stems(names.drop_last()).push(stem),
            None => json_stems(names.drop_last()),
        }
    }
}

proof fn lemma_last_dot(s: Seq<char>)
    ensures
        last_dot(s) matches Some(p) ==> 0 <= p < s.len() && s[p] == '.',
    decreases s.len(),
{
    if s.len() > 0 && s.last() != '.' {
        lemma_last_dot(s.drop_last());
    }
}

fn find_last_dot(v: &Vec<char>) -> (r: Option<usize>)
    ensures
        match last_dot(v@) {
            Some(p) => r == Some(p as usize),
            None => r is None,
        },
{
    let mut i = v.len();
    assert(v@.take(i as int) =~= v@);
    while i > 0
        invariant
            i <= v@.len(),
            last_dot(v@) == last_dot(v@.take(i as int)),
        decreases i,
    {
        assert(v@.take(i as int).drop_last() =~= v@.take(i - 1));
        if v[i - 1] == '.' {
            return Some(i - 1);
        }
        i = i - 1;
    }
    None
}

/// The stem of a file name with extension `ext`.
pub fn file_stem_for(name: &str, ext: &str) -> (r: Option<String>)
    ensures
        match stem_for(name@, ext@) {
            Some(stem) => r matches Some(s) && s@ == stem,
            None => r is None,
        },
{
    let v = chars_of(name);
    proof {
        lemma_last_dot(name@);
    }
    match find_last_dot(&v) {
        Some(p) => {
            if p == 0 {
                return None;
            }
            assert(p < v@.len());
            let tail = name.substring_char(p + 1, v.len());
            let tv = chars_of(tail);
            let ev = chars_of(ext);
            if tv.len() != ev.len() || !matches_at(&tv, &ev, 0) {
                assert(tail@ != ext@) by {
                    if tv@.len() == ev@.len() {
                        assert(tv@.subrange(0, ev@.len() as int) =~= tv@);
                    }
                }
                return None;
            }
            assert(tv@.subrange(0, ev@.len() as int) =~= tv@);
            Some(String::from_str(name.substring_char(0, p)))
        },
        None => None,
    }
}

/// The stem of a file name with extension `json`.
pub fn json_file_stem(name: &str) -> (r: Option<String>)
    ensures
        match json_stem(name@) {
            Some(stem) => r matches Some(s) && s@ == stem,
            None => r is None,
        },
{
    file_stem_for(name, "json")
}

/// The session names among the file names of the recordings directory:
/// the stems of the `.json` files, in lexicographic order.
pub fn session_names(file_names: &Vec<String>) -> (r: Vec<String>)
    ensures
        views(r@) == json_stems(views(file_names@)).sort_by(lex_order()),
{
    let mut stems: Vec<String> = Vec::new();
    let n = file_names.len();
    for i in 0..n
        invariant
            n == file_names@.len(),
            views(stems@) == json_stems(views(file_names@.take(i as int))),
    {
        let stem = json_file_stem(file_names[i].as_str());
        proof {
            assert(views(file_names@.take(i + 1)).drop_last() =~= views(file_names@.take(i as int)));
            assert(views(file_names@.take(i + 1)).last() == file_names@[i as int]@);
        }
        match stem {
            Some(s) => {
                stems.push(s);
                proof {
                    assert(views(stems@) =~= views(stems@.drop_last()).push(stems@.last()@));
                }
            },
            None => {},
        }
    }
    proof {
        assert(file_names@.take(n as int) =~= file_names@);
    }
    sort_strings(stems)
}

/// How a recording ended, as the loop saw it.
#[derive(Clone, Copy, Debug, PartialEq, Eq, Structural)]
pub enum RecordingStop {
    /// Escape: the recording is cancelled (what was captured is still kept).
    Cancelled,
    /// F5: the recording is stopped.
    Stopped,
}

/// What one poll of the hotkeys asks of the recording loop.
#[derive(Clone, Copy, Debug, PartialEq, Eq, Structural)]
pub struct RecordingKeys {
    pub stop: Option<RecordingStop>,
    /// F6: record a click at the cursor.
    pub manual_click: bool,
    /// F7: ask for a delay and record it.
    pub ask_delay: bool,
}

pub fn recording_keys(escape: bool, f5: bool, f6: bool, f7: bool) -> (r: RecordingKeys)
    ensures
        r.stop == (if escape {
            Some(RecordingStop::Cancelled)
        } else if f5 {
            Some(RecordingStop::Stopped)
        } else {
            None
        }),
        r.manual_click == (!escape && !f5 && f6),
        r.ask_delay == (!escape && !f5 && f7),
{
    if escape {
        RecordingKeys { stop: Some(RecordingStop::Cancelled), manual_click: false, ask_delay: false }
    } else if f5 {
        RecordingKeys { stop: Some(RecordingStop::Stopped), manual_click: false, ask_delay: false }
    } else {
        RecordingKeys { stop: None, manual_click: f6, ask_delay: f7 }
    }
}

#[derive(Clone, Copy, Debug, PartialEq, Eq, Structural)]
pub struct Pos {
    pub x: i32,
    pub y: i32,
}

/// Something the mouse watcher wants recorded at the cursor.
#[derive(Clone, Copy, Debug, PartialEq, Eq, Structural)]
pub enum Observed {
    Click(Pos),
    Move(Pos),
}

/// Two automatic clicks closer than this (in nanoseconds) count as one.
pub const CLICK_DEBOUNCE_NANOS: u64 = 150_000_000;

/// A move is recorded once the cursor is farther than this many pixels from
/// the last recorded position.
pub const MOVE_THRESHOLD: i64 = 50;

pub open spec fn dist_sq(a: Pos, b: Pos) -> int {
    (a.x - b.x) * (a.x - b.x) + (a.y - b.y) * (a.y - b.y)
}

/// The mouse watcher of the recording loop.
pub struct RecordingTracker {
    /// Whether clicks are detected automatically.
    pub auto: bool,
    /// The last position a move was recorded at (or where recording began).
    pub last_pos: Pos,
    /// When the last automatic click was recorded, in nanoseconds.
    pub last_click: u64,
    pub prev_left: bool,
    pub prev_right: bool,
}

impl RecordingTracker {
    pub fn new(auto: bool, cursor: Pos) -> (r: RecordingTracker)
        ensures
            r == (RecordingTracker {
                auto,
                last_pos: cursor,
                last_click: 0,
                prev_left: false,
                prev_right: false,
            }),
    {
        RecordingTracker { auto, last_pos: cursor, last_click: 0, prev_left: false, prev_right: false }
    }

    /// Whether an automatic click is recorded on this poll: a button went
    /// down since the last poll, and the last automatic click is more than
    /// the debounce time ago.
    pub open spec fn click_spec(self, now: u64, left: bool, right: bool) -> bool {
        &&& self.auto
        &&& ((left && !self.prev_left) || (right && !self.prev_right))
        &&& now - self.last_click > CLICK_DEBOUNCE_NANOS
    }

    pub open spec fn move_spec(self, cursor: Pos) -> bool {
        dist_sq(self.last_pos, cursor) > MOVE_THRESHOLD * MOVE_THRESHOLD
    }

    /// One poll of the mouse at time `now` (nanoseconds since recording
    /// began), with the button states, the cursor position read for a click
    /// (`click_at`) and the one read afterwards for the movement check
    /// (`cursor`). Returns what to record, automatic click first.
    pub fn observe(
        &mut self,
        now: u64,
        left: bool,
        right: bool,
        click_at: Pos,
        cursor: Pos,
    ) -> (r: Vec<Observed>)
        requires
            i32::MIN <= old(self).last_pos.x - cursor.x <= i32::MAX,
            i32::MIN <= old(self).last_pos.y - cursor.y <= i32::MAX,
        ensures
            ({
                let click = old(self).click_spec(now, left, right);
                let moved = old(self).move_spec(cursor);
                &&& r@ == (if click {
                    seq![Observed::Click(click_at)]
                } else {
                    Seq::empty()
                }) + (if moved {
                    seq![Observed::Move(cursor)]
                } else {
                    Seq::empty()
                })
                &&& final(self).auto == old(self).auto
                &&& final(self).last_click == (if click {
                    now
                } else {
                    old(self).last_click
                })
                &&& final(self).prev_left == (if old(self).auto {
                    left
                } else {
                    old(self).prev_left
                })
                &&& final(self).prev_right == (if old(self).auto {
                    right
                } else {
                    old(self).prev_right
                })
                &&& final(self).last_pos == (if moved {
                    cursor
                } else {
                    old(self).last_pos
                })
            }),
    {
        let mut out: Vec<Observed> = Vec::new();
        if self.auto {
            let edge = (left && !self.prev_left) || (right && !self.prev_right);
            if edge && now > self.last_click && now - self.last_click > CLICK_DEBOUNCE_NANOS {
                out.push(Observed::Click(click_at));
                self.last_click = now;
            }
            self.prev_left = left;
            self.prev_right = right;
        }
        let dx = (self.last_pos.x as i64) - (cursor.x as i64);
        let dy = (self.last_pos.y as i64) - (cursor.y as i64);
        assert(0 <= (dx as i128) * (dx as i128) <= 0x4000_0000_0000_0000) by (nonlinear_arith)
            requires
                -0x8000_0000 <= dx <= 0x7fff_ffff,
        ;
        assert(0 <= (dy as i128) * (dy as i128) <= 0x4000_0000_0000_0000) by (nonlinear_arith)
            requires
                -0x8000_0000 <= dy <= 0x7fff_ffff,
        ;
        let dx2 = (dx as i128) * (dx as i128);
        let dy2 = (dy as i128) * (dy as i128);
        if dx2 + dy2 > (MOVE_THRESHOLD * MOVE_THRESHOLD) as i128 {
            out.push(Observed::Move(cursor));
            self.last_pos = cursor;
        }
        proof {
            assert(out@ =~= (if old(self).click_spec(now, left, right) {
                seq![Observed::Click(click_at)]
            } else {
                Seq::empty()
            }) + (if old(self).move_spec(cursor) {
                seq![Observed::Move(cursor)]
            } else {
                Seq::empty()
            }));
        }
        out
    }
}

/// What stopping a recording leads to.
#[derive(Clone, Copy, Debug, PartialEq, Eq, Structural)]
pub enum RecordingOutcome {
    /// No recording was under way.
    NoSession,
    /// Nothing was recorded: nothing is saved.
    Empty,
    /// The actions are saved.
    Save,
}

pub fn recording_outcome(active: bool, action_count: usize) -> (r: RecordingOutcome)
    ensures
        r == (if !active {
            RecordingOutcome::NoSession
        } else if action_count == 0 {
            RecordingOutcome::Empty
        } else {
            RecordingOutcome::Save
        }),
{
    if !active {
        RecordingOutcome::NoSession
    } else if action_count == 0 {
        RecordingOutcome::Empty
    } else {
        RecordingOutcome::Save
    }
}

/// The session list is in lexicographic order and holds exactly the stems
/// of the `.json` files, each as often as it occurs.
pub proof fn law_session_list_sorted(names: Seq<Seq<char>>)
    ensures
        vstd::relations::sorted_by(json_stems(names).sort_by(lex_order()), lex_order()),
        json_stems(names).sort_by(lex_order()).to_multiset() == json_stems(names).to_multiset(),
{
    crate::text::lemma_lex_total_ordering();
    json_stems(names).lemma_sort_by_ensures(lex_order());
}

/// A recording saved as `{name}_{stamp}.json` is listed as the session
/// `{name}_{stamp}`, and loading that session opens the same file.
pub proof fn law_saved_recording_is_listed(name: Seq<char>, stamp: Seq<char>)
    ensures
        json_stem(name + "_"@ + stamp + ".json"@) == Some(name + "_"@ + stamp),
        (name + "_"@ + stamp) + ".json"@ == name + "_"@ + stamp + ".json"@,
{
    reveal_strlit("_");
    reveal_strlit(".json");
    reveal_strlit("json");
    let x = name + "_"@ + stamp;
    let f = x + ".json"@;
    let f1 = x + seq!['.', 'j', 's', 'o'];
    let f2 = x + seq!['.', 'j', 's'];
    let f3 = x + seq!['.', 'j'];
    let f4 = x + seq!['.'];
    assert(f.drop_last() =~= f1);
    assert(f1.drop_last() =~= f2);
    assert(f2.drop_last() =~= f3);
    assert(f3.drop_last() =~= f4);
    assert(f.last() == 'n' && f1.last() == 'o' && f2.last() == 's' && f3.last() == 'j');
    assert(f4.last() == '.');
    assert(last_dot(f4) == Some(x.len() as int));
    assert(last_dot(f3) == last_dot(f4));
    assert(last_dot(f2) == last_dot(f3));
    assert(last_dot(f1) == last_dot(f2));
    assert(last_dot(f) == Some(x.len() as int));
    assert(x.len() > 0);
    assert(f.subrange(x.len() as int + 1, f.len() as int) =~= "json"@);
    assert(f.subrange(0, x.len() as int) =~= x);
}

} // verus!
