//! Playback of recorded sessions: the mouse operations each action stands
//! for, the checks between actions, and the summaries shown before playing.
use vstd::prelude::*;
use crate::recorder::{Action, ActionKind, Recording};

verus! {

/// One operation of the simulated mouse.
#[derive(Clone, Copy, Debug, PartialEq, Eq)]
pub enum MouseStep<T> {
    /// Move the pointer to absolute screen coordinates.
    MoveTo { x: i32, y: i32 },
    /// Press and release the left button.
    Click,
    /// Press the left button.
    Press,
    /// Release the left button.
    Release,
    /// Wait for the recorded length (to be divided by the playback speed).
    Wait(T),
}

/// The mouse operations that replay one action.
pub open spec fn mouse_steps_spec<T>(a: Action<T>) -> Seq<MouseStep<T>> {
    match a.kind {
        ActionKind::Click => seq![MouseStep::MoveTo { x: a.x, y: a.y }, MouseStep::Click],
        ActionKind::Move => seq![MouseStep::MoveTo { x: a.x, y: a.y }],
        ActionKind::Delay { duration } => seq![MouseStep::Wait(duration)],
        ActionKind::Drag { start_x, start_y } => seq![
            MouseStep::MoveTo { x: start_x, y: start_y },
            MouseStep::Press,
            MouseStep::MoveTo { x: a.x, y: a.y },
            MouseStep::Release,
        ],
    }
}

pub fn mouse_steps<T: Copy>(a: &Action<T>) -> (r: Vec<MouseStep<T>>)
    ensures
        r@ == mouse_steps_spec(*a),
{
    let mut v: Vec<MouseStep<T>> = Vec::new();
    match a.kind {
        ActionKind::Click => {
            v.push(MouseStep::MoveTo { x: a.x, y: a.y });
            v.push(MouseStep::Click);
        },
        ActionKind::Move => {
            v.push(MouseStep::MoveTo { x: a.x, y: a.y });
        },
        ActionKind::Delay { duration } => {
            v.push(MouseStep::Wait(duration));
        },
        ActionKind::Drag { start_x, start_y } => {
            v.push(MouseStep::MoveTo { x: start_x, y: start_y });
            v.push(MouseStep::Press);
            v.push(MouseStep::MoveTo { x: a.x, y: a.y });
            v.push(MouseStep::Release);
        },
    }
    proof {
        assert(v@ =~= mouse_steps_spec(*a));
    }
    v
}

pub open spec fn kind_name_spec<T>(k: ActionKind<T>) -> Seq<char> {
    match k {
        ActionKind::Click => "click"@,
        ActionKind::Move => "move"@,
        ActionKind::Delay { .. } => "delay"@,
        ActionKind::Drag { .. } => "drag"@,
    }
}

pub fn action_kind_name<T>(k: &ActionKind<T>) -> (r: &'static str)
    ensures
        r@ == kind_name_spec(*k),
{
    match k {
        ActionKind::Click => "click",
        ActionKind::Move => "move",
        ActionKind::Delay { .. } => "delay",
        ActionKind::Drag { .. } => "drag",
    }
}

/// 0 for clicks, 1 for moves, 2 for delays, 3 for drags.
pub open spec fn kind_tag<T>(k: ActionKind<T>) -> int {
    match k {
        ActionKind::Click => 0,
        ActionKind::Move => 1,
        ActionKind::Delay { .. } => 2,
        ActionKind::Drag { .. } => 3,
    }
}

/// How many of the actions have the given kind tag.
pub open spec fn count_kind<T>(s: Seq<Action<T>>, tag: int) -> nat
    decreases s.len(),
{
    if s.len() == 0 {
        0
    } else {
        count_kind(s.drop_last(), tag) + if kind_tag(s.last().kind) == tag {
            1nat
        } else {
            0nat
        }
    }
}

pub open spec fn row(name: Seq<char>, n: nat) -> Seq<(Seq<char>, nat)> {
    if n > 0 {
        seq![(name, n)]
    } else {
        Seq::empty()
    }
}

/// The per-kind counts shown in a preview: one row for each kind that
/// occurs, in the order of the kind names (click, delay, drag, move).
pub open spec fn breakdown_spec<T>(s: Seq<Action<T>>) -> Seq<(Seq<char>, nat)> {
    row("click"@, count_kind(s, 0)) + row("delay"@, count_kind(s, 2)) + row("drag"@, count_kind(
        s,
        3,
    )) + row("move"@, count_kind(s, 1))
}

pub open spec fn rows_view(r: Seq<(&'static str, usize)>) -> Seq<(Seq<char>, nat)> {
    r.map_values(|p: (&'static str, usize)| (p.0@, p.1 as nat))
}

fn push_row(out: &mut Vec<(&'static str, usize)>, name: &'static str, n: usize)
    ensures
        rows_view(final(out)@) == rows_view(old(out)@) + row(name@, n as nat),
{
    let ghost before = out@;
    if n > 0 {
        out.push((name, n));
        proof {
            assert(rows_view(out@) =~= rows_view(before) + row(name@, n as nat));
        }
    } else {
        assert(rows_view(out@) =~= rows_view(before) + row(name@, n as nat));
    }
}

/// Counts the actions of each kind.
pub fn kind_breakdown<T>(actions: &Vec<Action<T>>) -> (r: Vec<(&'static str, usize)>)
    ensures
        rows_view(r@) == breakdown_spec(actions@),
{
    let mut counts: [usize; 4] = [0, 0, 0, 0];
    let n = actions.len();
    for i in 0..n
        invariant
            n == actions@.len(),
            counts@.len() == 4,
            forall|t: int| 0 <= t < 4 ==> counts@[t] == count_kind(actions@.take(i as int), t),
    {
        proof {
            assert(actions@.take(i + 1).drop_last() =~= actions@.take(i as int));
            assert(actions@.take(i + 1).last() == actions@[i as int]);
            assert forall|t: int| 0 <= t < 4 implies counts@[t] <= i by {
                lemma_count_kind_bound(actions@.take(i as int), t);
            }
        }
        let t: usize = match actions[i].kind {
            ActionKind::Click => 0,
            ActionKind::Move => 1,
            ActionKind::Delay { .. } => 2,
            ActionKind::Drag { .. } => 3,
        };
        counts[t] = counts[t] + 1;
    }
    proof {
        assert(actions@.take(n as int) =~= actions@);
    }
    let mut out: Vec<(&'static str, usize)> = Vec::new();
    assert(rows_view(out@) =~= Seq::empty());
    push_row(&mut out, "click", counts[0]);
    push_row(&mut out, "delay", counts[2]);
    push_row(&mut out, "drag", counts[3]);
    push_row(&mut out, "move", counts[1]);
    out
}

proof fn lemma_count_kind_bound<T>(s: Seq<Action<T>>, tag: int)
    ensures
        count_kind(s, tag) <= s.len(),
    decreases s.len(),
{
    if s.len() > 0 {
        lemma_count_kind_bound(s.drop_last(), tag);
    }
}

/// How many actions a preview lists (the first ten), and how many it
/// leaves out.
pub fn preview_split(len: usize) -> (r: (usize, usize))
    ensures
        r.0 == (if len < 10 {
            len
        } else {
            10
        }),
        r.1 == (if len > 10 {
            len - 10
        } else {
            0
        }),
{
    if len > 10 {
        (10, len - 10)
    } else {
        (len, 0)
    }
}

pub open spec fn on_screen(x: i32, y: i32, width: i32, height: i32) -> bool {
    0 <= x < width && 0 <= y < height
}

/// The actions whose position lies off a `width` x `height` screen, with
/// their indices, in order.
pub open spec fn off_screen_spec<T>(s: Seq<Action<T>>, width: i32, height: i32) -> Seq<
    (usize, i32, i32),
>
    decreases s.len(),
{
    if s.len() == 0 {
        Seq::empty()
    } else {
        let rest = off_screen_spec(s.drop_last(), width, height);
        let a = s.last();
        if on_screen(a.x, a.y, width, height) {
            rest
        } else {
            rest.push(((s.len() - 1) as usize, a.x, a.y))
        }
    }
}

/// The off-screen report is exact: each entry is an action's index and
/// position, that position lies outside `[0, width) x [0, height)`, the
/// indices rise strictly, and every action whose x or y falls outside the
/// screen is reported.
pub proof fn law_off_screen_report_is_exact<T>(s: Seq<Action<T>>, width: i32, height: i32)
    requires
        s.len() <= usize::MAX,
    ensures
        ({
            let o = off_screen_spec(s, width, height);
            &&& forall|j: int|
                0 <= j < o.len() ==> {
                    let e = #[trigger] o[j];
                    &&& e.0 < s.len()
                    &&& e.1 == s[e.0 as int].x
                    &&& e.2 == s[e.0 as int].y
                    &&& !(0 <= e.1 && e.1 < width && 0 <= e.2 && e.2 < height)
                }
            &&& forall|j: int, k: int| 0 <= j < k < o.len() ==> (#[trigger] o[j]).0 < (#[trigger] o[k]).0
            &&& forall|i: int|
                0 <= i < s.len() && !(0 <= (#[trigger] s[i]).x && s[i].x < width && 0 <= s[i].y
                    && s[i].y < height) ==> exists|j: int| 0 <= j < o.len() && (#[trigger] o[j]).0 == i
        }),
    decreases s.len(),
{
    if s.len() > 0 {
        let t = s.drop_last();
        law_off_screen_report_is_exact(t, width, height);
        let rest = off_screen_spec(t, width, height);
        let o = off_screen_spec(s, width, height);
        let a = s.last();
        let on = on_screen(a.x, a.y, width, height);
        assert(o == (if on {
            rest
        } else {
            rest.push(((s.len() - 1) as usize, a.x, a.y))
        }));
        assert(forall|j: int| 0 <= j < rest.len() ==> o[j] == rest[j]);
        assert(forall|j: int| 0 <= j < rest.len() ==> (#[trigger] rest[j]).0 < t.len());
        assert(forall|i: int| 0 <= i < t.len() ==> t[i] == s[i]);
        assert(on ==> o.len() == rest.len());
        assert(!on ==> o.len() == rest.len() + 1 && o[rest.len() as int] == (
        (s.len() - 1) as usize, a.x, a.y));
        assert forall|i: int|
            0 <= i < s.len() && !(0 <= (#[trigger] s[i]).x && s[i].x < width && 0 <= s[i].y
                && s[i].y < height) implies exists|j: int| 0 <= j < o.len() && (#[trigger] o[j]).0
            == i by {
            if i < t.len() {
                assert(t[i] == s[i]);
                let j = choose|j: int| 0 <= j < rest.len() && (#[trigger] rest[j]).0 == i;
                assert(o[j] == rest[j]);
            } else {
                assert(i == s.len() - 1 && s[i] == a);
                assert(!on);
                assert(o[rest.len() as int].0 == i);
            }
        }
    }
}

/// What validating a session finds.
pub enum Validation<T> {
    NotFound,
    NoActions,
    Checked { valid: bool, total_actions: usize, duration: T, out_of_bounds: Vec<(usize, i32, i32)> },
}

/// Checks that every action of the session lies on a `width` x `height`
/// screen.
pub fn validate_recording<T: Copy>(recording: Option<&Recording<T>>, width: i32, height: i32) -> (r:
    Validation<T>)
    ensures
        match recording {
            None => r is NotFound,
            Some(rec) => if rec.actions@.len() == 0 {
                r is NoActions
            } else {
                r matches Validation::Checked { valid, total_actions, duration, out_of_bounds }
                    && out_of_bounds@ == off_screen_spec(rec.actions@, width, height) && valid == (
                out_of_bounds@.len() == 0) && total_actions == rec.actions@.len() && duration
                    == rec.duration
            },
        },
{
    match recording {
        None => Validation::NotFound,
        Some(rec) => {
            let n = rec.actions.len();
            if n == 0 {
                return Validation::NoActions;
            }
            let mut oob: Vec<(usize, i32, i32)> = Vec::new();
            for i in 0..n
                invariant
                    n == rec.actions@.len(),
                    oob@ == off_screen_spec(rec.actions@.take(i as int), width, height),
            {
                proof {
                    assert(rec.actions@.take(i + 1).drop_last() =~= rec.actions@.take(i as int));
                    assert(rec.actions@.take(i + 1).last() == rec.actions@[i as int]);
                }
                let a = &rec.actions[i];
                if !(0 <= a.x && a.x < width && 0 <= a.y && a.y < height) {
                    oob.push((i, a.x, a.y));
                }
            }
            proof {
                assert(rec.actions@.take(n as int) =~= rec.actions@);
            }
            let valid = oob.len() == 0;
            Validation::Checked { valid, total_actions: n, duration: rec.duration, out_of_bounds: oob }
        },
    }
}

/// Why playback ended before the last action.
#[derive(Clone, Copy, Debug, PartialEq, Eq, Structural)]
pub enum PlaybackStop {
    /// The playing flag was lowered.
    Halted,
    /// Escape was pressed.
    Emergency,
    /// F9 was pressed.
    ByUser,
}

/// The pause state of a playback.
pub struct PlaybackControl {
    pub paused: bool,
}

impl PlaybackControl {
    pub fn new() -> (r: PlaybackControl)
        ensures
            !r.paused,
    {
        PlaybackControl { paused: false }
    }

    /// The checks before each action: a lowered flag, Escape or F9 end the
    /// playback (in that order); otherwise F8 toggles the pause.
    pub fn gate(&mut self, playing: bool, escape: bool, f9: bool, f8: bool) -> (r: Option<
        PlaybackStop,
    >)
        ensures
            r == (if !playing {
                Some(PlaybackStop::Halted)
            } else if escape {
                Some(PlaybackStop::Emergency)
            } else if f9 {
                Some(PlaybackStop::ByUser)
            } else {
                None
            }),
            final(self).paused == (if r is None && f8 {
                !old(self).paused
            } else {
                old(self).paused
            }),
    {
        if !playing {
            return Some(PlaybackStop::Halted);
        }
        if escape {
            return Some(PlaybackStop::Emergency);
        }
        if f9 {
            return Some(PlaybackStop::ByUser);
        }
        if f8 {
            self.paused = !self.paused;
        }
        None
    }

    /// One poll while paused: F8 resumes. Returns whether to keep waiting.
    pub fn hold(&mut self, playing: bool, f8: bool) -> (r: bool)
        ensures
            final(self).paused == (old(self).paused && !f8),
            r == (final(self).paused && playing),
    {
        if f8 {
            self.paused = false;
        }
        self.paused && playing
    }

    /// Whether the pause loop should be entered at all.
    pub fn must_wait(&self, playing: bool) -> (r: bool)
        ensures
            r == (self.paused && playing),
    {
        self.paused && playing
    }
}

/// Whether a pause before the action at `index` is due: every action but
/// the first waits for its distance in time from the previous one.
pub fn waits_before(index: usize) -> (r: bool)
    ensures
        r == (index > 0),
{
    index > 0
}

} // verus!
