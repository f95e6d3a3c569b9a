//! The auto-attack loop as a state machine: from its state and what the last
//! command brought back, it decides the next command (click, screenshot, AI
//! analysis, playback, pause or stop). The caller performs the command.
use vstd::prelude::*;
use vstd::string::*;
use std::collections::HashMap;
use crate::ai_analyzer::Analysis;
use crate::config;
use crate::coordinate_mapper::{Coord, CoordMap};
use crate::text::{eq_ignore_ascii_case, eq_ignore_ascii_case_spec};

verus! {

/// Counters of the attack sequences run since the loop started. Times are
/// readings of the caller's clock.
#[derive(Clone, Copy, Debug, PartialEq, Eq, Structural)]
pub struct Stats {
    pub total_attacks: u32,
    pub successful_attacks: u32,
    pub failed_attacks: u32,
    pub start_time: Option<u64>,
    pub last_attack_time: Option<u64>,
}

impl Default for Stats {
    fn default() -> (r: Stats)
        ensures
            r == (Stats {
                total_attacks: 0,
                successful_attacks: 0,
                failed_attacks: 0,
                start_time: None,
                last_attack_time: None,
            }),
    {
        Stats {
            total_attacks: 0,
            successful_attacks: 0,
            failed_attacks: 0,
            start_time: None,
            last_attack_time: None,
        }
    }
}

/// The buttons the loop clicks, with what each is for, in a fixed order.
pub fn required_button_list() -> (r: Vec<(&'static str, &'static str)>)
    ensures
        r@.len() == 5,
        r@[0].0@ == "attack"@,
        r@[0].1@ == "Main attack button on home screen"@,
        r@[1].0@ == "find_a_match"@,
        r@[1].1@ == "Find match/search button in attack screen"@,
        r@[2].0@ == "next_button"@,
        r@[2].1@ == "Next button to skip bases with low loot"@,
        r@[3].0@ == "return_home"@,
        r@[3].1@ == "Return home button after battle completion"@,
        r@[4].0@ == "end_button"@,
        r@[4].1@ == "End battle button (restart search loop)"@,
{
    let mut v: Vec<(&'static str, &'static str)> = Vec::new();
    v.push(("attack", "Main attack button on home screen"));
    v.push(("find_a_match", "Find match/search button in attack screen"));
    v.push(("next_button", "Next button to skip bases with low loot"));
    v.push(("return_home", "Return home button after battle completion"));
    v.push(("end_button", "End battle button (restart search loop)"));
    v
}

/// The required buttons keyed by name. vstd models `HashMap` only for key
/// types that obey its hashing model, which it does not state for `&str`;
/// the contract holds under that model.
pub fn required_buttons() -> (r: HashMap<&'static str, &'static str>)
    ensures
        vstd::std_specs::hash::obeys_key_model::<&'static str>() ==> r@ == Map::<
            &'static str,
            &'static str,
        >::empty().insert("attack", "Main attack button on home screen").insert(
            "find_a_match",
            "Find match/search button in attack screen",
        ).insert("next_button", "Next button to skip bases with low loot").insert(
            "return_home",
            "Return home button after battle completion",
        ).insert("end_button", "End battle button (restart search loop)"),
{
    let mut m: HashMap<&'static str, &'static str> = HashMap::new();
    m.insert("attack", "Main attack button on home screen");
    m.insert("find_a_match", "Find match/search button in attack screen");
    m.insert("next_button", "Next button to skip bases with low loot");
    m.insert("return_home", "Return home button after battle completion");
    m.insert("end_button", "End battle button (restart search loop)");
    m
}

/// The session to play next, in turn: `sessions[idx % len]`, and `idx`
/// moves on to the following one. With no sessions, an empty name.
pub fn next_session(idx: &mut usize, sessions: &Vec<String>) -> (r: String)
    requires
        *old(idx) < usize::MAX,
    ensures
        sessions@.len() == 0 ==> r@ == Seq::<char>::empty() && *final(idx) == *old(idx),
        sessions@.len() > 0 ==> r == sessions@[(*old(idx) as int) % (sessions@.len() as int)] && *final(idx) == (
        *old(idx) + 1) % (sessions@.len() as int),
{
    if sessions.len() == 0 {
        return String::new();
    }
    let name = sessions[*idx % sessions.len()].clone();
    *idx = (*idx + 1) % sessions.len();
    name
}

/// The judgement on an analysed base: no analysis error, a town hall of
/// level 12 or below, and an `ATTACK` recommendation in any ASCII case.
pub open spec fn loot_acceptable_spec(a: Analysis) -> bool {
    &&& !a.error
    &&& a.townhall_level <= 12
    &&& eq_ignore_ascii_case_spec(a.recommendation@, "ATTACK"@)
}

pub fn loot_acceptable(a: &Analysis) -> (r: bool)
    ensures
        r == loot_acceptable_spec(*a),
{
    if a.error {
        return false;
    }
    if a.townhall_level > 12 {
        return false;
    }
    eq_ignore_ascii_case(a.recommendation.as_str(), "ATTACK")
}

/// Positions of the five buttons the loop uses, looked up once.
#[derive(Clone, Copy, Debug, PartialEq, Eq, Structural)]
pub struct Buttons {
    pub attack: Option<Coord>,
    pub find_a_match: Option<Coord>,
    pub next_button: Option<Coord>,
    pub return_home: Option<Coord>,
    pub end_button: Option<Coord>,
}

pub open spec fn lookup(m: Map<Seq<char>, Coord>, name: Seq<char>) -> Option<Coord> {
    if m.contains_key(name) {
        Some(m[name])
    } else {
        None
    }
}

impl Buttons {
    pub fn from_map(m: &CoordMap) -> (r: Buttons)
        requires
            m.wf(),
        ensures
            r.attack == lookup(m@, "attack"@),
            r.find_a_match == lookup(m@, "find_a_match"@),
            r.next_button == lookup(m@, "next_button"@),
            r.return_home == lookup(m@, "return_home"@),
            r.end_button == lookup(m@, "end_button"@),
    {
        Buttons {
            attack: m.get("attack"),
            find_a_match: m.get("find_a_match"),
            next_button: m.get("next_button"),
            return_home: m.get("return_home"),
            end_button: m.get("end_button"),
        }
    }
}

/// What the loop is configured with.
pub struct AttackPlan {
    pub ai_enabled: bool,
    pub min_gold: u64,
    pub min_elixir: u64,
    pub min_dark_elixir: u64,
    pub sessions: Vec<String>,
    pub max_search_attempts: u32,
}

impl AttackPlan {
    pub fn from_config(ai: &config::AiAnalyzer, auto: &config::AutoAttacker) -> (r: AttackPlan)
        ensures
            r.ai_enabled == ai.enabled,
            r.min_gold == ai.min_gold,
            r.min_elixir == ai.min_elixir,
            r.min_dark_elixir == ai.min_dark_elixir,
            r.sessions@ == auto.attack_sessions@,
            r.max_search_attempts == auto.max_search_attempts,
    {
        AttackPlan {
            ai_enabled: ai.enabled,
            min_gold: ai.min_gold,
            min_elixir: ai.min_elixir,
            min_dark_elixir: ai.min_dark_elixir,
            sessions: auto.attack_sessions.clone(),
            max_search_attempts: auto.max_search_attempts,
        }
    }

    /// Bases tried per search pass: the configured count, at least one.
    pub open spec fn attempts(&self) -> u64 {
        if self.max_search_attempts < 1 {
            1
        } else {
            self.max_search_attempts as u64
        }
    }
}

/// The base search runs once, and once more after the end button.
#[derive(Clone, Copy, Debug, PartialEq, Eq, Structural)]
pub enum SearchPass {
    First,
    Retry,
}

/// Where the loop stands: which command it last issued, and so which reply
/// it expects.
#[derive(Clone, Copy, Debug, PartialEq, Eq, Structural)]
pub enum Phase {
    /// At the head of the loop.
    Top,
    AttackClicked,
    FindClicked { pass: SearchPass, attempt: u64 },
    Capturing { pass: SearchPass, attempt: u64 },
    Analysing { pass: SearchPass, attempt: u64 },
    NextClicked { pass: SearchPass, attempt: u64 },
    EndClicked,
    Starting,
    Polling,
    PollPaused,
    StoppingPlayback,
    /// Waiting out the battle; `remaining` seconds are left after this pause.
    Battle { remaining: u64 },
    HomeClicked,
    /// Between attacks; `left` more one-second pauses follow this one.
    Cooldown { left: u64 },
    Stopped,
}

/// What the caller should do next.
#[derive(Debug)]
pub enum Command {
    /// Click at the position, then let the game settle for the given time.
    Click { at: Coord, settle_millis: u64 },
    /// Screenshot the game window.
    Capture,
    /// Have the last screenshot analysed against these minimums.
    Analyze { min_gold: u64, min_elixir: u64, min_dark_elixir: u64 },
    /// Load the recorded session and start playing it.
    Play { session: String },
    /// Report whether the playback has finished (joining it if so).
    CheckPlayback,
    /// Stop the playback and wait for it.
    StopPlayback,
    Pause { millis: u64 },
    /// End the loop.
    Stop,
}

/// What the last command brought back.
#[derive(Debug)]
pub enum Event {
    /// The command is done (or the loop starts).
    Proceed,
    Captured(bool),
    Analyzed(Analysis),
    PlaybackStarted(bool),
    PlaybackStatus { finished: bool },
}

/// The outside state read at each step: the run flag, the emergency-stop
/// chord, the clock, and a number that varies from call to call.
#[derive(Clone, Copy, Debug, PartialEq, Eq, Structural)]
pub struct Sample {
    pub running: bool,
    pub emergency: bool,
    pub now: u64,
    pub jitter: u64,
}

/// The part of the machine that changes.
#[derive(Clone, Copy, Debug, PartialEq, Eq, Structural)]
pub struct Progress {
    pub phase: Phase,
    pub session_idx: usize,
    pub stats: Stats,
}

pub open spec fn pause(ms: u64) -> Command {
    Command::Pause { millis: ms }
}

/// One attack sequence has ended with `success`: count it, then wait 5 to
/// 15 seconds before the next one, or stop if the run flag is down.
pub open spec fn finish_spec(p: Progress, success: bool, smp: Sample) -> (Progress, Command) {
    let stats = Stats {
        total_attacks: (p.stats.total_attacks + 1) as u32,
        successful_attacks: if success {
            (p.stats.successful_attacks + 1) as u32
        } else {
            p.stats.successful_attacks
        },
        failed_attacks: if success {
            p.stats.failed_attacks
        } else {
            (p.stats.failed_attacks + 1) as u32
        },
        start_time: p.stats.start_time,
        last_attack_time: Some(smp.now),
    };
    if smp.running {
        let delay = 5 + smp.jitter % 11;
        (
            Progress { phase: Phase::Cooldown { left: (delay - 1) as u64 }, stats, ..p },
            pause(1000),
        )
    } else {
        (Progress { phase: Phase::Stopped, stats, ..p }, Command::Stop)
    }
}

/// Head of the loop: stop on a lowered flag or the emergency chord, else
/// click the attack button (a sequence without it fails at once).
pub open spec fn top_spec(b: Buttons, p: Progress, smp: Sample) -> (Progress, Command) {
    if !smp.running || smp.emergency {
        (Progress { phase: Phase::Stopped, ..p }, Command::Stop)
    } else {
        match b.attack {
            Some(c) => (
                Progress { phase: Phase::AttackClicked, ..p },
                Command::Click { at: c, settle_millis: 2000 },
            ),
            None => finish_spec(p, false, smp),
        }
    }
}

/// Head of one search attempt.
pub open spec fn search_spec(
    plan: AttackPlan,
    b: Buttons,
    p: Progress,
    pass: SearchPass,
    attempt: u64,
    smp: Sample,
) -> (Progress, Command) {
    if attempt > plan.attempts() {
        match pass {
            SearchPass::First => match b.end_button {
                Some(c) => (
                    Progress { phase: Phase::EndClicked, ..p },
                    Command::Click { at: c, settle_millis: 3000 },
                ),
                None => finish_spec(p, false, smp),
            },
            SearchPass::Retry => finish_spec(p, false, smp),
        }
    } else if !smp.running {
        finish_spec(p, false, smp)
    } else {
        match b.find_a_match {
            Some(c) => (
                Progress { phase: Phase::FindClicked { pass, attempt }, ..p },
                Command::Click { at: c, settle_millis: 5000 },
            ),
            None => finish_spec(p, false, smp),
        }
    }
}

/// A base was accepted: play the next session in turn.
pub open spec fn accept_spec(plan: AttackPlan, p: Progress, smp: Sample) -> (Progress, Command) {
    let n = plan.sessions@.len();
    if n == 0 {
        finish_spec(p, false, smp)
    } else {
        let name = plan.sessions@[p.session_idx as int % n as int];
        let q = Progress { session_idx: ((p.session_idx + 1) % (n as int)) as usize, ..p };
        if name@.len() == 0 {
            finish_spec(q, false, smp)
        } else {
            (Progress { phase: Phase::Starting, ..q }, Command::Play { session: name })
        }
    }
}

/// The battle wait: 180 seconds in pauses of at most 10, cut short when
/// the run flag drops; then home.
pub open spec fn battle_spec(b: Buttons, p: Progress, remaining: u64, smp: Sample) -> (
    Progress,
    Command,
) {
    if remaining > 0 && smp.running {
        let step: u64 = if remaining < 10 {
            remaining
        } else {
            10
        };
        (
            Progress { phase: Phase::Battle { remaining: (remaining - step) as u64 }, ..p },
            pause((step * 1000) as u64),
        )
    } else {
        match b.return_home {
            Some(c) => (
                Progress { phase: Phase::HomeClicked, ..p },
                Command::Click { at: c, settle_millis: 5000 },
            ),
            None => finish_spec(p, true, smp),
        }
    }
}

/// The whole transition: the next progress and command.
pub open spec fn transition(plan: AttackPlan, b: Buttons, p: Progress, e: Event, smp: Sample) -> (
    Progress,
    Command,
) {
    let stop = (Progress { phase: Phase::Stopped, ..p }, Command::Stop);
    match (p.phase, e) {
        (Phase::Top, Event::Proceed) => top_spec(b, p, smp),
        (Phase::AttackClicked, Event::Proceed) => {
            if b.find_a_match is Some && b.next_button is Some {
                search_spec(plan, b, p, SearchPass::First, 1, smp)
            } else {
                finish_spec(p, false, smp)
            }
        },
        (Phase::FindClicked { pass, attempt }, Event::Proceed) => (
            Progress { phase: Phase::Capturing { pass, attempt }, ..p },
            Command::Capture,
        ),
        (Phase::Capturing { pass, attempt }, Event::Captured(ok)) => {
            if !ok {
                search_spec(plan, b, p, pass, (attempt + 1) as u64, smp)
            } else if plan.ai_enabled {
                (
                    Progress { phase: Phase::Analysing { pass, attempt }, ..p },
                    Command::Analyze {
                        min_gold: plan.min_gold,
                        min_elixir: plan.min_elixir,
                        min_dark_elixir: plan.min_dark_elixir,
                    },
                )
            } else {
                accept_spec(plan, p, smp)
            }
        },
        (Phase::Analysing { pass, attempt }, Event::Analyzed(a)) => {
            if loot_acceptable_spec(a) {
                accept_spec(plan, p, smp)
            } else {
                match b.next_button {
                    Some(c) => (
                        Progress { phase: Phase::NextClicked { pass, attempt }, ..p },
                        Command::Click { at: c, settle_millis: 3000 },
                    ),
                    None => search_spec(plan, b, p, pass, (attempt + 1) as u64, smp),
                }
            }
        },
        (Phase::NextClicked { pass, attempt }, Event::Proceed) => search_spec(
            plan,
            b,
            p,
            pass,
            (attempt + 1) as u64,
            smp,
        ),
        (Phase::EndClicked, Event::Proceed) => search_spec(plan, b, p, SearchPass::Retry, 1, smp),
        (Phase::Starting, Event::PlaybackStarted(ok)) => {
            if ok {
                (Progress { phase: Phase::Polling, ..p }, Command::CheckPlayback)
            } else {
                finish_spec(p, false, smp)
            }
        },
        (Phase::Polling, Event::PlaybackStatus { finished }) => {
            if finished {
                if smp.running {
                    battle_spec(b, p, 180, smp)
                } else {
                    finish_spec(p, false, smp)
                }
            } else if !smp.running || smp.emergency {
                (Progress { phase: Phase::StoppingPlayback, ..p }, Command::StopPlayback)
            } else {
                (Progress { phase: Phase::PollPaused, ..p }, pause(200))
            }
        },
        (Phase::PollPaused, Event::Proceed) => (
            Progress { phase: Phase::Polling, ..p },
            Command::CheckPlayback,
        ),
        (Phase::StoppingPlayback, Event::Proceed) => {
            if smp.running {
                battle_spec(b, p, 180, smp)
            } else {
                finish_spec(p, false, smp)
            }
        },
        (Phase::Battle { remaining }, Event::Proceed) => battle_spec(b, p, remaining, smp),
        (Phase::HomeClicked, Event::Proceed) => finish_spec(p, true, smp),
        (Phase::Cooldown { left }, Event::Proceed) => {
            if left == 0 || !smp.running {
                top_spec(b, p, smp)
            } else {
                (Progress { phase: Phase::Cooldown { left: (left - 1) as u64 }, ..p }, pause(1000))
            }
        },
        _ => stop,
    }
}

/// What every state of the loop satisfies.
pub open spec fn progress_inv(plan: AttackPlan, p: Progress) -> bool {
    &&& p.stats.total_attacks == p.stats.successful_attacks + p.stats.failed_attacks
    &&& p.stats.start_time is Some
    &&& (p.stats.total_attacks > 0 ==> p.stats.last_attack_time is Some)
    &&& (plan.sessions@.len() > 0 ==> p.session_idx < plan.sessions@.len())
    &&& (plan.sessions@.len() == 0 ==> p.session_idx == 0)
    &&& match p.phase {
        Phase::FindClicked { attempt, .. } => 1 <= attempt <= plan.attempts(),
        Phase::Capturing { attempt, .. } => 1 <= attempt <= plan.attempts(),
        Phase::Analysing { attempt, .. } => 1 <= attempt <= plan.attempts(),
        Phase::NextClicked { attempt, .. } => 1 <= attempt <= plan.attempts(),
        Phase::Battle { remaining } => remaining < 180,
        Phase::Cooldown { left } => left < 15,
        _ => true,
    }
}


/// Every step keeps the loop's invariant: the counters add up, the session
/// index stays in range, and a search attempt never exceeds the configured
/// count (at least one).
pub proof fn law_step_keeps_invariant(
    plan: AttackPlan,
    b: Buttons,
    p: Progress,
    e: Event,
    smp: Sample,
)
    requires
        progress_inv(plan, p),
        p.stats.total_attacks < u32::MAX,
    ensures
        progress_inv(plan, transition(plan, b, p, e, smp).0),
{
}

/// The counters always agree: the total is the successes plus the failures,
/// the start time is set, and once an attack sequence has been counted the
/// time of the last one is set too.
pub proof fn law_counters_agree(plan: AttackPlan, p: Progress)
    requires
        progress_inv(plan, p),
    ensures
        p.stats.total_attacks == p.stats.successful_attacks + p.stats.failed_attacks,
        p.stats.start_time is Some,
        p.stats.total_attacks > 0 ==> p.stats.last_attack_time is Some,
{
}

/// A recorded session is played only right after a base was accepted:
/// a screenshot was taken with AI analysis off, or the analysis found the
/// base acceptable.
pub proof fn law_play_only_after_acceptance(
    plan: AttackPlan,
    b: Buttons,
    p: Progress,
    e: Event,
    smp: Sample,
)
    requires
        progress_inv(plan, p),
        p.stats.total_attacks < u32::MAX,
        transition(plan, b, p, e, smp).1 is Play,
    ensures
        (p.phase is Capturing && !plan.ai_enabled && (e matches Event::Captured(ok) && ok)) || (
        p.phase is Analysing && (e matches Event::Analyzed(a) && loot_acceptable_spec(a))),
{
}

/// A base whose town hall is above level 12 is never attacked, whatever the
/// AI recommends.
pub proof fn law_strong_town_hall_is_skipped(
    plan: AttackPlan,
    b: Buttons,
    p: Progress,
    a: Analysis,
    smp: Sample,
)
    requires
        progress_inv(plan, p),
        p.stats.total_attacks < u32::MAX,
        a.townhall_level > 12,
    ensures
        !(transition(plan, b, p, Event::Analyzed(a), smp).1 is Play),
{
}

/// With AI analysis off, every base that could be screenshotted is attacked.
pub proof fn law_without_ai_every_captured_base_is_taken(
    plan: AttackPlan,
    b: Buttons,
    p: Progress,
    smp: Sample,
)
    requires
        progress_inv(plan, p),
        p.stats.total_attacks < u32::MAX,
        p.phase is Capturing,
        !plan.ai_enabled,
        plan.sessions@.len() > 0,
        plan.sessions@[p.session_idx as int]@.len() > 0,
    ensures
        transition(plan, b, p, Event::Captured(true), smp).1 is Play,
{
    if plan.sessions@.len() > 0 {
        vstd::arithmetic::div_mod::lemma_small_mod(p.session_idx as nat, plan.sessions@.len());
    }
}

/// Sessions are played in turn: the one played is the session at the
/// current index, and the index moves to the next session, wrapping around.
pub proof fn law_sessions_rotate(plan: AttackPlan, b: Buttons, p: Progress, e: Event, smp: Sample)
    requires
        progress_inv(plan, p),
        p.stats.total_attacks < u32::MAX,
    ensures
        transition(plan, b, p, e, smp).1 matches Command::Play { session } ==> session
            == plan.sessions@[p.session_idx as int] && transition(plan, b, p, e, smp).0.session_idx
            == (p.session_idx + 1) % (plan.sessions@.len() as int),
{
    if plan.sessions@.len() > 0 {
        assert(plan.sessions.len() == plan.sessions@.len());
        vstd::arithmetic::div_mod::lemma_mod_bound((p.session_idx + 1) as int, plan.sessions@.len() as int);
        vstd::arithmetic::div_mod::lemma_small_mod(p.session_idx as nat, plan.sessions@.len());
    }
}

/// The counters change only when a sequence ends: then the total grows by
/// one, exactly one of success and failure grows with it, and the end time
/// is recorded. The start time never changes.
pub proof fn law_counters_follow_sequences(
    plan: AttackPlan,
    b: Buttons,
    p: Progress,
    e: Event,
    smp: Sample,
)
    requires
        progress_inv(plan, p),
        p.stats.total_attacks < u32::MAX,
    ensures
        ({
            let s = transition(plan, b, p, e, smp).0.stats;
            &&& s.start_time == p.stats.start_time
            &&& (s == p.stats || (s.total_attacks == p.stats.total_attacks + 1
                && s.successful_attacks + s.failed_attacks == s.total_attacks
                && s.successful_attacks >= p.stats.successful_attacks
                && s.failed_attacks >= p.stats.failed_attacks && s.last_attack_time == Some(
                smp.now)))
        }),
{
}

/// At the head of the loop, a lowered run flag or the emergency chord ends
/// the loop; once ended it stays ended.
pub proof fn law_stop_is_honoured(plan: AttackPlan, b: Buttons, p: Progress, e: Event, smp: Sample)
    requires
        progress_inv(plan, p),
        p.stats.total_attacks < u32::MAX,
    ensures
        (p.phase is Top && (!smp.running || smp.emergency)) ==> transition(
            plan,
            b,
            p,
            e,
            smp,
        ).1 is Stop && transition(plan, b, p, e, smp).0.phase is Stopped,
        p.phase is Stopped ==> transition(plan, b, p, e, smp).1 is Stop && transition(
            plan,
            b,
            p,
            e,
            smp,
        ).0.phase is Stopped,
{
}

/// Between two attack sequences the loop pauses 5 to 15 seconds (one
/// second at a time) while the run flag stays up.
pub proof fn law_cooldown_length(plan: AttackPlan, b: Buttons, p: Progress, e: Event, smp: Sample)
    requires
        progress_inv(plan, p),
        p.stats.total_attacks < u32::MAX,
        smp.running,
        transition(plan, b, p, e, smp).0.stats != p.stats,
    ensures
        transition(plan, b, p, e, smp).0.phase == (Phase::Cooldown {
            left: (4 + smp.jitter % 11) as u64,
        }),
        transition(plan, b, p, e, smp).1 == pause(1000),
{
}


/// A base the analysis rejects is skipped with the next button, when it is
/// mapped, and the search goes on.
pub proof fn law_rejected_base_is_skipped(
    plan: AttackPlan,
    b: Buttons,
    p: Progress,
    a: Analysis,
    smp: Sample,
)
    requires
        progress_inv(plan, p),
        p.stats.total_attacks < u32::MAX,
        p.phase matches Phase::Analysing { .. },
        !loot_acceptable_spec(a),
        b.next_button is Some,
    ensures
        transition(plan, b, p, Event::Analyzed(a), smp).1 == (Command::Click {
            at: b.next_button->0,
            settle_millis: 3000,
        }),
        transition(plan, b, p, Event::Analyzed(a), smp).0.stats == p.stats,
{
}

/// While a session plays, a lowered run flag or the emergency chord stops
/// the playback.
pub proof fn law_emergency_stops_playback(
    plan: AttackPlan,
    b: Buttons,
    p: Progress,
    smp: Sample,
)
    requires
        progress_inv(plan, p),
        p.stats.total_attacks < u32::MAX,
        p.phase is Polling,
        !smp.running || smp.emergency,
    ensures
        transition(plan, b, p, Event::PlaybackStatus { finished: false }, smp).1 is StopPlayback,
{
}

/// After a finished playback, with the run flag up, the battle is waited
/// out in pauses of ten seconds, starting with 170 seconds left.
pub proof fn law_battle_wait_starts(plan: AttackPlan, b: Buttons, p: Progress, smp: Sample)
    requires
        progress_inv(plan, p),
        p.stats.total_attacks < u32::MAX,
        p.phase is Polling,
        smp.running,
    ensures
        transition(plan, b, p, Event::PlaybackStatus { finished: true }, smp).0.phase == (
        Phase::Battle { remaining: 170 }),
        transition(plan, b, p, Event::PlaybackStatus { finished: true }, smp).1 == pause(10000),
{
}


/// The battle wait accounts for every second: each pause lasts exactly the
/// seconds by which the time left shrinks, so with the first ten-second
/// pause the wait adds up to 180 seconds unless the run flag drops.
pub proof fn law_battle_wait_adds_up(
    plan: AttackPlan,
    b: Buttons,
    p: Progress,
    remaining: u64,
    smp: Sample,
)
    requires
        progress_inv(plan, p),
        p.stats.total_attacks < u32::MAX,
        p.phase == (Phase::Battle { remaining }),
        remaining > 0,
        smp.running,
    ensures
        transition(plan, b, p, Event::Proceed, smp).0.phase matches Phase::Battle { remaining: left }
            && left < remaining && transition(plan, b, p, Event::Proceed, smp).1 == pause(
            ((remaining - left) * 1000) as u64,
        ),
{
}

/// How far the base search still has to go: five units for every base
/// left to look at (this one included), plus one for each step left on the
/// current base. Outside the search it is zero.
pub open spec fn search_rank(plan: AttackPlan, phase: Phase) -> int {
    let n = plan.attempts() as int;
    let left = |pass: SearchPass, attempt: u64| match pass {
        SearchPass::First => (n - attempt + 1) + n,
        SearchPass::Retry => n - attempt + 1,
    };
    match phase {
        Phase::FindClicked { pass, attempt } => 5 * left(pass, attempt) + 4,
        Phase::Capturing { pass, attempt } => 5 * left(pass, attempt) + 3,
        Phase::Analysing { pass, attempt } => 5 * left(pass, attempt) + 2,
        Phase::NextClicked { pass, attempt } => 5 * left(pass, attempt) + 1,
        Phase::EndClicked => 5 * (n + 1),
        _ => 0,
    }
}

pub open spec fn in_search(phase: Phase) -> bool {
    ||| phase is FindClicked
    ||| phase is Capturing
    ||| phase is Analysing
    ||| phase is NextClicked
    ||| phase is EndClicked
}

/// The base search always ends: inside it the search rank is positive and
/// at most ten times the attempt count plus four, and every step that stays
/// inside lowers it; so the search is left (a session is played or the
/// sequence fails) within that many steps.
pub proof fn law_search_terminates(plan: AttackPlan, b: Buttons, p: Progress, e: Event, smp: Sample)
    requires
        progress_inv(plan, p),
        p.stats.total_attacks < u32::MAX,
        in_search(p.phase),
    ensures
        search_rank(plan, p.phase) > 0,
        search_rank(plan, p.phase) <= 10 * plan.attempts() + 4,
        in_search(transition(plan, b, p, e, smp).0.phase) ==> search_rank(
            plan,
            transition(plan, b, p, e, smp).0.phase,
        ) < search_rank(plan, p.phase),
{
}

/// A playback that could not be started (its session did not load) ends
/// the attack sequence as a failure at once: no battle is waited out, the
/// failure is counted, and the loop cools down (or stops when the run flag
/// is down).
pub proof fn law_unstarted_playback_fails(plan: AttackPlan, b: Buttons, p: Progress, smp: Sample)
    requires
        progress_inv(plan, p),
        p.stats.total_attacks < u32::MAX,
        p.phase is Starting,
    ensures
        ({
            let (q, c) = transition(plan, b, p, Event::PlaybackStarted(false), smp);
            &&& q.stats.total_attacks == p.stats.total_attacks + 1
            &&& q.stats.failed_attacks == p.stats.failed_attacks + 1
            &&& q.stats.successful_attacks == p.stats.successful_attacks
            &&& q.stats.last_attack_time == Some(smp.now)
            &&& smp.running ==> q.phase is Cooldown && c == (Command::Pause { millis: 1000 })
            &&& !smp.running ==> q.phase is Stopped && c is Stop
        }),
{
}

/// How far the loop is from stopping while the emergency chord is held:
/// zero once stopped; the head of the loop and the cool-down come next;
/// then the return home, the battle wait, the playback, and last the base
/// search and the attack button before it.
pub open spec fn stop_rank(plan: AttackPlan, phase: Phase) -> int {
    let home: int = 17;
    let play: int = home + 181;
    let search: int = play + 3;
    match phase {
        Phase::Stopped => 0,
        Phase::Top => 1,
        Phase::Cooldown { left } => 2 + left,
        Phase::HomeClicked => home,
        Phase::Battle { remaining } => home + 1 + remaining,
        Phase::StoppingPlayback => play,
        Phase::Polling => play + 1,
        Phase::PollPaused => play + 2,
        Phase::Starting => search,
        Phase::AttackClicked => search + 10 * plan.attempts() + 5,
        _ => search + search_rank(plan, phase),
    }
}

/// The most steps the loop can take, with the emergency chord held, before
/// it stops.
pub open spec fn stop_bound(plan: AttackPlan) -> int {
    206 + 10 * plan.attempts()
}

/// With the emergency chord held, every step either stops the loop (the
/// command is then `Stop`) or brings it closer to stopping; and no state is
/// further from stopping than the bound.
pub proof fn law_emergency_step(plan: AttackPlan, b: Buttons, p: Progress, e: Event, smp: Sample)
    requires
        progress_inv(plan, p),
        p.stats.total_attacks < u32::MAX,
        smp.emergency,
    ensures
        0 <= stop_rank(plan, p.phase) <= stop_bound(plan),
        stop_rank(plan, p.phase) == 0 <==> p.phase is Stopped,
        transition(plan, b, p, e, smp).0.phase is Stopped ==> transition(plan, b, p, e, smp).1 is Stop,
        transition(plan, b, p, e, smp).0.phase is Stopped || stop_rank(
            plan,
            transition(plan, b, p, e, smp).0.phase,
        ) < stop_rank(plan, p.phase),
{
    if in_search(p.phase) {
        law_search_terminates(plan, b, p, e, smp);
    }
}

/// The state after taking the steps in order, each an event and the
/// outside state read with it.
pub open spec fn run(plan: AttackPlan, b: Buttons, p: Progress, steps: Seq<(Event, Sample)>) -> Progress
    decreases steps.len(),
{
    if steps.len() == 0 {
        p
    } else {
        run(plan, b, transition(plan, b, p, steps[0].0, steps[0].1).0, steps.drop_first())
    }
}

/// The emergency chord stops the loop from any state: held through as many
/// steps as the bound, the loop has stopped, whatever the events and the
/// run flag.
pub proof fn law_emergency_stops_loop(
    plan: AttackPlan,
    b: Buttons,
    p: Progress,
    steps: Seq<(Event, Sample)>,
)
    requires
        progress_inv(plan, p),
        p.stats.total_attacks + steps.len() < u32::MAX,
        forall|i: int| 0 <= i < steps.len() ==> (#[trigger] steps[i]).1.emergency,
        steps.len() >= stop_bound(plan),
    ensures
        run(plan, b, p, steps).phase is Stopped,
{
    law_emergency_step(plan, b, p, steps[0].0, steps[0].1);
    lemma_stops_within_rank(plan, b, p, steps);
}

/// Held for at least as many steps as the rank, the chord stops the loop.
proof fn lemma_stops_within_rank(plan: AttackPlan, b: Buttons, p: Progress, steps: Seq<(Event, Sample)>)
    requires
        progress_inv(plan, p),
        p.stats.total_attacks + steps.len() < u32::MAX,
        forall|i: int| 0 <= i < steps.len() ==> (#[trigger] steps[i]).1.emergency,
        steps.len() >= stop_rank(plan, p.phase),
    ensures
        run(plan, b, p, steps).phase is Stopped,
    decreases steps.len(),
{
    if steps.len() > 0 {
        let (e, smp) = steps[0];
        assert(steps[0].1.emergency);
        law_emergency_step(plan, b, p, e, smp);
        law_step_keeps_invariant(plan, b, p, e, smp);
        law_counters_follow_sequences(plan, b, p, e, smp);
        let q = transition(plan, b, p, e, smp).0;
        let rest = steps.drop_first();
        assert forall|i: int| 0 <= i < rest.len() implies (#[trigger] rest[i]).1.emergency by {
            assert(rest[i] == steps[i + 1]);
        }
        if q.phase is Stopped {
            lemma_stopped_stays(plan, b, q, rest);
        } else {
            lemma_stops_within_rank(plan, b, q, rest);
        }
    }
}

/// A stopped loop stays stopped.
proof fn lemma_stopped_stays(plan: AttackPlan, b: Buttons, p: Progress, steps: Seq<(Event, Sample)>)
    requires
        p.phase is Stopped,
    ensures
        run(plan, b, p, steps).phase is Stopped,
    decreases steps.len(),
{
    if steps.len() > 0 {
        lemma_stopped_stays(plan, b, transition(plan, b, p, steps[0].0, steps[0].1).0, steps.drop_first());
    }
}

/// Whether a new run may start.
#[derive(Clone, Copy, Debug, PartialEq, Eq, Structural)]
pub enum StartDecision {
    AlreadyRunning,
    NoSessions,
    Start,
}

/// A run starts only when none is running and sessions are configured.
pub fn start_decision(running: bool, session_count: usize) -> (r: StartDecision)
    ensures
        r == (if running {
            StartDecision::AlreadyRunning
        } else if session_count == 0 {
            StartDecision::NoSessions
        } else {
            StartDecision::Start
        }),
{
    if running {
        StartDecision::AlreadyRunning
    } else if session_count == 0 {
        StartDecision::NoSessions
    } else {
        StartDecision::Start
    }
}

/// The auto-attack loop.
pub struct AttackMachine {
    plan: AttackPlan,
    buttons: Buttons,
    progress: Progress,
}

fn finish(p: Progress, success: bool, smp: Sample) -> (r: (Progress, Command))
    requires
        p.stats.total_attacks == p.stats.successful_attacks + p.stats.failed_attacks,
        p.stats.total_attacks < u32::MAX,
    ensures
        r == finish_spec(p, success, smp),
{
    let stats = Stats {
        total_attacks: p.stats.total_attacks + 1,
        successful_attacks: if success {
            p.stats.successful_attacks + 1
        } else {
            p.stats.successful_attacks
        },
        failed_attacks: if success {
            p.stats.failed_attacks
        } else {
            p.stats.failed_attacks + 1
        },
        start_time: p.stats.start_time,
        last_attack_time: Some(smp.now),
    };
    if smp.running {
        let delay = 5 + smp.jitter % 11;
        (
            Progress { phase: Phase::Cooldown { left: delay - 1 }, stats, ..p },
            Command::Pause { millis: 1000 },
        )
    } else {
        (Progress { phase: Phase::Stopped, stats, ..p }, Command::Stop)
    }
}

fn top(b: &Buttons, p: Progress, smp: Sample) -> (r: (Progress, Command))
    requires
        p.stats.total_attacks == p.stats.successful_attacks + p.stats.failed_attacks,
        p.stats.total_attacks < u32::MAX,
    ensures
        r == top_spec(*b, p, smp),
{
    if !smp.running || smp.emergency {
        (Progress { phase: Phase::Stopped, ..p }, Command::Stop)
    } else {
        match b.attack {
            Some(c) => (
                Progress { phase: Phase::AttackClicked, ..p },
                Command::Click { at: c, settle_millis: 2000 },
            ),
            None => finish(p, false, smp),
        }
    }
}

fn search(
    plan: &AttackPlan,
    b: &Buttons,
    p: Progress,
    pass: SearchPass,
    attempt: u64,
    smp: Sample,
) -> (r: (Progress, Command))
    requires
        p.stats.total_attacks == p.stats.successful_attacks + p.stats.failed_attacks,
        p.stats.total_attacks < u32::MAX,
    ensures
        r == search_spec(*plan, *b, p, pass, attempt, smp),
{
    let attempts: u64 = if plan.max_search_attempts < 1 {
        1
    } else {
        plan.max_search_attempts as u64
    };
    if attempt > attempts {
        match pass {
            SearchPass::First => match b.end_button {
                Some(c) => (
                    Progress { phase: Phase::EndClicked, ..p },
                    Command::Click { at: c, settle_millis: 3000 },
                ),
                None => finish(p, false, smp),
            },
            SearchPass::Retry => finish(p, false, smp),
        }
    } else if !smp.running {
        finish(p, false, smp)
    } else {
        match b.find_a_match {
            Some(c) => (
                Progress { phase: Phase::FindClicked { pass, attempt }, ..p },
                Command::Click { at: c, settle_millis: 5000 },
            ),
            None => finish(p, false, smp),
        }
    }
}

fn accept(plan: &AttackPlan, p: Progress, smp: Sample) -> (r: (Progress, Command))
    requires
        progress_inv(*plan, p),
        p.stats.total_attacks < u32::MAX,
    ensures
        r == accept_spec(*plan, p, smp),
{
    if plan.sessions.len() == 0 {
        return finish(p, false, smp);
    }
    let mut idx = p.session_idx;
    let name = next_session(&mut idx, &plan.sessions);
    let q = Progress { session_idx: idx, ..p };
    if name.unicode_len() == 0 {
        finish(q, false, smp)
    } else {
        (Progress { phase: Phase::Starting, ..q }, Command::Play { session: name })
    }
}

fn battle(b: &Buttons, p: Progress, remaining: u64, smp: Sample) -> (r: (Progress, Command))
    requires
        p.stats.total_attacks == p.stats.successful_attacks + p.stats.failed_attacks,
        p.stats.total_attacks < u32::MAX,
        remaining <= 180,
    ensures
        r == battle_spec(*b, p, remaining, smp),
{
    if remaining > 0 && smp.running {
        let step: u64 = if remaining < 10 {
            remaining
        } else {
            10
        };
        (
            Progress { phase: Phase::Battle { remaining: remaining - step }, ..p },
            Command::Pause { millis: step * 1000 },
        )
    } else {
        match b.return_home {
            Some(c) => (
                Progress { phase: Phase::HomeClicked, ..p },
                Command::Click { at: c, settle_millis: 5000 },
            ),
            None => finish(p, true, smp),
        }
    }
}

impl AttackMachine {
    pub closed spec fn progress(&self) -> Progress {
        self.progress
    }

    pub closed spec fn plan(&self) -> AttackPlan {
        self.plan
    }

    pub closed spec fn buttons(&self) -> Buttons {
        self.buttons
    }

    /// The machine's invariant.
    pub open spec fn inv(&self) -> bool {
        progress_inv(self.plan(), self.progress())
    }

    /// A machine at the head of the loop, with counters started at `now`.
    pub fn new(plan: AttackPlan, buttons: Buttons, now: u64) -> (r: AttackMachine)
        ensures
            r.inv(),
            r.plan() == plan,
            r.buttons() == buttons,
            r.progress() == (Progress {
                phase: Phase::Top,
                session_idx: 0,
                stats: Stats {
                    total_attacks: 0,
                    successful_attacks: 0,
                    failed_attacks: 0,
                    start_time: Some(now),
                    last_attack_time: None,
                },
            }),
    {
        AttackMachine {
            plan,
            buttons,
            progress: Progress {
                phase: Phase::Top,
                session_idx: 0,
                stats: Stats {
                    total_attacks: 0,
                    successful_attacks: 0,
                    failed_attacks: 0,
                    start_time: Some(now),
                    last_attack_time: None,
                },
            },
        }
    }

    pub fn stats(&self) -> (r: Stats)
        ensures
            r == self.progress().stats,
    {
        self.progress.stats
    }

    pub fn phase(&self) -> (r: Phase)
        ensures
            r == self.progress().phase,
    {
        self.progress.phase
    }

    /// Takes what the last command brought back and the outside state now,
    /// and returns the next command.
    pub fn step(&mut self, event: Event, smp: Sample) -> (r: Command)
        requires
            old(self).inv(),
            old(self).progress().stats.total_attacks < u32::MAX,
        ensures
            final(self).inv(),
            final(self).plan() == old(self).plan(),
            final(self).buttons() == old(self).buttons(),
            (final(self).progress(), r) == transition(
                old(self).plan(),
                old(self).buttons(),
                old(self).progress(),
                event,
                smp,
            ),
    {
        let p = self.progress;
        let (q, c) = match (p.phase, event) {
            (Phase::Top, Event::Proceed) => top(&self.buttons, p, smp),
            (Phase::AttackClicked, Event::Proceed) => {
                if self.buttons.find_a_match.is_some() && self.buttons.next_button.is_some() {
                    search(&self.plan, &self.buttons, p, SearchPass::First, 1, smp)
                } else {
                    finish(p, false, smp)
                }
            },
            (Phase::FindClicked { pass, attempt }, Event::Proceed) => (
                Progress { phase: Phase::Capturing { pass, attempt }, ..p },
                Command::Capture,
            ),
            (Phase::Capturing { pass, attempt }, Event::Captured(ok)) => {
                if !ok {
                    search(&self.plan, &self.buttons, p, pass, attempt + 1, smp)
                } else if self.plan.ai_enabled {
                    (
                        Progress { phase: Phase::Analysing { pass, attempt }, ..p },
                        Command::Analyze {
                            min_gold: self.plan.min_gold,
                            min_elixir: self.plan.min_elixir,
                            min_dark_elixir: self.plan.min_dark_elixir,
                        },
                    )
                } else {
                    accept(&self.plan, p, smp)
                }
            },
            (Phase::Analysing { pass, attempt }, Event::Analyzed(a)) => {
                if loot_acceptable(&a) {
                    accept(&self.plan, p, smp)
                } else {
                    match self.buttons.next_button {
                        Some(c) => (
                            Progress { phase: Phase::NextClicked { pass, attempt }, ..p },
                            Command::Click { at: c, settle_millis: 3000 },
                        ),
                        None => search(&self.plan, &self.buttons, p, pass, attempt + 1, smp),
                    }
                }
            },
            (Phase::NextClicked { pass, attempt }, Event::Proceed) => search(
                &self.plan,
                &self.buttons,
                p,
                pass,
                attempt + 1,
                smp,
            ),
            (Phase::EndClicked, Event::Proceed) => search(
                &self.plan,
                &self.buttons,
                p,
                SearchPass::Retry,
                1,
                smp,
            ),
            (Phase::Starting, Event::PlaybackStarted(ok)) => {
                if ok {
                    (Progress { phase: Phase::Polling, ..p }, Command::CheckPlayback)
                } else {
                    finish(p, false, smp)
                }
            },
            (Phase::Polling, Event::PlaybackStatus { finished }) => {
                if finished {
                    if smp.running {
                        battle(&self.buttons, p, 180, smp)
                    } else {
                        finish(p, false, smp)
                    }
                } else if !smp.running || smp.emergency {
                    (Progress { phase: Phase::StoppingPlayback, ..p }, Command::StopPlayback)
                } else {
                    (Progress { phase: Phase::PollPaused, ..p }, Command::Pause { millis: 200 })
                }
            },
            (Phase::PollPaused, Event::Proceed) => (
                Progress { phase: Phase::Polling, ..p },
                Command::CheckPlayback,
            ),
            (Phase::StoppingPlayback, Event::Proceed) => {
                if smp.running {
                    battle(&self.buttons, p, 180, smp)
                } else {
                    finish(p, false, smp)
                }
            },
            (Phase::Battle { remaining }, Event::Proceed) => battle(
                &self.buttons,
                p,
                remaining,
                smp,
            ),
            (Phase::HomeClicked, Event::Proceed) => finish(p, true, smp),
            (Phase::Cooldown { left }, Event::Proceed) => {
                if left == 0 || !smp.running {
                    top(&self.buttons, p, smp)
                } else {
                    (
                        Progress { phase: Phase::Cooldown { left: left - 1 }, ..p },
                        Command::Pause { millis: 1000 },
                    )
                }
            },
            _ => (Progress { phase: Phase::Stopped, ..p }, Command::Stop),
        };
        self.progress = q;
        c
    }
}

} // verus!
