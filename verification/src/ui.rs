//! The rules behind the interactive menus: reading answers and numbers,
//! choosing sessions, and when to ask for an API key.
use vstd::prelude::*;
use vstd::string::*;
use crate::config::AiAnalyzer;
use crate::text::{
    chars_of, decimal, eq_ignore_ascii_case, eq_ignore_ascii_case_spec, has_prefix, starts_with, trim,
    trimmed,
};

verus! {

/// The answer, trimmed, is `expected` in any ASCII case.
pub open spec fn answer_is(answer: Seq<char>, expected: Seq<char>) -> bool {
    eq_ignore_ascii_case_spec(trimmed(answer), expected)
}

/// A "yes": the trimmed answer is `y` or `Y`.
pub fn is_yes(answer: &str) -> (r: bool)
    ensures
        r == answer_is(answer@, "y"@),
{
    eq_ignore_ascii_case(trim(answer), "y")
}

/// A "no": the trimmed answer is `n` or `N`.
pub fn is_no(answer: &str) -> (r: bool)
    ensures
        r == answer_is(answer@, "n"@),
{
    eq_ignore_ascii_case(trim(answer), "n")
}

pub open spec fn is_digit(c: char) -> bool {
    '0' <= c <= '9'
}

pub open spec fn digit_value(c: char) -> nat {
    (c as u32 - '0' as u32) as nat
}

/// The number that a string of decimal digits denotes.
pub open spec fn digits_value(s: Seq<char>) -> nat
    decreases s.len(),
{
    if s.len() == 0 {
        0
    } else {
        digits_value(s.drop_last()) * 10 + digit_value(s.last())
    }
}

/// The digits part of an unsigned number: without a leading `+`.
pub open spec fn unsigned_body(s: Seq<char>) -> Seq<char> {
    if s.len() > 0 && s[0] == '+' {
        s.drop_first()
    } else {
        s
    }
}

/// What `str::parse` gives for an unsigned integer no larger than `max`: an
/// optional `+`, then one or more decimal digits and nothing else, with a
/// value that fits.
pub open spec fn parse_spec(s: Seq<char>, max: nat) -> Option<nat> {
    let body = unsigned_body(s);
    if body.len() > 0 && (forall|i: int| 0 <= i < body.len() ==> is_digit(#[trigger] body[i]))
        && digits_value(body) <= max {
        Some(digits_value(body))
    } else {
        None
    }
}

proof fn lemma_digits_value_prefix(s: Seq<char>, k: int)
    requires
        0 <= k <= s.len(),
        forall|i: int| 0 <= i < s.len() ==> is_digit(#[trigger] s[i]),
    ensures
        digits_value(s) >= digits_value(s.take(k)),
    decreases s.len() - k,
{
    if k < s.len() {
        lemma_digits_value_prefix(s, k + 1);
        assert(s.take(k + 1).drop_last() =~= s.take(k));
    } else {
        assert(s.take(k) =~= s);
    }
}

/// Parses an unsigned decimal number no larger than `max`.
pub fn parse_bounded(s: &str, max: u64) -> (r: Option<u64>)
    ensures
        match parse_spec(s@, max as nat) {
            Some(v) => r == Some(v as u64),
            None => r is None,
        },
{
    let v = chars_of(s);
    let start: usize = if v.len() > 0 && v[0] == '+' {
        1
    } else {
        0
    };
    let ghost body = unsigned_body(s@);
    proof {
        assert(body =~= v@.skip(start as int));
    }
    if start >= v.len() {
        return None;
    }
    let mut acc: u64 = 0;
    let mut i: usize = start;
    while i < v.len()
        invariant
            start <= i <= v@.len(),
            v@ == s@,
            body == v@.skip(start as int),
            body == unsigned_body(s@),
            forall|j: int| start <= j < i ==> is_digit(#[trigger] v@[j]),
            acc as nat == digits_value(body.take(i - start)),
            acc <= max,
        decreases v@.len() - i,
    {
        let c = v[i];
        assert(body[i - start] == v@[i as int]);
        if !('0' <= c && c <= '9') {
            assert(!is_digit(body[i - start]));
            return None;
        }
        let d = (c as u32 - '0' as u32) as u64;
        assert(body.take(i + 1 - start).drop_last() =~= body.take(i - start));
        assert(body.take(i + 1 - start).last() == c);
        let too_big = if d > max {
            true
        } else {
            acc > (max - d) / 10
        };
        assert(too_big == (acc * 10 + d > max)) by (nonlinear_arith)
            requires
                too_big == (if d > max {
                    true
                } else {
                    acc > (max - d) / 10
                }),
                0 <= d <= 9,
                acc <= max,
        ;
        if too_big {
            proof {
                assert forall|j: int| 0 <= j < body.take(i + 1 - start).len() implies is_digit(#[trigger] body.take(i + 1 - start)[j]) by {
                    assert(body.take(i + 1 - start)[j] == v@[start + j]);
                }
                assert(digits_value(body.take(i + 1 - start)) > max);
            }
            if forall_digits(&v, i + 1) {
                proof {
                    assert forall|j: int| 0 <= j < body.len() implies is_digit(#[trigger] body[j]) by {
                        assert(body[j] == v@[start + j]);
                    }
                    lemma_digits_value_prefix(body, i + 1 - start);
                }
            } else {
                proof {
                    let bad = choose|j: int| i + 1 <= j < v@.len() && !is_digit(#[trigger] v@[j]);
                    assert(!is_digit(body[bad - start]));
                }
            }
            return None;
        }
        acc = acc * 10 + d;
        i = i + 1;
    }
    proof {
        assert(body.take(v@.len() - start) =~= body);
        assert forall|j: int| 0 <= j < body.len() implies is_digit(#[trigger] body[j]) by {
            assert(body[j] == v@[start + j]);
        }
    }
    Some(acc)
}

/// Whether every character from `from` on is a decimal digit.
fn forall_digits(v: &Vec<char>, from: usize) -> (r: bool)
    requires
        from <= v@.len(),
    ensures
        r == (forall|j: int| from <= j < v@.len() ==> is_digit(#[trigger] v@[j])),
{
    let mut i = from;
    while i < v.len()
        invariant
            from <= i <= v@.len(),
            forall|j: int| from <= j < i ==> is_digit(#[trigger] v@[j]),
        decreases v@.len() - i,
    {
        if !('0' <= v[i] && v[i] <= '9') {
            assert(!is_digit(v@[i as int]));
            return false;
        }
        i = i + 1;
    }
    true
}

/// `str::parse::<u64>`.
pub fn parse_u64(s: &str) -> (r: Option<u64>)
    ensures
        match parse_spec(s@, u64::MAX as nat) {
            Some(v) => r == Some(v as u64),
            None => r is None,
        },
{
    parse_bounded(s, u64::MAX)
}

/// `str::parse::<usize>`.
pub fn parse_usize(s: &str) -> (r: Option<usize>)
    ensures
        match parse_spec(s@, usize::MAX as nat) {
            Some(v) => r == Some(v as usize),
            None => r is None,
        },
{
    match parse_bounded(s, usize::MAX as u64) {
        Some(v) => Some(v as usize),
        None => None,
    }
}

/// What a typed session number picks from a list of `count` sessions.
#[derive(Clone, Copy, Debug, PartialEq, Eq, Structural)]
pub enum Pick {
    /// The trimmed input is exactly `0`: the selection is finished.
    Finish,
    NotANumber,
    OutOfRange,
    /// The 0-based index of the chosen session.
    Index(usize),
}

/// Reads a 1-based session number, or `0` to finish (the input is trimmed
/// first).
pub fn pick_session(input: &str, count: usize) -> (r: Pick)
    ensures
        trimmed(input@) == "0"@ ==> r == Pick::Finish,
        trimmed(input@) != "0"@ ==> match parse_spec(trimmed(input@), usize::MAX as nat) {
            None => r == Pick::NotANumber,
            Some(n) => if n == 0 || n > count {
                r == Pick::OutOfRange
            } else {
                r == Pick::Index((n - 1) as usize)
            },
        },
{
    let t = trim(input);
    let v = chars_of(t);
    proof {
        reveal_strlit("0");
    }
    if v.len() == 1 && v[0] == '0' {
        assert(v@ =~= "0"@);
        return Pick::Finish;
    }
    match parse_usize(t) {
        None => Pick::NotANumber,
        Some(n) => if n == 0 || n > count {
            Pick::OutOfRange
        } else {
            Pick::Index(n - 1)
        },
    }
}

/// Adds the session to the selection unless it is already there. Returns
/// whether it was added.
pub fn add_session(selected: &mut Vec<String>, name: String) -> (r: bool)
    ensures
        r == !(exists|i: int| 0 <= i < old(selected)@.len() && (#[trigger] old(selected)@[i])@ == name@),
        final(selected)@ == (if r {
            old(selected)@.push(name)
        } else {
            old(selected)@
        }),
{
    for i in 0..selected.len()
        invariant
            forall|j: int| 0 <= j < i ==> (#[trigger] selected@[j])@ != name@,
    {
        if selected[i] == name {
            return false;
        }
    }
    selected.push(name);
    true
}

/// No usable API key: none is set, or the placeholder is still there.
pub open spec fn lacks_api_key(key: Seq<char>) -> bool {
    key.len() == 0 || has_prefix(key, "REPLACE_ME"@)
}

/// Whether the AI setup must ask for an API key: none is set, or the
/// placeholder is still there.
pub fn needs_api_key(key: &str) -> (r: bool)
    ensures
        r == lacks_api_key(key@),
{
    key.unicode_len() == 0 || starts_with(key, "REPLACE_ME")
}

/// What the AI part of the auto-attack setup does next.
#[derive(Debug)]
pub enum AiSetupAction {
    /// Ask for the API key.
    AskKey,
    /// Test the connection with this key.
    TestConnection(String),
    /// Nothing more to do: the AI stays on or off as it is now.
    Done,
}

/// The loot minimums, which the AI setup leaves alone.
pub open spec fn same_minimums(a: AiAnalyzer, b: AiAnalyzer) -> bool {
    &&& a.min_gold == b.min_gold
    &&& a.min_elixir == b.min_elixir
    &&& a.min_dark_elixir == b.min_dark_elixir
}

/// The answer to "enable AI analysis?": anything but `n` turns it on.
/// With it on, the key is asked for when none is usable, else tested.
pub fn ai_setup_begin(ai: &mut AiAnalyzer, answer: &str) -> (r: AiSetupAction)
    ensures
        final(ai).enabled == !answer_is(answer@, "n"@),
        final(ai).google_gemini_api_key == old(ai).google_gemini_api_key,
        same_minimums(*final(ai), *old(ai)),
        match r {
            AiSetupAction::AskKey => final(ai).enabled && lacks_api_key(
                old(ai).google_gemini_api_key@,
            ),
            AiSetupAction::TestConnection(k) => final(ai).enabled && !lacks_api_key(
                old(ai).google_gemini_api_key@,
            ) && k@ == old(ai).google_gemini_api_key@,
            AiSetupAction::Done => !final(ai).enabled,
        },
{
    let enabled = !is_no(answer);
    ai.enabled = enabled;
    if !enabled {
        AiSetupAction::Done
    } else if needs_api_key(ai.google_gemini_api_key.as_str()) {
        AiSetupAction::AskKey
    } else {
        AiSetupAction::TestConnection(ai.google_gemini_api_key.clone())
    }
}

/// The key typed at the prompt, trimmed. An empty one turns the AI off;
/// another becomes the configured key and, with the AI on, is tested.
pub fn ai_setup_key(ai: &mut AiAnalyzer, entered: &str) -> (r: AiSetupAction)
    ensures
        same_minimums(*final(ai), *old(ai)),
        if trimmed(entered@).len() == 0 {
            &&& !final(ai).enabled
            &&& final(ai).google_gemini_api_key == old(ai).google_gemini_api_key
            &&& r is Done
        } else {
            &&& final(ai).enabled == old(ai).enabled
            &&& final(ai).google_gemini_api_key@ == trimmed(entered@)
            &&& match r {
                AiSetupAction::TestConnection(k) => old(ai).enabled && k@ == trimmed(entered@),
                AiSetupAction::Done => !old(ai).enabled,
                AiSetupAction::AskKey => false,
            }
        },
{
    let key = trim(entered);
    if key.unicode_len() == 0 {
        ai.enabled = false;
        AiSetupAction::Done
    } else {
        ai.google_gemini_api_key = String::from_str(key);
        if ai.enabled {
            AiSetupAction::TestConnection(String::from_str(key))
        } else {
            AiSetupAction::Done
        }
    }
}

/// The connection test's outcome: a failed test turns the AI off.
pub fn ai_setup_tested(ai: &mut AiAnalyzer, connected: bool)
    ensures
        final(ai).enabled == (old(ai).enabled && connected),
        final(ai).google_gemini_api_key == old(ai).google_gemini_api_key,
        same_minimums(*final(ai), *old(ai)),
{
    if !connected {
        ai.enabled = false;
    }
}

/// A loot minimum typed at the setup prompt: the number if the trimmed
/// input is one, else the current value.
pub fn read_minimum(input: &str, current: u64) -> (r: u64)
    ensures
        r == (match parse_spec(trimmed(input@), u64::MAX as nat) {
            Some(v) => v as u64,
            None => current,
        }),
{
    match parse_u64(trim(input)) {
        Some(v) => v,
        None => current,
    }
}

/// A menu choice: the trimmed input is a single digit from 1 to `options`.
pub fn menu_choice(input: &str, options: u32) -> (r: Option<u32>)
    requires
        options <= 9,
    ensures
        match r {
            Some(k) => 1 <= k <= options && trimmed(input@) == seq![
                crate::text::digit_char(k as nat),
            ],
            None => forall|k: int|
                1 <= k <= options ==> trimmed(input@) != seq![
                    #[trigger] crate::text::digit_char(k as nat),
                ],
        },
{
    let t = trim(input);
    let v = chars_of(t);
    if v.len() != 1 {
        return None;
    }
    let c = v[0];
    if '1' <= c && c <= '9' {
        let k = (c as u32) - ('0' as u32);
        if k <= options {
            assert(v@ =~= seq![crate::text::digit_char(k as nat)]);
            return Some(k);
        }
    }
    assert forall|k: int| 1 <= k <= options implies trimmed(input@) != seq![
        #[trigger] crate::text::digit_char(k as nat),
    ] by {
        if trimmed(input@) == seq![crate::text::digit_char(k as nat)] {
            assert(v@[0] == crate::text::digit_char(k as nat));
        }
    }
    None
}

proof fn lemma_digit_char(d: nat)
    requires
        d < 10,
    ensures
        is_digit(crate::text::digit_char(d)),
        digit_value(crate::text::digit_char(d)) == d,
{
}

proof fn lemma_decimal_digits(n: nat)
    ensures
        decimal(n).len() > 0,
        forall|i: int| 0 <= i < decimal(n).len() ==> is_digit(#[trigger] decimal(n)[i]),
        digits_value(decimal(n)) == n,
    decreases n,
{
    lemma_digit_char(n % 10);
    if n < 10 {
        assert(decimal(n).drop_last() =~= Seq::<char>::empty());
        assert(n % 10 == n);
        assert(digits_value(decimal(n)) == digits_value(decimal(n).drop_last()) * 10 + digit_value(decimal(n).last()));
    } else {
        lemma_decimal_digits(n / 10);
        let d = decimal(n);
        assert(d.last() == crate::text::digit_char(n % 10));
        assert(digits_value(d) == digits_value(d.drop_last()) * 10 + digit_value(d.last()));
        assert(d.drop_last() =~= decimal(n / 10));
        assert forall|i: int| 0 <= i < d.len() implies is_digit(#[trigger] d[i]) by {
            if i < d.len() - 1 {
                assert(d[i] == decimal(n / 10)[i]);
            }
        }
    }
}

/// Reading back a number written in decimal gives the number: `str::parse`
/// undoes `Display` for every value that fits.
pub proof fn law_parse_reads_decimal(n: nat, max: nat)
    requires
        n <= max,
    ensures
        parse_spec(decimal(n), max) == Some(n),
{
    lemma_decimal_digits(n);
    assert(decimal(n)[0] != '+');
    assert(unsigned_body(decimal(n)) == decimal(n));
}

} // verus!
