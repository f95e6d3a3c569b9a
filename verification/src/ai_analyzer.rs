//! What the AI base analysis answers, and the pure steps around the request:
//! the prompt, reading the reply, and turning failures into answers.
use base64::Engine;
use vstd::prelude::*;
use vstd::string::*;
use crate::auto_attacker::loot_acceptable_spec;
use crate::text::{lemma_trimmed_idempotent, decimal, ends_with, has_prefix, has_suffix, push_decimal, starts_with, trim, trimmed};

verus! {

#[derive(Clone, Copy, Debug, PartialEq, Eq, Structural)]
pub struct Loot {
    pub gold: u64,
    pub elixir: u64,
    pub dark_elixir: u64,
}

impl Default for Loot {
    fn default() -> (r: Loot)
        ensures
            r.gold == 0 && r.elixir == 0 && r.dark_elixir == 0,
    {
        Loot { gold: 0, elixir: 0, dark_elixir: 0 }
    }
}

/// The analysis of one enemy base.
#[derive(Clone, Debug)]
pub struct Analysis {
    pub loot: Loot,
    pub townhall_level: u32,
    pub difficulty: String,
    pub recommendation: String,
    pub reasoning: String,
    pub error: bool,
}

/// `s` trimmed, without a leading "```json" or "```" and a trailing "```",
/// trimmed again: the JSON text inside a Markdown code fence.
pub open spec fn strip_fence_spec(s: Seq<char>) -> Seq<char> {
    let t1 = trimmed(s);
    let t2 = if has_prefix(t1, "```json"@) {
        t1.subrange("```json"@.len() as int, t1.len() as int)
    } else if has_prefix(t1, "```"@) {
        t1.subrange("```"@.len() as int, t1.len() as int)
    } else {
        t1
    };
    let t3 = if has_suffix(t2, "```"@) {
        t2.subrange(0, t2.len() - "```"@.len())
    } else {
        t2
    };
    trimmed(t3)
}

pub fn strip_markdown_fence(s: &str) -> (r: String)
    ensures
        r@ == strip_fence_spec(s@),
{
    let t1 = trim(s);
    let n1 = t1.unicode_len();
    let json_fence = "```json";
    let fence = "```";
    let t2 = if starts_with(t1, json_fence) {
        t1.substring_char(json_fence.unicode_len(), n1)
    } else if starts_with(t1, fence) {
        t1.substring_char(fence.unicode_len(), n1)
    } else {
        t1
    };
    let n2 = t2.unicode_len();
    let t3 = if ends_with(t2, fence) {
        t2.substring_char(0, n2 - fence.unicode_len())
    } else {
        t2
    };
    String::from_str(trim(t3))
}

/// The analysis reported when no answer could be had.
pub open spec fn is_error_response(r: Analysis, msg: Seq<char>) -> bool {
    &&& r.loot == (Loot { gold: 0, elixir: 0, dark_elixir: 0 })
    &&& r.townhall_level == 0
    &&& r.difficulty@ == "Unknown"@
    &&& r.recommendation@ == "SKIP"@
    &&& r.reasoning@ == "Error: "@ + msg
    &&& r.error
}

pub fn error_response(msg: &str) -> (r: Analysis)
    ensures
        is_error_response(r, msg@),
{
    let mut reasoning = String::from_str("Error: ");
    reasoning.append(msg);
    Analysis {
        loot: Loot::default(),
        townhall_level: 0,
        difficulty: String::from_str("Unknown"),
        recommendation: String::from_str("SKIP"),
        reasoning,
        error: true,
    }
}

/// How an analysis attempt went.
pub enum AnalysisAttempt {
    /// The screenshot could not be read or encoded.
    ImageUnreadable,
    /// The model answered with a well-formed analysis.
    Answered(Analysis),
    /// The service refused, or its reply held no usable analysis.
    NoAnswer,
    /// The request failed; the error's text.
    Failed(String),
}

/// The analysis returned for an attempt: the answer itself, or an error
/// analysis that says what went wrong.
pub fn conclude_analysis(attempt: AnalysisAttempt) -> (r: Analysis)
    ensures
        match attempt {
            AnalysisAttempt::Answered(a) => r == a,
            AnalysisAttempt::ImageUnreadable => is_error_response(r, "Failed to encode image"@),
            AnalysisAttempt::NoAnswer => is_error_response(r, "Failed to get AI response"@),
            AnalysisAttempt::Failed(e) => is_error_response(r, "Analysis error: "@ + e@),
        },
{
    match attempt {
        AnalysisAttempt::Answered(a) => a,
        AnalysisAttempt::ImageUnreadable => error_response("Failed to encode image"),
        AnalysisAttempt::NoAnswer => error_response("Failed to get AI response"),
        AnalysisAttempt::Failed(e) => {
            let mut msg = String::from_str("Analysis error: ");
            msg.append(e.as_str());
            error_response(msg.as_str())
        },
    }
}

/// A JSON document as the reply parser reads it. Numbers keep their text;
/// object members keep their order.
#[derive(Debug)]
pub enum Json {
    Null,
    Bool(bool),
    Number(String),
    Str(String),
    Array(Vec<Json>),
    Object(Vec<(String, Json)>),
}

/// The value of the first member named `key`.
pub open spec fn member(entries: Seq<(String, Json)>, key: Seq<char>) -> Option<Json>
    decreases entries.len(),
{
    if entries.len() == 0 {
        None
    } else if entries[0].0@ == key {
        Some(entries[0].1)
    } else {
        member(entries.drop_first(), key)
    }
}

/// `value.get(key)` on an object; nothing on other values.
pub open spec fn get_key(v: Option<Json>, key: Seq<char>) -> Option<Json> {
    match v {
        Some(Json::Object(entries)) => member(entries@, key),
        _ => None,
    }
}

/// `value.get(i)` on an array; nothing on other values.
pub open spec fn get_index(v: Option<Json>, i: int) -> Option<Json> {
    match v {
        Some(Json::Array(items)) => if 0 <= i < items@.len() {
            Some(items@[i])
        } else {
            None
        },
        _ => None,
    }
}

/// The text of the model's reply: `candidates[0].content.parts[0].text`,
/// when that path exists and ends at a string.
pub open spec fn reply_text_spec(reply: Json) -> Option<String> {
    let part = get_index(
        get_key(get_key(get_index(get_key(Some(reply), "candidates"@), 0), "content"@), "parts"@),
        0,
    );
    match get_key(part, "text"@) {
        Some(Json::Str(s)) => Some(s),
        _ => None,
    }
}

fn find_member<'a>(entries: &'a Vec<(String, Json)>, key: &str) -> (r: Option<&'a Json>)
    ensures
        match r {
            Some(v) => member(entries@, key@) == Some(*v),
            None => member(entries@, key@) is None,
        },
{
    let k = String::from_str(key);
    let n = entries.len();
    assert(entries@.subrange(0, n as int) =~= entries@);
    for i in 0..n
        invariant
            n == entries@.len(),
            k@ == key@,
            member(entries@, key@) == member(entries@.subrange(i as int, n as int), key@),
    {
        proof {
            let rest = entries@.subrange(i as int, n as int);
            assert(rest.drop_first() =~= entries@.subrange(i + 1, n as int));
        }
        if entries[i].0 == k {
            return Some(&entries[i].1);
        }
    }
    proof {
        assert(entries@.subrange(n as int, n as int).len() == 0);
    }
    None
}

fn key_of<'a>(v: Option<&'a Json>, key: &str) -> (r: Option<&'a Json>)
    ensures
        match r {
            Some(x) => get_key(match v { Some(y) => Some(*y), None => None }, key@) == Some(*x),
            None => get_key(match v { Some(y) => Some(*y), None => None }, key@) is None,
        },
{
    match v {
        Some(Json::Object(entries)) => find_member(entries, key),
        _ => None,
    }
}

fn index_of<'a>(v: Option<&'a Json>, i: usize) -> (r: Option<&'a Json>)
    ensures
        match r {
            Some(x) => get_index(match v { Some(y) => Some(*y), None => None }, i as int) == Some(*x),
            None => get_index(match v { Some(y) => Some(*y), None => None }, i as int) is None,
        },
{
    match v {
        Some(Json::Array(items)) => if i < items.len() {
            Some(&items[i])
        } else {
            None
        },
        _ => None,
    }
}

/// The text of the model's reply, if the reply holds one.
pub fn reply_text(reply: &Json) -> (r: Option<String>)
    ensures
        r == reply_text_spec(*reply),
{
    let candidates = key_of(Some(reply), "candidates");
    let first = index_of(candidates, 0);
    let content = key_of(first, "content");
    let parts = key_of(content, "parts");
    let part = index_of(parts, 0);
    let text = key_of(part, "text");
    match text {
        Some(Json::Str(s)) => Some(s.clone()),
        _ => None,
    }
}

/// The prompt text before the gold minimum.
pub const PROMPT_INTRO: &'static str = "\nYou are an expert Clash of Clans player analyzing enemy bases for attack decisions.\n\nCRITICAL: You must read the EXACT loot numbers displayed in the top-left area of the screen.\n\nCurrent loot requirements:\n- Minimum Gold: ";

/// Between the gold and the elixir minimum.
pub const PROMPT_ELIXIR: &'static str = "\n- Minimum Elixir: ";

/// Between the elixir and the dark elixir minimum.
pub const PROMPT_DARK: &'static str = "\n- Minimum Dark Elixir: ";

/// After the dark elixir minimum: reading rules, decision criteria and the
/// JSON answer format.
pub const PROMPT_RULES: &'static str = "\n\nINSTRUCTIONS:\n1. Look at the \"Available Loot:\" section in the top-left corner of the screenshot\n2. Read the EXACT numbers next to the gold coin (yellow), elixir drop (pink), and dark elixir drop (black) icons\n3. Identify the Town Hall level by looking at the Town Hall building\n4. Compare loot numbers to minimum requirements above\n5. Make recommendation based on loot AND Town Hall level\n\nLOOT READING RULES:\n- Gold is shown next to a yellow coin icon\n- Elixir is shown next to a pink/purple drop icon\n- Dark Elixir is shown next to a black drop icon\n- Numbers may have spaces (e.g. \"123 456\" = 123456)\n- Be extremely careful reading the digits\n\nTOWN HALL RULES:\n- Town Hall 13, 14, 15, 16+ are TOO STRONG - always SKIP these\n- Only attack Town Hall 12 and below\n- Look at the Town Hall building design to identify the level\n\nDECISION CRITERIA:\n- ATTACK only if: ALL loot types meet requirements AND Town Hall is level 12 or below\n- SKIP if: ANY loot type is below requirements OR Town Hall is level 13+\n- Do NOT consider base difficulty - focus ONLY on loot amounts and Town Hall level\n\nRespond in this exact JSON format:\n{\n    \"loot\": {\n        \"gold\": actual_gold_amount_you_read,\n        \"elixir\": actual_elixir_amount_you_read,\n        \"dark_elixir\": actual_dark_elixir_amount_you_read\n    },\n    \"townhall_level\": town_hall_level_number,\n    \"difficulty\": \"Easy/Medium/Hard\",\n    \"recommendation\": \"ATTACK/SKIP\",\n    \"reasoning\": \"Specific reason: Gold X vs required Y, Elixir A vs required B, Dark C vs required D, TH level E\"\n}\n";


/// The prompt: the fixed text with the three minimums written in decimal.
pub open spec fn prompt_spec(min_gold: u64, min_elixir: u64, min_dark: u64) -> Seq<char> {
    PROMPT_INTRO@ + decimal(min_gold as nat) + PROMPT_ELIXIR@ + decimal(min_elixir as nat)
        + PROMPT_DARK@ + decimal(min_dark as nat) + PROMPT_RULES@
}

pub fn build_prompt(min_gold: u64, min_elixir: u64, min_dark: u64) -> (r: String)
    ensures
        r@ == prompt_spec(min_gold, min_elixir, min_dark),
{
    let mut s = String::from_str(PROMPT_INTRO);
    push_decimal(&mut s, min_gold);
    s.append(PROMPT_ELIXIR);
    push_decimal(&mut s, min_elixir);
    s.append(PROMPT_DARK);
    push_decimal(&mut s, min_dark);
    s.append(PROMPT_RULES);
    s
}

/// The character of a 6-bit value in the standard Base64 alphabet
/// (RFC 4648: `A`-`Z`, `a`-`z`, `0`-`9`, `+`, `/`).
pub open spec fn b64_char(v: int) -> char {
    if v < 26 {
        ('A' as int + v) as char
    } else if v < 52 {
        ('a' as int + (v - 26)) as char
    } else if v < 62 {
        ('0' as int + (v - 52)) as char
    } else if v == 62 {
        '+'
    } else {
        '/'
    }
}

/// Standard Base64 with `=` padding: each group of three bytes becomes four
/// characters; a last group of one or two bytes is padded.
pub open spec fn base64_spec(s: Seq<u8>) -> Seq<char>
    decreases s.len(),
{
    if s.len() == 0 {
        Seq::empty()
    } else if s.len() == 1 {
        seq![b64_char((s[0] / 4) as int), b64_char((s[0] % 4) * 16), '=', '=']
    } else if s.len() == 2 {
        seq![
            b64_char((s[0] / 4) as int),
            b64_char((s[0] % 4) * 16 + s[1] / 16),
            b64_char((s[1] % 16) * 4),
            '=',
        ]
    } else {
        seq![
            b64_char((s[0] / 4) as int),
            b64_char((s[0] % 4) * 16 + s[1] / 16),
            b64_char((s[1] % 16) * 4 + s[2] / 64),
            b64_char((s[2] % 64) as int),
        ] + base64_spec(s.skip(3))
    }
}

/// The encoded length fits a `usize`.
pub open spec fn base64_fits(n: nat) -> bool {
    (n / 3) * 4 + (if n % 3 > 0 {
        4nat
    } else {
        0nat
    }) <= usize::MAX
}

/// Whether `n` bytes can be Base64-encoded without the length overflowing.
pub fn base64_fits_len(n: usize) -> (r: bool)
    ensures
        r == base64_fits(n as nat),
{
    let q = n / 3;
    if q > usize::MAX / 4 {
        return false;
    }
    let base = q * 4;
    if n % 3 > 0 {
        base <= usize::MAX - 4
    } else {
        true
    }
}

/// `base64::engine::general_purpose::STANDARD.encode`: standard alphabet,
/// with padding. It panics only when the encoded length overflows `usize`.
#[verifier::external_body]
fn base64_standard(bytes: &[u8]) -> (r: String)
    requires
        base64_fits(bytes@.len()),
    ensures
        r@ == base64_spec(bytes@),
{
    base64::engine::general_purpose::STANDARD.encode(bytes)
}

/// The image part of an analysis request.
pub struct InlineImage {
    pub mime_type: String,
    pub data: String,
}

/// A PNG screenshot as the request carries it: its bytes in Base64, marked
/// `image/png`.
pub fn inline_image(png: &[u8]) -> (r: InlineImage)
    requires
        base64_fits(png@.len()),
    ensures
        r.mime_type@ == "image/png"@,
        r.data@ == base64_spec(png@),
{
    InlineImage { mime_type: String::from_str("image/png"), data: base64_standard(png) }
}

/// An error analysis never leads to an attack: whatever went wrong, the
/// base is skipped.
pub proof fn law_error_analysis_is_never_accepted(r: Analysis, msg: Seq<char>)
    requires
        is_error_response(r, msg),
    ensures
        !loot_acceptable_spec(r),
{
}

/// The text taken out of a code fence has no white space at either end.
pub proof fn law_unfenced_text_is_trimmed(s: Seq<char>)
    ensures
        trimmed(strip_fence_spec(s)) == strip_fence_spec(s),
{
    let t1 = trimmed(s);
    let t2 = if has_prefix(t1, "```json"@) {
        t1.subrange("```json"@.len() as int, t1.len() as int)
    } else if has_prefix(t1, "```"@) {
        t1.subrange("```"@.len() as int, t1.len() as int)
    } else {
        t1
    };
    let t3 = if has_suffix(t2, "```"@) {
        t2.subrange(0, t2.len() - "```"@.len())
    } else {
        t2
    };
    lemma_trimmed_idempotent(t3);
}

/// Base64 output has four characters for every started group of three
/// bytes.
pub proof fn law_base64_length(s: Seq<u8>)
    ensures
        base64_spec(s).len() == (s.len() / 3) * 4 + (if s.len() % 3 > 0 {
            4nat
        } else {
            0nat
        }),
    decreases s.len(),
{
    if s.len() >= 3 {
        law_base64_length(s.skip(3));
    }
}

} // verus!
