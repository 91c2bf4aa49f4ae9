//! Reading the final answer out of a model's reply: the reply should hold
//! `{"answer": "..."}` (or the misspelt key `anwser`), perhaps inside prose or
//! a fenced code block. Extraction never fails: without an answer the reply
//! comes back unchanged.
use vstd::prelude::*;
use crate::outside::{json_str_member, json_string_member, regex_capture, regex_first_group};
use crate::text::{
    char_vec, ends_with, ends_with_spec, is_white_spec, starts_with, starts_with_spec, string_of,
    string_of_range, trim_chars, trim_end_spec, trim_spec, trim_start_spec,
};

verus! {

pub const FENCE_JSON: &'static str = "```json";

pub const FENCE: &'static str = "```";

pub const ANSWER_KEY: &'static str = "answer";

pub const ANSWER_KEY_MISSPELT: &'static str = "anwser";

/// An `answer` or `anwser` member with a quoted value, followed later by a `}`.
pub const ANSWER_PATTERN: &'static str = "(?s)\\{\\s*\"(?:answer|anwser)\"\\s*:\\s*\"(.*?)\"[\\s\\S]*?\\}";

/// `t` without an opening fence (with or without the `json` tag) and a closing fence.
pub open spec fn strip_fence_spec(t: Seq<char>) -> Seq<char> {
    let a = if starts_with_spec(t, FENCE_JSON@) {
        t.skip(FENCE_JSON@.len() as int)
    } else if starts_with_spec(t, FENCE@) {
        t.skip(FENCE@.len() as int)
    } else {
        t
    };
    if ends_with_spec(a, FENCE@) {
        a.take(a.len() - FENCE@.len())
    } else {
        a
    }
}

/// The reply trimmed, without code fences, and trimmed again.
pub open spec fn cleaned_spec(raw: Seq<char>) -> Seq<char> {
    trim_spec(strip_fence_spec(trim_spec(raw)))
}

/// The answer that a JSON reading of `t` gives, under either key.
pub open spec fn answer_member_spec(t: Seq<char>) -> Option<Seq<char>> {
    match json_string_member(t, ANSWER_KEY@) {
        Some(a) => Some(a),
        None => json_string_member(t, ANSWER_KEY_MISSPELT@),
    }
}

pub open spec fn brace_weight(c: char) -> int {
    if c == '}' {
        1
    } else if c == '{' {
        -1
    } else {
        0
    }
}

/// Closing braces minus opening braces in `s[i..=e]`.
pub open spec fn brace_depth(s: Seq<char>, i: int, e: int) -> int
    decreases e + 1 - i,
{
    if i <= e {
        brace_weight(s[i]) + brace_depth(s, i + 1, e)
    } else {
        0
    }
}

/// Index of the last `}` in `s[..k]`, or -1.
pub open spec fn last_close_before(s: Seq<char>, k: int) -> int
    decreases k,
{
    if k <= 0 {
        -1
    } else if s[k - 1] == '}' {
        k - 1
    } else {
        last_close_before(s, k - 1)
    }
}

/// The largest `i < k` at which `s[i..=e]` holds as many `{` as `}`, or -1.
pub open spec fn balanced_open_before(s: Seq<char>, e: int, k: int) -> int
    decreases k,
{
    if k <= 0 {
        -1
    } else if brace_depth(s, k - 1, e) == 0 {
        k - 1
    } else {
        balanced_open_before(s, e, k - 1)
    }
}

/// The last balanced `{...}` span of `s`: it ends at the last `}` and starts at
/// the nearest `{` before it that balances the braces between them.
pub open spec fn last_balanced_span(s: Seq<char>) -> Option<Seq<char>> {
    let e = last_close_before(s, s.len() as int);
    if e < 0 {
        None
    } else {
        let b = balanced_open_before(s, e, e);
        if b < 0 {
            None
        } else {
            Some(s.subrange(b, e + 1))
        }
    }
}

/// The answer chosen among what the three readings of a reply found: the
/// member of the whole cleaned text, else the member of its last balanced
/// span, else the pattern's capture, else the reply `raw` itself.
pub open spec fn choose_answer_spec(
    raw: Seq<char>,
    whole: Option<Seq<char>>,
    span_member: Option<Seq<char>>,
    captured: Option<Seq<char>>,
) -> Seq<char> {
    if whole is Some {
        whole->0
    } else if span_member is Some {
        span_member->0
    } else if captured is Some {
        captured->0
    } else {
        raw
    }
}

/// The answer member of the last balanced span of `c`, if both exist.
pub open spec fn span_member_spec(c: Seq<char>) -> Option<Seq<char>> {
    match last_balanced_span(c) {
        Some(span) => answer_member_spec(span),
        None => None,
    }
}

/// What extraction returns for the reply `raw`.
pub open spec fn extract_answer_spec(raw: Seq<char>) -> Seq<char> {
    let c = cleaned_spec(raw);
    choose_answer_spec(
        raw,
        answer_member_spec(c),
        span_member_spec(c),
        regex_first_group(ANSWER_PATTERN@, c),
    )
}

/// `j` inside a code fence tagged `json`, each marker on a line of its own.
pub open spec fn fenced_json(j: Seq<char>) -> Seq<char> {
    FENCE_JSON@ + seq!['\n'] + j + seq!['\n'] + FENCE@
}

/// One of the extraction's readings finds an answer in the cleaned text `c`.
pub open spec fn answer_found_spec(c: Seq<char>) -> bool {
    ||| answer_member_spec(c) is Some
    ||| span_member_spec(c) is Some
    ||| regex_first_group(ANSWER_PATTERN@, c) is Some
}

proof fn lemma_trim_keeps(j: Seq<char>)
    requires
        j.len() > 0,
        !is_white_spec(j[0]),
        !is_white_spec(j.last()),
    ensures
        trim_spec(j) == j,
{
    assert(trim_start_spec(j) == j);
    assert(trim_end_spec(j) == j);
}

/// Wrapping a reply in a `json` code fence changes nothing that extraction
/// reads: for a reply `j` with no white space or backtick at either end, the
/// cleaned text of the fenced reply is `j` itself, as it is for `j`, and the
/// two extract the same answer whenever one is found.
pub proof fn lemma_fence_keeps_extraction(j: Seq<char>)
    requires
        j.len() > 0,
        !is_white_spec(j[0]),
        !is_white_spec(j.last()),
        j[0] != '`',
        j.last() != '`',
    ensures
        cleaned_spec(j) == j,
        cleaned_spec(fenced_json(j)) == j,
        answer_found_spec(j) ==> extract_answer_spec(fenced_json(j)) == extract_answer_spec(j),
{
    reveal_strlit("```json");
    reveal_strlit("```");
    lemma_trim_keeps(j);
    assert(!starts_with_spec(j, FENCE_JSON@)) by {
        if starts_with_spec(j, FENCE_JSON@) {
            assert(j.take(7)[0] == j[0]);
        }
    }
    assert(!starts_with_spec(j, FENCE@)) by {
        if starts_with_spec(j, FENCE@) {
            assert(j.take(3)[0] == j[0]);
        }
    }
    assert(!ends_with_spec(j, FENCE@)) by {
        if ends_with_spec(j, FENCE@) {
            assert(j.skip(j.len() - 3)[2] == j.last());
        }
    }
    assert(strip_fence_spec(j) == j);
    let f = fenced_json(j);
    assert(f[0] == '`');
    assert(f.last() == '`');
    lemma_trim_keeps(f);
    assert(f.take(7) == FENCE_JSON@);
    let a = f.skip(7);
    assert(a == seq!['\n'] + j + seq!['\n'] + FENCE@);
    assert(a.skip(a.len() - 3) == FENCE@);
    let b = a.take(a.len() - 3);
    assert(b == seq!['\n'] + j + seq!['\n']);
    assert(strip_fence_spec(f) == b);
    assert(b.drop_first() == j + seq!['\n']);
    assert(trim_start_spec(j + seq!['\n']) == j + seq!['\n']) by {
        assert((j + seq!['\n'])[0] == j[0]);
    }
    assert(trim_start_spec(b) == j + seq!['\n']);
    assert((j + seq!['\n']).drop_last() == j);
    assert(trim_end_spec(j) == j);
    assert(trim_end_spec(j + seq!['\n']) == j);
}

/// Trims the reply, strips a fenced-code marker at either end, and trims again.
pub fn strip_code_fence(content: &str) -> (r: String)
    ensures
        r@ == cleaned_spec(content@),
{
    let v = char_vec(content);
    let t = trim_chars(&v);
    let fence_json = char_vec(FENCE_JSON);
    let fence = char_vec(FENCE);
    let mut lo: usize = 0;
    if starts_with(&t, &fence_json) {
        lo = fence_json.len();
    } else if starts_with(&t, &fence) {
        lo = fence.len();
    }
    let a = string_of_range(&t, lo, t.len());
    let av = char_vec(a.as_str());
    assert(av@ == t@.skip(lo as int));
    assert(t@.skip(0) == t@);
    assert(av@.subrange(0, av@.len() as int) == av@);
    let mut hi = av.len();
    if ends_with(&av, &fence) {
        hi = av.len() - fence.len();
    }
    let b = string_of_range(&av, 0, hi);
    let bv = char_vec(b.as_str());
    assert(av@.take(hi as int) == av@.subrange(0, hi as int));
    assert(bv@ == strip_fence_spec(trim_spec(content@)));
    let r = trim_chars(&bv);
    string_of(&r)
}

/// Position of the last `}` of `s` and of the `{` that balances it.
fn last_balanced_range(s: &Vec<char>) -> (r: Option<(usize, usize)>)
    ensures
        match r {
            Some((b, e)) => {
                &&& last_close_before(s@, s@.len() as int) == e
                &&& balanced_open_before(s@, e as int, e as int) == b
                &&& b <= e < s@.len()
                &&& e < usize::MAX
            },
            None => {
                ||| last_close_before(s@, s@.len() as int) < 0
                ||| balanced_open_before(
                    s@,
                    last_close_before(s@, s@.len() as int),
                    last_close_before(s@, s@.len() as int),
                ) < 0
            },
        },
{
    let n = s.len();
    let mut k = n;
    while k > 0 && s[k - 1] != '}'
        invariant
            n == s@.len(),
            k <= n,
            last_close_before(s@, n as int) == last_close_before(s@, k as int),
        decreases k,
    {
        k = k - 1;
    }
    if k == 0 {
        return None;
    }
    let e = k - 1;
    let mut depth: usize = 1;
    let mut i = e;
    assert(brace_depth(s@, e as int, e as int) == 1) by {
        reveal_with_fuel(brace_depth, 2);
    }
    while i > 0
        invariant
            n == s@.len(),
            i <= e < n,
            last_close_before(s@, n as int) == e,
            1 <= depth <= e - i + 1,
            depth == brace_depth(s@, i as int, e as int),
            balanced_open_before(s@, e as int, e as int) == balanced_open_before(s@, e as int, i as int),
        decreases i,
    {
        i = i - 1;
        if s[i] == '}' {
            depth = depth + 1;
        } else if s[i] == '{' {
            depth = depth - 1;
            if depth == 0 {
                return Some((i, e));
            }
        }
    }
    None
}

/// The last balanced `{...}` span of `text`, found by matching braces backward
/// from its last `}`.
pub fn extract_last_balanced_json(text: &str) -> (r: Option<String>)
    ensures
        r.deep_view() == last_balanced_span(text@),
{
    let s = char_vec(text);
    match last_balanced_range(&s) {
        Some((b, e)) => Some(string_of_range(&s, b, e + 1)),
        None => None,
    }
}

/// The answer member of `text` read as JSON, under `answer` or else `anwser`.
pub fn extract_field_from_value(text: &str) -> (r: Option<String>)
    ensures
        r.deep_view() == answer_member_spec(text@),
{
    match json_str_member(text, ANSWER_KEY) {
        Some(a) => Some(a),
        None => json_str_member(text, ANSWER_KEY_MISSPELT),
    }
}

/// Chooses the answer among what the readings of the reply `raw` found.
pub fn choose_answer(
    raw: &str,
    whole: Option<String>,
    span_member: Option<String>,
    captured: Option<String>,
) -> (r: String)
    ensures
        r@ == choose_answer_spec(
            raw@,
            whole.deep_view(),
            span_member.deep_view(),
            captured.deep_view(),
        ),
{
    match whole {
        Some(a) => a,
        None => match span_member {
            Some(a) => a,
            None => match captured {
                Some(a) => a,
                None => raw.to_owned(),
            },
        },
    }
}

/// The normalized answer held in a model's reply, or the reply unchanged.
pub fn extract_answer_from_json(json_content: &str) -> (r: String)
    ensures
        r@ == extract_answer_spec(json_content@),
{
    let cleaned = strip_code_fence(json_content);
    let whole = extract_field_from_value(cleaned.as_str());
    let span_member = match extract_last_balanced_json(cleaned.as_str()) {
        Some(span) => extract_field_from_value(span.as_str()),
        None => None,
    };
    let captured = regex_capture(ANSWER_PATTERN, cleaned.as_str());
    choose_answer(json_content, whole, span_member, captured)
}

} // verus!
