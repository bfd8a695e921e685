//! Titles of subagent tabs.
use vstd::prelude::*;

use crate::tools::ToolCall;

verus! {

/// Most characters that a title keeps.
pub const SUBAGENT_TITLE_MAX: usize = 40;

/// The first of `lines` that is not blank.
pub open spec fn first_shown(lines: Seq<Seq<char>>) -> Option<Seq<char>>
    decreases lines.len(),
{
    if lines.len() == 0 {
        None
    } else if !crate::text::is_blank(lines[0]) {
        Some(lines[0])
    } else {
        first_shown(lines.skip(1))
    }
}

/// `s` cut to `max` characters, with an ellipsis where any were cut.
pub open spec fn ellipsized(s: Seq<char>, max: nat) -> Seq<char> {
    if s.len() > max {
        s.take(max as int).push('…')
    } else {
        s
    }
}

/// The first line of `text` that is not blank, trimmed and cut.
pub open spec fn title_of(text: Seq<char>, max: nat) -> Option<Seq<char>> {
    match first_shown(crate::text::lines(text)) {
        Some(line) => Some(ellipsized(crate::text::trim(line), max)),
        None => None,
    }
}

/// The first line of `text`, trimmed, cut at `max` characters with an ellipsis.
pub fn title_line(text: &str, max: usize) -> (r: Option<String>)
    ensures
        crate::markdown::opt_text(r) == title_of(text@, max as nat),
{
    let lines = crate::text::lines_of(text);
    let ghost all = crate::text::texts(lines@);
    let mut i: usize = 0;
    assert(all.skip(0) =~= all);
    while i < lines.len()
        invariant
            i <= lines@.len(),
            all == crate::text::texts(lines@),
            all == crate::text::lines(text@),
            first_shown(all.skip(i as int)) == first_shown(all),
        decreases lines.len() - i,
    {
        let ghost rest = all.skip(i as int);
        assert(rest[0] == lines@[i as int]@);
        assert(rest.skip(1) =~= all.skip(i + 1));
        if !crate::text::blank(lines[i].as_str()) {
            let line = crate::text::trimmed(lines[i].as_str());
            let v = crate::text::chars_of(line.as_str());
            if v.len() > max {
                let mut out = crate::text::text_between(&v, 0, max);
                assert(v@.subrange(0, max as int) =~= v@.take(max as int));
                out.push('…');
                return Some(out);
            }
            return Some(line);
        }
        i = i + 1;
    }
    None
}

/// An ASCII letter in lower case, any other character unchanged.
pub open spec fn lowered(c: char) -> char {
    if 'A' <= c <= 'Z' {
        (c as u32 + 32) as char
    } else {
        c
    }
}

/// Whether `s` begins with `word`, ASCII case aside.
pub open spec fn begins_with(s: Seq<char>, word: Seq<char>) -> bool {
    s.len() >= word.len() && forall|i: int|
        0 <= i < word.len() ==> lowered(#[trigger] s[i]) == lowered(word[i])
}

/// `s` without the colons it begins with.
pub open spec fn strip_colons(s: Seq<char>) -> Seq<char>
    decreases s.len(),
{
    if s.len() > 0 && s[0] == ':' {
        strip_colons(s.skip(1))
    } else {
        s
    }
}

/// What follows `word` at the start of `s`, where `word` ends there.
pub open spec fn after_word(s: Seq<char>, word: Seq<char>) -> Option<Seq<char>> {
    if !begins_with(s, word) {
        None
    } else {
        let rest = s.skip(word.len() as int);
        if rest.len() == 0 {
            Some(Seq::empty())
        } else if rest[0] == ':' || crate::text::is_white(rest[0]) {
            Some(crate::text::trim(strip_colons(rest)))
        } else {
            None
        }
    }
}

/// `text` without a leading "Agent" or "Task".
pub open spec fn without_genus(text: Seq<char>) -> Seq<char> {
    let t = crate::text::trim(text);
    match after_word(t, "agent"@) {
        Some(rest) => rest,
        None => match after_word(t, "task"@) {
            Some(rest) => rest,
            None => t,
        },
    }
}

fn lower(c: char) -> (r: char)
    ensures
        r == lowered(c),
{
    if 'A' <= c && c <= 'Z' {
        (c as u8 + 32) as char
    } else {
        c
    }
}

proof fn lemma_strip_colons(s: Seq<char>, k: int)
    requires
        0 <= k <= s.len(),
        forall|j: int| 0 <= j < k ==> #[trigger] s[j] == ':',
        k < s.len() ==> s[k] != ':',
    ensures
        strip_colons(s) == s.skip(k),
    decreases k,
{
    if k > 0 {
        assert(s[0] == ':');
        let t = s.skip(1);
        assert forall|j: int| 0 <= j < k - 1 implies #[trigger] t[j] == ':' by {
            assert(t[j] == s[j + 1]);
        }
        lemma_strip_colons(t, k - 1);
        assert(t.skip(k - 1) =~= s.skip(k));
    } else {
        assert(s.skip(0) =~= s);
    }
}

/// What follows `word` at the start of `s`, where `word` ends there.
fn rest_after(s: &Vec<char>, word: &str) -> (r: Option<String>)
    ensures
        crate::markdown::opt_text(r) == after_word(s@, word@),
{
    let w = crate::text::chars_of(word);
    if s.len() < w.len() {
        return None;
    }
    let mut i: usize = 0;
    while i < w.len()
        invariant
            i <= w@.len() <= s@.len(),
            w@ == word@,
            forall|j: int| 0 <= j < i ==> lowered(#[trigger] s@[j]) == lowered(word@[j]),
        decreases w.len() - i,
    {
        if lower(s[i]) != lower(w[i]) {
            assert(lowered(s@[i as int]) != lowered(word@[i as int]));
            return None;
        }
        i = i + 1;
    }
    let n: usize = w.len();
    let ghost rest = s@.skip(n as int);
    if s.len() == n {
        let r = String::new();
        assert(rest =~= Seq::empty());
        return Some(r);
    }
    assert(rest[0] == s@[n as int]);
    if s[n] != ':' && !crate::text::white(s[n]) {
        return None;
    }
    let mut k: usize = n;
    while k < s.len() && s[k] == ':'
        invariant
            n <= k <= s@.len(),
            rest == s@.skip(n as int),
            forall|j: int| 0 <= j < k - n ==> #[trigger] rest[j] == ':',
        decreases s.len() - k,
    {
        assert(rest[k - n] == s@[k as int]);
        k = k + 1;
    }
    proof {
        if k < s@.len() {
            assert(rest[k - n] == s@[k as int]);
        }
        lemma_strip_colons(rest, k - n);
        assert(rest.skip(k - n) =~= s@.subrange(k as int, s@.len() as int));
    }
    let tail = crate::text::text_between(s, k, s.len());
    Some(crate::text::trimmed(tail.as_str()))
}

/// Drops a leading "Agent" or "Task" with its colon and spacing. Only a whole
/// word is dropped.
pub fn strip_spawn_prefix(text: &str) -> (r: String)
    ensures
        r@ == without_genus(text@),
{
    let t = crate::text::trimmed(text);
    let v = crate::text::chars_of(t.as_str());
    if let Some(rest) = rest_after(&v, "agent") {
        return rest;
    }
    if let Some(rest) = rest_after(&v, "task") {
        return rest;
    }
    t
}

/// The title that a candidate gives.
pub open spec fn candidate(text: Option<Seq<char>>) -> Option<Seq<char>> {
    match text {
        Some(t) => title_of(without_genus(t), SUBAGENT_TITLE_MAX as nat),
        None => None,
    }
}

/// The first of three that is there.
pub open spec fn first_of(
    a: Option<Seq<char>>,
    b: Option<Seq<char>>,
    c: Option<Seq<char>>,
) -> Seq<char> {
    match (a, b, c) {
        (Some(t), _, _) => t,
        (None, Some(t), _) => t,
        (None, None, Some(t)) => t,
        (None, None, None) => "Subagent"@,
    }
}

/// The text of a field of an optional input.
pub open spec fn input_text(input: Option<serde_json::Value>, key: Seq<char>) -> Option<Seq<char>> {
    match input {
        Some(v) => crate::json::text_field(v, key),
        None => None,
    }
}

/// The title by a call's name and input.
pub open spec fn named_title(name: Seq<char>, input: Option<serde_json::Value>) -> Seq<char> {
    first_of(
        candidate(Some(name)),
        candidate(input_text(input, "description"@)),
        candidate(input_text(input, "prompt"@)),
    )
}

/// The title of a spawning call's tab: the bare description of its task.
pub open spec fn tab_title(call: crate::tools::CallView) -> Seq<char> {
    match call {
        crate::tools::CallView::Unknown { name, input } => named_title(name, input),
        crate::tools::CallView::Mcp { server, tool, input } => named_title(tool, input),
        _ => "Subagent"@,
    }
}

fn read_input(input: &Option<serde_json::Value>, key: &str) -> (r: Option<String>)
    ensures
        crate::markdown::opt_text(r) == input_text(*input, key@),
{
    match input {
        Some(v) => crate::json::read_text(v, key),
        None => None,
    }
}

fn title_from(text: &Option<String>) -> (r: Option<String>)
    ensures
        crate::markdown::opt_text(r) == candidate(crate::markdown::opt_text(*text)),
{
    match text {
        Some(t) => {
            let bare = strip_spawn_prefix(t.as_str());
            title_line(bare.as_str(), SUBAGENT_TITLE_MAX)
        },
        None => None,
    }
}

fn title_by_name(name: &String, input: &Option<serde_json::Value>) -> (r: String)
    ensures
        r@ == named_title(name@, *input),
{
    let named = Some(name.clone());
    if let Some(t) = title_from(&named) {
        return t;
    }
    if let Some(t) = title_from(&read_input(input, "description")) {
        return t;
    }
    if let Some(t) = title_from(&read_input(input, "prompt")) {
        return t;
    }
    "Subagent".to_owned()
}

/// The title of a spawning call's tab. A call whose name says nothing but that
/// it spawns gives its description or its prompt instead.
pub fn subagent_tab_title(call: &ToolCall) -> (r: String)
    ensures
        r@ == tab_title(call@),
{
    match call {
        ToolCall::Unknown { name, input } => title_by_name(name, input),
        ToolCall::Mcp { server: _, tool, input } => title_by_name(tool, input),
        _ => "Subagent".to_owned(),
    }
}

/// A title is never longer than its limit and an ellipsis.
pub proof fn law_title_is_bounded(text: Seq<char>, max: nat)
    ensures
        title_of(text, max) matches Some(t) ==> t.len() <= max + 1,
{
}

} // verus!
