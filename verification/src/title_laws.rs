//! What holds of the titles of subagents, of parsing and of frame reports.
use vstd::prelude::*;

use crate::parsing::{CachesView, ParseOutcome, ParseStep};

verus! {

/// Whether line `k` is the first that is not blank.
pub open spec fn first_written(lines: Seq<Seq<char>>, k: int) -> bool {
    &&& 0 <= k < lines.len()
    &&& !crate::text::is_blank(lines[k])
    &&& forall|j: int| 0 <= j < k ==> crate::text::is_blank(#[trigger] lines[j])
}

proof fn lemma_first_shown(lines: Seq<Seq<char>>)
    ensures
        match crate::titles::first_shown(lines) {
            Some(line) => exists|k: int| #[trigger] first_written(lines, k) && lines[k] == line,
            None => forall|j: int|
                0 <= j < lines.len() ==> crate::text::is_blank(#[trigger] lines[j]),
        },
    decreases lines.len(),
{
    if lines.len() > 0 {
        if !crate::text::is_blank(lines[0]) {
            assert(first_written(lines, 0));
        } else {
            let rest = lines.skip(1);
            lemma_first_shown(rest);
            match crate::titles::first_shown(rest) {
                Some(line) => {
                    let k = choose|k: int| #[trigger] first_written(rest, k) && rest[k] == line;
                    assert forall|j: int| 0 <= j < k + 1 implies crate::text::is_blank(
                        #[trigger] lines[j],
                    ) by {
                        if j > 0 {
                            assert(rest[j - 1] == lines[j]);
                        }
                    }
                    assert(first_written(lines, k + 1));
                },
                None => {
                    assert forall|j: int| 0 <= j < lines.len() implies crate::text::is_blank(
                        #[trigger] lines[j],
                    ) by {
                        if j > 0 {
                            assert(rest[j - 1] == lines[j]);
                        }
                    }
                },
            }
        }
    }
}

/// A title is the first line that is not blank, without the space around it: all
/// of it where it is short enough, else as many characters as may stand and an
/// ellipsis. A text of blank lines has no title.
pub proof fn law_a_title_is_the_first_written_line(text: Seq<char>, max: nat, k: int)
    ensures
        first_written(crate::text::lines(text), k) ==> {
            let line = crate::text::trim(crate::text::lines(text)[k]);
            let title = crate::titles::title_of(text, max);
            &&& title is Some
            &&& line.len() <= max ==> title->0 == line
            &&& line.len() > max ==> title->0.len() == max + 1 && title->0.last() == '…' && (
            forall|i: int| 0 <= i < max ==> #[trigger] title->0[i] == line[i])
        },
        crate::titles::title_of(text, max) is None <==> forall|j: int|
            0 <= j < crate::text::lines(text).len() ==> crate::text::is_blank(
                #[trigger] crate::text::lines(text)[j],
            ),
{
    let lines = crate::text::lines(text);
    lemma_first_shown(lines);
    if let Some(line) = crate::titles::first_shown(lines) {
        let f = choose|f: int| #[trigger] first_written(lines, f) && lines[f] == line;
        if first_written(lines, k) && k < f {
            assert(crate::text::is_blank(lines[k]));
        }
        if first_written(lines, k) && f < k {
            assert(crate::text::is_blank(lines[f]));
        }
        assert(!crate::text::is_blank(lines[f]));
    }
}

/// Whether two characters are the same, or one letter of the alphabet in its two
/// cases.
pub open spec fn same_letter(a: char, b: char) -> bool {
    a == b || ('A' <= a <= 'Z' && b as int == a as int + 32) || ('A' <= b <= 'Z' && a as int
        == b as int + 32)
}

/// A text begins with a word exactly where it has the same letters, in whatever
/// case.
pub proof fn law_words_match_in_any_case(s: Seq<char>, word: Seq<char>)
    ensures
        crate::titles::begins_with(s, word) <==> s.len() >= word.len() && forall|i: int|
            0 <= i < word.len() ==> same_letter(#[trigger] s[i], word[i]),
{
    assert forall|a: char, b: char|
        (crate::titles::lowered(a) == crate::titles::lowered(b)) == #[trigger] same_letter(
            a,
            b,
        ) by {}
    if crate::titles::begins_with(s, word) {
        assert forall|i: int| 0 <= i < word.len() implies same_letter(#[trigger] s[i], word[i]) by {
            assert(crate::titles::lowered(s[i]) == crate::titles::lowered(word[i]));
        }
    }
    if s.len() >= word.len() && forall|i: int|
        0 <= i < word.len() ==> same_letter(#[trigger] s[i], word[i]) {
        assert forall|i: int| 0 <= i < word.len() implies crate::titles::lowered(#[trigger] s[i])
            == crate::titles::lowered(word[i]) by {
            assert(same_letter(s[i], word[i]));
        }
    }
}

/// Whether `r` is what follows `n` characters of `s`, without the colons and the
/// space between.
pub open spec fn follows(s: Seq<char>, n: int, r: Seq<char>) -> bool {
    exists|k: int|
        n <= k <= s.len() && r == #[trigger] s.skip(k) && (forall|j: int|
            n <= j < k ==> #[trigger] s[j] == ':' || crate::text::is_white(s[j])) && (r.len() > 0
            ==> !crate::text::is_white(r[0]))
}

proof fn lemma_colons(s: Seq<char>) -> (k: int)
    ensures
        0 <= k <= s.len(),
        crate::titles::strip_colons(s) == s.skip(k),
        forall|j: int| 0 <= j < k ==> #[trigger] s[j] == ':',
    decreases s.len(),
{
    if s.len() > 0 && s[0] == ':' {
        let t = s.skip(1);
        let k = lemma_colons(t);
        assert(t.skip(k) =~= s.skip(k + 1));
        assert forall|j: int| 0 <= j < k + 1 implies #[trigger] s[j] == ':' by {
            if j > 0 {
                assert(t[j - 1] == s[j]);
            }
        }
        k + 1
    } else {
        assert(s.skip(0) =~= s);
        0
    }
}

proof fn lemma_follows(t: Seq<char>, n: int)
    requires
        0 <= n <= t.len(),
        t.len() > 0 ==> !crate::text::is_white(t.last()),
    ensures
        follows(t, n, crate::text::trim(crate::titles::strip_colons(t.skip(n)))),
{
    let rest = t.skip(n);
    let c = lemma_colons(rest);
    let tail = crate::titles::strip_colons(rest);
    let head = crate::text::trim_start(tail);
    crate::text_laws::lemma_trim_start(tail);
    crate::text_laws::lemma_trim_end(head);
    let r = crate::text::trim(tail);
    let k = n + c + (tail.len() - head.len());
    assert(head =~= t.skip(k));
    if r.len() < head.len() {
        assert(crate::text::is_white(head[head.len() - 1]));
        assert(head[head.len() - 1] == t.last());
    }
    assert(r =~= t.skip(k));
    assert forall|j: int| n <= j < k implies #[trigger] t[j] == ':' || crate::text::is_white(
        t[j],
    ) by {
        if j < n + c {
            assert(rest[j - n] == t[j]);
        } else {
            assert(tail[j - n - c] == t[j]);
        }
    }
    if r.len() > 0 {
        assert(head[0] == r[0]);
    }
}

/// A leading "Agent" or "Task" that ends there is dropped with the colons and the
/// space behind it, whatever its case; a longer word that begins so is not.
pub proof fn law_only_a_whole_word_is_dropped(text: Seq<char>)
    ensures
        ({
            let t = crate::text::trim(text);
            let r = crate::titles::without_genus(text);
            let agent = crate::titles::begins_with(t, "agent"@);
            let task = crate::titles::begins_with(t, "task"@);
            let ends = |n: int| t.len() == n || t[n] == ':' || crate::text::is_white(t[n]);
            &&& agent && ends(5) ==> follows(t, 5, r)
            &&& agent && !ends(5) && !task ==> r == t
            &&& !agent && task && ends(4) ==> follows(t, 4, r)
            &&& !agent && task && !ends(4) ==> r == t
            &&& !agent && !task ==> r == t
        }),
{
    reveal_strlit("agent");
    reveal_strlit("task");
    let t = crate::text::trim(text);
    let r = crate::titles::without_genus(text);
    crate::text_laws::law_trimming_takes_only_white_ends(text);
    if t.len() >= 5 {
        lemma_follows(t, 5);
        if t.len() == 5 {
            assert(t.skip(5) =~= Seq::empty());
            lemma_nothing(t);
        } else {
            assert(t.skip(5)[0] == t[5]);
        }
    }
    if t.len() >= 4 {
        lemma_follows(t, 4);
        if t.len() == 4 {
            assert(t.skip(4) =~= Seq::empty());
            lemma_nothing(t);
        } else {
            assert(t.skip(4)[0] == t[4]);
        }
    }
}

proof fn lemma_nothing(t: Seq<char>)
    ensures
        follows(t, t.len() as int, Seq::empty()),
{
    assert(t.skip(t.len() as int) =~= Seq::empty());
}

/// The first of a name, a description and a prompt that gives a title gives it;
/// none of them is asked before those ahead of it.
pub proof fn law_the_name_goes_first(
    name: Seq<char>,
    server: Seq<char>,
    input: Option<serde_json::Value>,
    a: Option<Seq<char>>,
    b: Option<Seq<char>>,
    c: Option<Seq<char>>,
)
    requires
        a == crate::titles::candidate(Some(name)),
        b == crate::titles::candidate(crate::titles::input_text(input, "description"@)),
        c == crate::titles::candidate(crate::titles::input_text(input, "prompt"@)),
    ensures
        a is Some ==> crate::titles::named_title(name, input) == a->0,
        a is None && b is Some ==> crate::titles::named_title(name, input) == b->0,
        a is None && b is None && c is Some ==> crate::titles::named_title(name, input) == c->0,
        a is None && b is None && c is None ==> crate::titles::named_title(name, input)
            == "Subagent"@,
        crate::titles::candidate(Some(name)) == crate::titles::title_of(
            crate::titles::without_genus(name),
            40,
        ),
        crate::titles::candidate(None) is None,
        crate::titles::tab_title(crate::tools::CallView::Unknown { name, input })
            == crate::titles::named_title(name, input),
        crate::titles::tab_title(crate::tools::CallView::Mcp { server, tool: name, input })
            == crate::titles::named_title(name, input),
{
}

// ---------------------------------------------------------------------------
// Parsing
// ---------------------------------------------------------------------------

/// A streaming part always goes on with its live parser, which then has seen
/// just the text that streams.
pub proof fn law_a_streaming_part_goes_on(c: CachesView, key: Seq<char>, text: Seq<char>)
    ensures
        ({
            let (step, after) = crate::parsing::parse_plan(c, true, key, text);
            &&& step == ParseStep::Advance
            &&& after.live.contains_key(key) && after.live[key] == text
            &&& after.settled == c.settled
        }),
{
}

/// A settled part parses in full exactly where no tree of its length is kept and
/// its live parser saw another text, or none; its live parser goes.
pub proof fn law_a_settled_part_parses_once(c: CachesView, key: Seq<char>, text: Seq<char>)
    ensures
        ({
            let (step, after) = crate::parsing::parse_plan(c, false, key, text);
            let kept = c.settled.contains_key(key) && c.settled[key].0
                == crate::parsing::byte_len(text);
            let seen = c.live.contains_key(key) && c.live[key] == text;
            &&& step is Reuse <==> kept
            &&& kept ==> step == ParseStep::Reuse(c.settled[key].1) && after == c
            &&& step == ParseStep::Adopt <==> !kept && seen
            &&& step == ParseStep::Parse <==> !kept && !seen
            &&& !kept ==> !after.live.contains_key(key)
        }),
{
}

/// A tree that was used again or is still growing is not kept anew.
pub proof fn law_only_new_trees_are_kept(
    c: CachesView,
    tree: std::sync::Arc<crate::markdown::BlockTree>,
    kept: std::sync::Arc<crate::markdown::BlockTree>,
    key: Seq<char>,
    text: Seq<char>,
)
    ensures
        crate::parsing::parse_kept(c, ParseStep::Advance, key, text, tree) == c,
        crate::parsing::parse_kept(c, ParseStep::Reuse(kept), key, text, tree) == c,
        ({
            let adopted = crate::parsing::parse_kept(c, ParseStep::Adopt, key, text, tree);
            let parsed = crate::parsing::parse_kept(c, ParseStep::Parse, key, text, tree);
            &&& adopted == parsed
            &&& parsed.settled.contains_key(key)
            &&& parsed.settled[key] == (crate::parsing::byte_len(text), tree)
            &&& parsed.live == c.live
        }),
{
}

/// Each way of having a tree counts for itself, and only a live parser's work is
/// counted in bytes and blocks.
pub proof fn law_each_way_counts_for_itself(
    step: &ParseStep,
    bytes: usize,
    blocks: usize,
    r: ParseOutcome,
)
    requires
        call_ensures(crate::parsing::parse_outcome, (step, bytes, blocks), r),
    ensures
        *step is Reuse <==> r == ParseOutcome::Cached,
        *step is Adopt <==> r == ParseOutcome::Handoff,
        *step is Parse <==> r == ParseOutcome::Full,
        *step is Advance ==> r == (ParseOutcome::Incremental {
            parsed_bytes: bytes,
            stable_prefix_blocks: blocks,
        }),
{
}

// ---------------------------------------------------------------------------
// Frame reports
// ---------------------------------------------------------------------------

/// A report of a full window of 240 samples: none exceeds its greatest, half of
/// them do not exceed its middle and the others do not fall short of it, and no
/// more than twelve come after the sample for ninety-five of a hundred.
pub proof fn law_a_report_tells_the_window(s: Seq<u64>, i: int)
    requires
        crate::frames::rising(s),
        s.len() == 240,
        0 <= i < 240,
    ensures
        ({
            let r = crate::frames::report(s);
            &&& r.n == 240
            &&& s[i] <= r.max && s.contains(r.max)
            &&& i < 120 ==> s[i] <= r.p50
            &&& i >= 120 ==> s[i] >= r.p50
            &&& i < 228 ==> s[i] <= r.p95
            &&& i >= 228 ==> s[i] >= r.p95
            &&& s.contains(r.p50) && s.contains(r.p95)
        }),
{
    assert(s[239] == s.last());
    assert(s[i] <= s[239]);
    assert(240int * 95 / 100 == 228);
    assert(s[120] == crate::frames::report(s).p50);
    assert(s[228] == crate::frames::report(s).p95);
}

/// A switch is on by any text but an empty one and a zero.
pub proof fn law_a_zero_is_off(value: Seq<char>)
    ensures
        !crate::frames::switched_on(None),
        crate::frames::switched_on(Some(value)) <==> !(value.len() == 0 || (value.len() == 1
            && value[0] == '0')),
{
    reveal_strlit("0");
    if value.len() == 1 && value[0] == '0' {
        assert(value =~= "0"@);
    }
}

} // verus!
