//! What a fingerprint tells apart besides the marks of a chip: its words, its
//! numbers, and what it opens to.
use vstd::prelude::*;

use crate::markdown::RunView;
use crate::message::{MessagePart, SessionMessageEntry};
use crate::tools::{DetailView, ItemView, StatView};

verus! {

/// Whether two texts differ in one byte.
pub open spec fn texts_apart(a: Seq<char>, b: Seq<char>, i: int) -> bool {
    crate::hash::one_byte_apart(crate::fingerprint::bytes_of(a), crate::fingerprint::bytes_of(b), i)
}

/// The hash begins with FNV-1a's basis, and takes in each byte by an exclusive or
/// and a product with its prime, in this order.
pub proof fn law_bytes_are_taken_in_one_by_one(bytes: Seq<u8>, b: u8)
    ensures
        crate::hash::fnv(Seq::empty()) == 0xcbf2_9ce4_8422_2325u64,
        crate::hash::fnv(bytes.push(b)) == (crate::hash::fnv(bytes) ^ b as u64).wrapping_mul(
            0x1_0000_01b3u64,
        ),
{
    assert(bytes.push(b).drop_last() =~= bytes);
}

proof fn lemma_print_apart(tools: Seq<ItemView>, k: int, chip: ItemView, auto_open: bool, i: int)
    requires
        0 <= k < tools.len(),
        crate::hash::one_byte_apart(
            crate::fingerprint::item_bytes(tools[k]),
            crate::fingerprint::item_bytes(chip),
            i,
        ),
    ensures
        crate::fingerprint::group_print(tools, auto_open) != crate::fingerprint::group_print(
            tools.update(k, chip),
            auto_open,
        ),
{
    let others = tools.update(k, chip);
    crate::fingerprint::lemma_items_split(tools, k);
    crate::fingerprint::lemma_items_split(others, k);
    assert(others.take(k) =~= tools.take(k));
    assert(others.skip(k + 1) =~= tools.skip(k + 1));
    let p = crate::fingerprint::items_bytes(tools.take(k));
    let s = crate::fingerprint::items_bytes(tools.skip(k + 1)).push(
        crate::fingerprint::bit(auto_open),
    );
    let mine = crate::fingerprint::item_bytes(tools[k]);
    let new = crate::fingerprint::item_bytes(chip);
    crate::fingerprint::lemma_apart_inside(p, mine, new, s, i);
    let a = crate::fingerprint::items_bytes(tools).push(crate::fingerprint::bit(auto_open));
    let b = crate::fingerprint::items_bytes(others).push(crate::fingerprint::bit(auto_open));
    assert(a =~= p + mine + s);
    assert(b =~= p + new + s);
    crate::hash::law_one_byte_changes_the_hash(a, b, p.len() + i);
}

/// A chip whose label changes in one byte is shown anew.
pub proof fn law_a_changed_label_changes_the_print(
    tools: Seq<ItemView>,
    k: int,
    chip: ItemView,
    auto_open: bool,
    i: int,
)
    requires
        0 <= k < tools.len(),
        chip == (ItemView { facts: chip.facts, ..tools[k] }),
        chip.facts.detail == tools[k].facts.detail,
        texts_apart(tools[k].facts.label, chip.facts.label, i),
    ensures
        crate::fingerprint::group_print(tools, auto_open) != crate::fingerprint::group_print(
            tools.update(k, chip),
            auto_open,
        ),
{
    let t = tools[k];
    let a = crate::fingerprint::bytes_of(t.facts.label);
    let b = crate::fingerprint::bytes_of(chip.facts.label);
    let none = Seq::<u8>::empty();
    let rest = crate::fingerprint::item_bytes(t).skip(a.len() as int);
    assert(crate::fingerprint::item_bytes(t) =~= none + a + rest);
    assert(crate::fingerprint::item_bytes(chip) =~= none + b + rest) by {
        assert(crate::fingerprint::tail_bytes(t) == crate::fingerprint::tail_bytes(chip));
    }
    crate::fingerprint::lemma_apart_inside(none, a, b, rest, i);
    lemma_print_apart(tools, k, chip, auto_open, i);
}

/// A chip whose subagent says something else is shown anew.
pub proof fn law_a_changed_tail_changes_the_print(
    tools: Seq<ItemView>,
    k: int,
    chip: ItemView,
    auto_open: bool,
    i: int,
)
    requires
        0 <= k < tools.len(),
        chip == (ItemView { subagent_tail: chip.subagent_tail, ..tools[k] }),
        tools[k].subagent_tail is Some && chip.subagent_tail is Some,
        texts_apart(tools[k].subagent_tail->0, chip.subagent_tail->0, i),
    ensures
        crate::fingerprint::group_print(tools, auto_open) != crate::fingerprint::group_print(
            tools.update(k, chip),
            auto_open,
        ),
{
    let t = tools[k];
    let a = crate::fingerprint::bytes_of(t.subagent_tail->0);
    let b = crate::fingerprint::bytes_of(chip.subagent_tail->0);
    let none = Seq::<u8>::empty();
    let whole = crate::fingerprint::item_bytes(t);
    let head = whole.take(whole.len() - a.len());
    assert(whole =~= head + a + none);
    assert(crate::fingerprint::item_bytes(chip) =~= head + b + none) by {
        assert(crate::fingerprint::head_bytes(t) == crate::fingerprint::head_bytes(chip));
    }
    crate::fingerprint::lemma_apart_inside(head, a, b, none, i);
    lemma_print_apart(tools, k, chip, auto_open, head.len() + i);
}

proof fn lemma_joined_apart(s: Seq<Seq<char>>, t: Seq<Seq<char>>, k: int, i: int) -> (at: int)
    requires
        0 <= k < s.len(),
        s.len() == t.len(),
        texts_apart(s[k], t[k], i),
        forall|j: int| 0 <= j < s.len() && j != k ==> s[j] == t[j],
    ensures
        crate::hash::one_byte_apart(
            crate::fingerprint::joined_bytes(s),
            crate::fingerprint::joined_bytes(t),
            at,
        ),
    decreases s.len(),
{
    let a = s.drop_last();
    let b = t.drop_last();
    let none = Seq::<u8>::empty();
    let x = crate::fingerprint::joined_bytes(a);
    let y = crate::fingerprint::joined_bytes(b);
    let p = crate::fingerprint::bytes_of(s.last());
    let q = crate::fingerprint::bytes_of(t.last());
    if k == s.len() - 1 {
        assert(a =~= b);
        crate::fingerprint::lemma_apart_inside(x, p, q, none, i);
        assert(crate::fingerprint::joined_bytes(s) =~= x + p + none);
        assert(crate::fingerprint::joined_bytes(t) =~= x + q + none);
        x.len() + i
    } else {
        let at = lemma_joined_apart(a, b, k, i);
        crate::fingerprint::lemma_apart_inside(none, x, y, p, at);
        assert(crate::fingerprint::joined_bytes(s) =~= none + x + p);
        assert(crate::fingerprint::joined_bytes(t) =~= none + y + p);
        at
    }
}

/// A chip whose invocation changes in one byte of one line is shown anew.
pub proof fn law_a_changed_invocation_changes_the_print(
    tools: Seq<ItemView>,
    k: int,
    lines: Seq<Seq<char>>,
    others: Seq<Seq<char>>,
    cut: usize,
    auto_open: bool,
    j: int,
    i: int,
)
    requires
        0 <= k < tools.len(),
        tools[k].invocation == Some(DetailView::Output { lines, truncated_by: cut }),
        0 <= j < lines.len(),
        lines.len() == others.len(),
        texts_apart(lines[j], others[j], i),
        forall|l: int| 0 <= l < lines.len() && l != j ==> lines[l] == others[l],
    ensures
        ({
            let chip = ItemView {
                invocation: Some(DetailView::Output { lines: others, truncated_by: cut }),
                ..tools[k]
            };
            crate::fingerprint::group_print(tools, auto_open) != crate::fingerprint::group_print(
                tools.update(k, chip),
                auto_open,
            )
        }),
{
    let t = tools[k];
    let chip = ItemView {
        invocation: Some(DetailView::Output { lines: others, truncated_by: cut }),
        ..t
    };
    let at = lemma_joined_apart(lines, others, j, i);
    let a = crate::fingerprint::joined_bytes(lines);
    let b = crate::fingerprint::joined_bytes(others);
    let head = crate::fingerprint::head_bytes(t) + crate::fingerprint::detail_bytes(t.detail);
    let rest = crate::fingerprint::le32(cut as u32) + crate::fingerprint::tail_bytes(t);
    assert(crate::fingerprint::head_bytes(t) == crate::fingerprint::head_bytes(chip));
    assert(crate::fingerprint::tail_bytes(t) == crate::fingerprint::tail_bytes(chip));
    assert(crate::fingerprint::item_bytes(t) =~= head + a + rest);
    assert(crate::fingerprint::item_bytes(chip) =~= head + b + rest);
    crate::fingerprint::lemma_apart_inside(head, a, b, rest, at);
    lemma_print_apart(tools, k, chip, auto_open, head.len() + at);
}

/// A chip whose detail changes, with as many bytes standing for it and one of
/// them another, is shown anew.
proof fn lemma_detail_apart(
    tools: Seq<ItemView>,
    k: int,
    detail: DetailView,
    auto_open: bool,
    i: int,
)
    requires
        0 <= k < tools.len(),
        crate::hash::one_byte_apart(
            crate::fingerprint::detail_bytes(tools[k].detail),
            crate::fingerprint::detail_bytes(Some(detail)),
            i,
        ),
    ensures
        crate::fingerprint::group_print(tools, auto_open) != crate::fingerprint::group_print(
            tools.update(k, ItemView { detail: Some(detail), ..tools[k] }),
            auto_open,
        ),
{
    let t = tools[k];
    let chip = ItemView { detail: Some(detail), ..t };
    let a = crate::fingerprint::detail_bytes(t.detail);
    let b = crate::fingerprint::detail_bytes(Some(detail));
    let head = crate::fingerprint::head_bytes(t);
    let rest = crate::fingerprint::invocation_bytes(t.invocation) + crate::fingerprint::tail_bytes(
        t,
    );
    assert(head == crate::fingerprint::head_bytes(chip));
    assert(crate::fingerprint::tail_bytes(t) == crate::fingerprint::tail_bytes(chip));
    assert(crate::fingerprint::item_bytes(t) =~= head + a + rest);
    assert(crate::fingerprint::item_bytes(chip) =~= head + b + rest);
    crate::fingerprint::lemma_apart_inside(head, a, b, rest, i);
    lemma_print_apart(tools, k, chip, auto_open, head.len() + i);
}

proof fn lemma_style_bits(s: crate::markdown::StyleView, t: crate::markdown::StyleView)
    ensures
        crate::fingerprint::style_bits(s) == crate::fingerprint::style_bits(t) <==> s.bold == t.bold
            && s.italic == t.italic && s.code == t.code && s.strikethrough == t.strikethrough
            && s.link is Some == t.link is Some,
{
}

/// Whether two runs differ in one byte of their text, or in one of their marks.
pub open spec fn runs_apart(a: RunView, b: RunView, i: int) -> bool {
    ||| a.style == b.style && texts_apart(a.text, b.text, i)
    ||| a.text == b.text && (a.style.bold != b.style.bold || a.style.italic != b.style.italic
        || a.style.code != b.style.code || a.style.strikethrough != b.style.strikethrough
        || a.style.link is Some != b.style.link is Some)
}

proof fn lemma_runs_apart(s: Seq<RunView>, t: Seq<RunView>, k: int, i: int) -> (at: int)
    requires
        0 <= k < s.len(),
        s.len() == t.len(),
        runs_apart(s[k], t[k], i),
        forall|j: int| 0 <= j < s.len() && j != k ==> s[j] == t[j],
    ensures
        crate::hash::one_byte_apart(
            crate::fingerprint::runs_bytes(s),
            crate::fingerprint::runs_bytes(t),
            at,
        ),
    decreases s.len(),
{
    let a = s.drop_last();
    let b = t.drop_last();
    let none = Seq::<u8>::empty();
    let x = crate::fingerprint::runs_bytes(a);
    let y = crate::fingerprint::runs_bytes(b);
    let p = crate::fingerprint::bytes_of(s.last().text);
    let q = crate::fingerprint::bytes_of(t.last().text);
    let m = seq![crate::fingerprint::style_bits(s.last().style)];
    let n = seq![crate::fingerprint::style_bits(t.last().style)];
    assert(crate::fingerprint::runs_bytes(s) =~= x + p + m);
    assert(crate::fingerprint::runs_bytes(t) =~= y + q + n);
    if k == s.len() - 1 {
        assert(a =~= b);
        if s[k].style == t[k].style && texts_apart(s[k].text, t[k].text, i) {
            crate::fingerprint::lemma_apart_inside(x, p, q, m, i);
            x.len() + i
        } else {
            lemma_style_bits(s[k].style, t[k].style);
            assert(crate::hash::one_byte_apart(m, n, 0));
            crate::fingerprint::lemma_apart_inside(x + p, m, n, none, 0);
            assert(x + p + m + none =~= x + p + m);
            assert(x + p + n + none =~= x + q + n);
            (x + p).len() as int
        }
    } else {
        let at = lemma_runs_apart(a, b, k, i);
        crate::fingerprint::lemma_apart_inside(none, x, y, p + m, at);
        assert(none + x + (p + m) =~= x + p + m);
        assert(none + y + (p + m) =~= y + q + n);
        at
    }
}

proof fn lemma_lines_apart(
    s: Seq<Seq<RunView>>,
    t: Seq<Seq<RunView>>,
    l: int,
    k: int,
    i: int,
) -> (at: int)
    requires
        0 <= l < s.len(),
        s.len() == t.len(),
        0 <= k < s[l].len(),
        s[l].len() == t[l].len(),
        runs_apart(s[l][k], t[l][k], i),
        forall|j: int| 0 <= j < s[l].len() && j != k ==> s[l][j] == t[l][j],
        forall|j: int| 0 <= j < s.len() && j != l ==> s[j] == t[j],
    ensures
        crate::hash::one_byte_apart(
            crate::fingerprint::lines_bytes(s),
            crate::fingerprint::lines_bytes(t),
            at,
        ),
    decreases s.len(),
{
    let a = s.drop_last();
    let b = t.drop_last();
    let none = Seq::<u8>::empty();
    let x = crate::fingerprint::lines_bytes(a);
    let y = crate::fingerprint::lines_bytes(b);
    let p = crate::fingerprint::runs_bytes(s.last());
    let q = crate::fingerprint::runs_bytes(t.last());
    let feed = seq![10u8];
    assert(crate::fingerprint::lines_bytes(s) =~= x + p + feed);
    assert(crate::fingerprint::lines_bytes(t) =~= y + q + feed);
    if l == s.len() - 1 {
        assert(a =~= b);
        let at = lemma_runs_apart(s[l], t[l], k, i);
        crate::fingerprint::lemma_apart_inside(x, p, q, feed, at);
        x.len() + at
    } else {
        let at = lemma_lines_apart(a, b, l, k, i);
        crate::fingerprint::lemma_apart_inside(none, x, y, p + feed, at);
        assert(none + x + (p + feed) =~= x + p + feed);
        assert(none + y + (p + feed) =~= y + q + feed);
        at
    }
}

/// A thought that changes in one byte of its text, or in one mark of one run, is
/// shown anew: so a live thought goes on as it is written.
pub proof fn law_a_changed_thought_changes_the_print(
    tools: Seq<ItemView>,
    at: int,
    lines: Seq<Seq<RunView>>,
    others: Seq<Seq<RunView>>,
    cut: usize,
    auto_open: bool,
    l: int,
    k: int,
    i: int,
)
    requires
        0 <= at < tools.len(),
        tools[at].detail == Some(DetailView::Thought { lines, truncated_by: cut }),
        0 <= l < lines.len(),
        lines.len() == others.len(),
        0 <= k < lines[l].len(),
        lines[l].len() == others[l].len(),
        runs_apart(lines[l][k], others[l][k], i),
        forall|j: int| 0 <= j < lines[l].len() && j != k ==> lines[l][j] == others[l][j],
        forall|j: int| 0 <= j < lines.len() && j != l ==> lines[j] == others[j],
    ensures
        ({
            let chip = ItemView {
                detail: Some(DetailView::Thought { lines: others, truncated_by: cut }),
                ..tools[at]
            };
            crate::fingerprint::group_print(tools, auto_open) != crate::fingerprint::group_print(
                tools.update(at, chip),
                auto_open,
            )
        }),
{
    let x = crate::fingerprint::lines_bytes(lines);
    let y = crate::fingerprint::lines_bytes(others);
    let p = lemma_lines_apart(lines, others, l, k, i);
    let none = Seq::<u8>::empty();
    let head = seq![4u8] + crate::fingerprint::le32(lines.len() as u32) + crate::fingerprint::le32(
        cut as u32,
    );
    let detail = DetailView::Thought { lines: others, truncated_by: cut };
    crate::fingerprint::lemma_apart_inside(head, x, y, none, p);
    assert(crate::fingerprint::detail_bytes(tools[at].detail) =~= head + x + none);
    assert(crate::fingerprint::detail_bytes(Some(detail)) =~= head + y + none);
    lemma_detail_apart(tools, at, detail, auto_open, head.len() + p);
}

/// What stands for a detail tells its kind: none, an output, a diff, stats or a
/// thought.
pub proof fn law_the_print_tells_the_kind(a: Option<DetailView>, b: Option<DetailView>)
    requires
        crate::fingerprint::detail_bytes(a) == crate::fingerprint::detail_bytes(b),
    ensures
        a is None <==> b is None,
        a is Some && b is Some ==> (a->0 is Output <==> b->0 is Output) && (a->0 is Diff
            <==> b->0 is Diff) && (a->0 is Stats <==> b->0 is Stats) && (a->0 is Thought
            <==> b->0 is Thought),
{
    let x = crate::fingerprint::detail_bytes(a)[0];
    let y = crate::fingerprint::detail_bytes(b)[0];
    assert(x == y);
}

/// What stands for an output tells how many lines it has, how many are cut and how
/// many bytes it has, as far as four bytes hold them.
pub proof fn law_the_print_tells_the_size_of_an_output(
    a: Seq<Seq<char>>,
    b: Seq<Seq<char>>,
    cut: usize,
    cut_too: usize,
)
    requires
        crate::fingerprint::detail_bytes(
            Some(DetailView::Output { lines: a, truncated_by: cut }),
        ) == crate::fingerprint::detail_bytes(
            Some(DetailView::Output { lines: b, truncated_by: cut_too }),
        ),
        a.len() <= u32::MAX && b.len() <= u32::MAX,
        cut <= u32::MAX && cut_too <= u32::MAX,
        crate::fingerprint::total_bytes(a) <= u32::MAX,
        crate::fingerprint::total_bytes(b) <= u32::MAX,
    ensures
        a.len() == b.len(),
        cut == cut_too,
        crate::fingerprint::total_bytes(a) == crate::fingerprint::total_bytes(b),
{
    vstd::bytes::lemma_auto_spec_u32_to_from_le_bytes();
    let x = crate::fingerprint::detail_bytes(
        Some(DetailView::Output { lines: a, truncated_by: cut }),
    );
    let y = crate::fingerprint::detail_bytes(
        Some(DetailView::Output { lines: b, truncated_by: cut_too }),
    );
    assert(x.subrange(1, 5) =~= crate::fingerprint::le32(a.len() as u32));
    assert(y.subrange(1, 5) =~= crate::fingerprint::le32(b.len() as u32));
    assert(x.subrange(5, 9) =~= crate::fingerprint::le32(cut as u32));
    assert(y.subrange(5, 9) =~= crate::fingerprint::le32(cut_too as u32));
    assert(x.subrange(9, 13) =~= crate::fingerprint::le32(
        crate::fingerprint::total_bytes(a) as u32,
    ));
    assert(y.subrange(9, 13) =~= crate::fingerprint::le32(
        crate::fingerprint::total_bytes(b) as u32,
    ));
}

/// The bytes of lines add up: a line more counts its own bytes.
pub proof fn law_every_line_counts(lines: Seq<Seq<char>>, line: Seq<char>)
    requires
        crate::fingerprint::bytes_of(line).len() <= usize::MAX,
    ensures
        crate::fingerprint::total_bytes(Seq::empty()) == 0,
        crate::fingerprint::total_bytes(lines.push(line)) == crate::fingerprint::total_bytes(lines)
            + crate::fingerprint::bytes_of(line).len(),
{
    assert(lines.push(line).drop_last() =~= lines);
}

/// What stands for a diff tells its path, what it adds and deletes and how many
/// hunks it has.
pub proof fn law_the_print_tells_the_diff(
    a: crate::diff::FileDiffView,
    b: crate::diff::FileDiffView,
    old_a: Option<Seq<char>>,
    old_b: Option<Seq<char>>,
    new_a: Option<Seq<char>>,
    new_b: Option<Seq<char>>,
)
    requires
        crate::fingerprint::detail_bytes(
            Some(DetailView::Diff { file: a, old_text: old_a, new_text: new_a }),
        ) == crate::fingerprint::detail_bytes(
            Some(DetailView::Diff { file: b, old_text: old_b, new_text: new_b }),
        ),
        a.hunks.len() <= u32::MAX && b.hunks.len() <= u32::MAX,
    ensures
        crate::fingerprint::bytes_of(a.path) == crate::fingerprint::bytes_of(b.path),
        a.additions == b.additions,
        a.deletions == b.deletions,
        a.hunks.len() == b.hunks.len(),
{
    vstd::bytes::lemma_auto_spec_u32_to_from_le_bytes();
    let x = crate::fingerprint::detail_bytes(
        Some(DetailView::Diff { file: a, old_text: old_a, new_text: new_a }),
    );
    let y = crate::fingerprint::detail_bytes(
        Some(DetailView::Diff { file: b, old_text: old_b, new_text: new_b }),
    );
    let p = crate::fingerprint::bytes_of(a.path);
    let q = crate::fingerprint::bytes_of(b.path);
    assert(x.len() == 1 + p.len() + 12 && y.len() == 1 + q.len() + 12);
    let n = p.len() as int;
    assert(x.subrange(1, 1 + n) =~= p);
    assert(y.subrange(1, 1 + n) =~= q);
    assert(x.subrange(1 + n, 5 + n) =~= crate::fingerprint::le32(a.additions));
    assert(y.subrange(1 + n, 5 + n) =~= crate::fingerprint::le32(b.additions));
    assert(x.subrange(5 + n, 9 + n) =~= crate::fingerprint::le32(a.deletions));
    assert(y.subrange(5 + n, 9 + n) =~= crate::fingerprint::le32(b.deletions));
    assert(x.subrange(9 + n, 13 + n) =~= crate::fingerprint::le32(a.hunks.len() as u32));
    assert(y.subrange(9 + n, 13 + n) =~= crate::fingerprint::le32(b.hunks.len() as u32));
}

/// What stands for the last of several stats tells its path and its counts, where
/// what comes before is the same.
pub proof fn law_the_print_tells_the_stats(before: Seq<StatView>, a: StatView, b: StatView)
    requires
        crate::fingerprint::detail_bytes(Some(DetailView::Stats { stats: before.push(a) }))
            == crate::fingerprint::detail_bytes(
            Some(DetailView::Stats { stats: before.push(b) }),
        ),
    ensures
        crate::fingerprint::bytes_of(a.path) == crate::fingerprint::bytes_of(b.path),
        a.additions == b.additions,
        a.deletions == b.deletions,
{
    vstd::bytes::lemma_auto_spec_u32_to_from_le_bytes();
    assert(before.push(a).drop_last() =~= before);
    assert(before.push(b).drop_last() =~= before);
    let x = crate::fingerprint::detail_bytes(Some(DetailView::Stats { stats: before.push(a) }));
    let y = crate::fingerprint::detail_bytes(Some(DetailView::Stats { stats: before.push(b) }));
    let h = 1 + crate::fingerprint::stats_bytes(before).len() as int;
    let p = crate::fingerprint::bytes_of(a.path);
    let q = crate::fingerprint::bytes_of(b.path);
    assert(x.len() == h + p.len() + 8 && y.len() == h + q.len() + 8);
    let n = h + p.len();
    assert(x.subrange(h, n) =~= p);
    assert(y.subrange(h, n) =~= q);
    assert(x.subrange(n, n + 4) =~= crate::fingerprint::le32(a.additions));
    assert(y.subrange(n, n + 4) =~= crate::fingerprint::le32(b.additions));
    assert(x.subrange(n + 4, n + 8) =~= crate::fingerprint::le32(a.deletions));
    assert(y.subrange(n + 4, n + 8) =~= crate::fingerprint::le32(b.deletions));
}

/// What stands for the last part of an entry tells its id and its size, where its
/// kind and marks and what comes before are the same: a part that grows has its
/// rows built anew.
pub proof fn law_the_print_tells_the_size_of_a_part(
    before: Seq<MessagePart>,
    part: MessagePart,
    lens: Seq<u64>,
    a: u64,
    b: u64,
)
    requires
        lens.len() == before.len(),
        a != b,
    ensures
        crate::fingerprint::parts_bytes(before.push(part), lens.push(a))
            != crate::fingerprint::parts_bytes(before.push(part), lens.push(b)),
{
    vstd::bytes::lemma_auto_spec_u64_to_from_le_bytes();
    let all = before.push(part);
    assert(all.drop_last() =~= before);
    lemma_parts_lens(before, lens, lens.push(a));
    lemma_parts_lens(before, lens, lens.push(b));
    let x = crate::fingerprint::parts_bytes(all, lens.push(a));
    let y = crate::fingerprint::parts_bytes(all, lens.push(b));
    let h = crate::fingerprint::parts_bytes(before, lens).len() as int
        + crate::fingerprint::bytes_of(crate::message::part_id(part)).len();
    assert(x.subrange(h, h + 8) =~= crate::fingerprint::le64(a));
    assert(y.subrange(h, h + 8) =~= crate::fingerprint::le64(b));
}

proof fn lemma_parts_lens(parts: Seq<MessagePart>, a: Seq<u64>, b: Seq<u64>)
    requires
        parts.len() <= a.len(),
        parts.len() <= b.len(),
        forall|i: int| 0 <= i < parts.len() ==> a[i] == b[i],
    ensures
        crate::fingerprint::parts_bytes(parts, a) == crate::fingerprint::parts_bytes(parts, b),
    decreases parts.len(),
{
    if parts.len() > 0 {
        lemma_parts_lens(parts.drop_last(), a, b);
    }
}

/// An entry of another id, by one byte, has another fingerprint.
pub proof fn law_another_entry_has_another_print(
    before: SessionMessageEntry,
    after: SessionMessageEntry,
    pending: bool,
    lens: Seq<u64>,
    i: int,
)
    requires
        texts_apart(before.id@, after.id@, i),
        before.parts@ == after.parts@,
        before.status == after.status,
    ensures
        crate::fingerprint::entry_print(before, pending, lens) != crate::fingerprint::entry_print(
            after,
            pending,
            lens,
        ),
{
    let a = crate::fingerprint::bytes_of(before.id@);
    let b = crate::fingerprint::bytes_of(after.id@);
    let none = Seq::<u8>::empty();
    let rest = seq![
        crate::fingerprint::entry_status_no(before.status),
        crate::fingerprint::bit(pending),
    ] + crate::fingerprint::parts_bytes(before.parts@, lens);
    crate::fingerprint::lemma_apart_inside(none, a, b, rest, i);
    let x = crate::fingerprint::entry_head(before, pending) + crate::fingerprint::parts_bytes(
        before.parts@,
        lens,
    );
    let y = crate::fingerprint::entry_head(after, pending) + crate::fingerprint::parts_bytes(
        after.parts@,
        lens,
    );
    assert(x =~= none + a + rest);
    assert(y =~= none + b + rest);
    crate::hash::law_one_byte_changes_the_hash(x, y, i);
}

} // verus!
