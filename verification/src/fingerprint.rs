//! Fingerprints: hashes that change with what a row shows.
use vstd::prelude::*;

use crate::markdown::InlineRun;
use crate::message::{MessagePart, MessageStatus, SessionMessageEntry};
use crate::tools::{SubagentStatus, ToolDetail, ToolDiffStat, ToolItem};

verus! {

/// One where `b` holds.
pub open spec fn bit(b: bool) -> u8 {
    if b {
        1
    } else {
        0
    }
}

/// The bytes of a text.
pub open spec fn bytes_of(s: Seq<char>) -> Seq<u8> {
    vstd::utf8::encode_utf8(s)
}

/// `n` in four bytes, the low one first.
pub open spec fn le32(n: u32) -> Seq<u8> {
    vstd::bytes::spec_u32_to_le_bytes(n)
}

/// `n` in eight bytes, the low one first.
pub open spec fn le64(n: u64) -> Seq<u8> {
    vstd::bytes::spec_u64_to_le_bytes(n)
}

/// The bytes of all texts together, in number.
pub open spec fn total_bytes(lines: Seq<Seq<char>>) -> nat
    decreases lines.len(),
{
    if lines.len() == 0 {
        0
    } else {
        total_bytes(lines.drop_last()) + (bytes_of(lines.last()).len() as usize) as nat
    }
}

/// The bytes of all texts on end.
pub open spec fn joined_bytes(lines: Seq<Seq<char>>) -> Seq<u8>
    decreases lines.len(),
{
    if lines.len() == 0 {
        Seq::empty()
    } else {
        joined_bytes(lines.drop_last()) + bytes_of(lines.last())
    }
}

/// A style's marks as bits.
pub open spec fn style_bits(style: crate::markdown::StyleView) -> u8 {
    (bit(style.bold) + 2 * bit(style.italic) + 4 * bit(style.code) + 8 * bit(style.strikethrough)
        + 16 * bit(style.link is Some)) as u8
}

/// The bytes of a line of runs: each run's text and marks.
pub open spec fn runs_bytes(runs: Seq<crate::markdown::RunView>) -> Seq<u8>
    decreases runs.len(),
{
    if runs.len() == 0 {
        Seq::empty()
    } else {
        (runs_bytes(runs.drop_last()) + bytes_of(runs.last().text)).push(
            style_bits(runs.last().style),
        )
    }
}

/// The bytes of styled lines, a line feed behind each.
pub open spec fn lines_bytes(lines: Seq<Seq<crate::markdown::RunView>>) -> Seq<u8>
    decreases lines.len(),
{
    if lines.len() == 0 {
        Seq::empty()
    } else {
        (lines_bytes(lines.drop_last()) + runs_bytes(lines.last())).push(10)
    }
}

/// The bytes of stats.
pub open spec fn stats_bytes(stats: Seq<crate::tools::StatView>) -> Seq<u8>
    decreases stats.len(),
{
    if stats.len() == 0 {
        Seq::empty()
    } else {
        stats_bytes(stats.drop_last()) + bytes_of(stats.last().path) + le32(stats.last().additions)
            + le32(stats.last().deletions)
    }
}

/// The bytes that stand for a detail: its kind; of an output its numbers of lines
/// and of bytes, of a diff its path and counts, and all of a thought or of stats.
pub open spec fn detail_bytes(detail: Option<crate::tools::DetailView>) -> Seq<u8> {
    match detail {
        None => seq![0],
        Some(crate::tools::DetailView::Output { lines, truncated_by }) => seq![1u8] + le32(
            lines.len() as u32,
        ) + le32(truncated_by as u32) + le32(total_bytes(lines) as u32),
        Some(crate::tools::DetailView::Thought { lines, truncated_by }) => seq![4u8] + le32(
            lines.len() as u32,
        ) + le32(truncated_by as u32) + lines_bytes(lines),
        Some(crate::tools::DetailView::Diff { file, .. }) => seq![2u8] + bytes_of(file.path)
            + le32(file.additions) + le32(file.deletions) + le32(file.hunks.len() as u32),
        Some(crate::tools::DetailView::Stats { stats }) => seq![3u8] + stats_bytes(stats),
    }
}

/// The bytes that stand for an invocation block.
pub open spec fn invocation_bytes(invocation: Option<crate::tools::DetailView>) -> Seq<u8> {
    match invocation {
        Some(crate::tools::DetailView::Output { lines, truncated_by }) => joined_bytes(lines)
            + le32(truncated_by as u32),
        _ => Seq::empty(),
    }
}

/// A subagent's status as a number, zero where there is none.
pub open spec fn status_no(status: Option<SubagentStatus>) -> u8 {
    match status {
        None => 0,
        Some(SubagentStatus::Running) => 1,
        Some(SubagentStatus::Done) => 2,
        Some(SubagentStatus::Failed) => 3,
    }
}

/// The bytes of an optional text.
pub open spec fn opt_bytes(s: Option<Seq<char>>) -> Seq<u8> {
    match s {
        Some(t) => bytes_of(t),
        None => Seq::empty(),
    }
}

/// The bytes that stand for a chip's header.
pub open spec fn head_bytes(t: crate::tools::ItemView) -> Seq<u8> {
    bytes_of(t.facts.label) + le32((bytes_of(t.facts.detail).len() as usize) as u32) + seq![
        (bit(t.is_error) + 2 * bit(t.resolved)) as u8,
    ]
}

/// The bytes that stand for a chip's references and its subagent.
pub open spec fn tail_bytes(t: crate::tools::ItemView) -> Seq<u8> {
    seq![
        (bit(t.output_ref is Some) + 2 * bit(t.diff_ref is Some)) as u8,
        (bit(t.subagent_ref is Some) + 2 * status_no(t.subagent_status)) as u8,
    ] + opt_bytes(t.subagent_tail)
}

/// The bytes that stand for a chip.
pub open spec fn item_bytes(t: crate::tools::ItemView) -> Seq<u8> {
    head_bytes(t) + detail_bytes(t.detail) + invocation_bytes(t.invocation) + tail_bytes(t)
}

/// The bytes that stand for a group's chips.
pub open spec fn items_bytes(tools: Seq<crate::tools::ItemView>) -> Seq<u8>
    decreases tools.len(),
{
    if tools.len() == 0 {
        Seq::empty()
    } else {
        items_bytes(tools.drop_last()) + item_bytes(tools.last())
    }
}

/// The fingerprint of a tool group.
pub open spec fn group_print(tools: Seq<crate::tools::ItemView>, auto_open: bool) -> u64 {
    crate::hash::fnv(items_bytes(tools).push(bit(auto_open)))
}

// ---------------------------------------------------------------------------
// Executable fingerprints
// ---------------------------------------------------------------------------

/// One where `b` holds.
fn bit_of(b: bool) -> (r: u8)
    ensures
        r == bit(b),
{
    if b {
        1
    } else {
        0
    }
}

/// Appends the bytes of a text.
fn push_bytes(acc: &mut Vec<u8>, s: &str)
    ensures
        final(acc)@ == old(acc)@ + bytes_of(s@),
{
    acc.extend_from_slice(s.as_bytes());
}

/// Appends four bytes.
fn push_le32(acc: &mut Vec<u8>, n: u32)
    ensures
        final(acc)@ == old(acc)@ + le32(n),
{
    let mut four = vstd::bytes::u32_to_le_bytes(n);
    acc.append(&mut four);
}

/// Appends eight bytes.
fn push_le64(acc: &mut Vec<u8>, n: u64)
    ensures
        final(acc)@ == old(acc)@ + le64(n),
{
    let mut eight = vstd::bytes::u64_to_le_bytes(n);
    acc.append(&mut eight);
}

/// The bytes of all lines, in number.
fn count_bytes(lines: &Vec<String>) -> (r: u128)
    ensures
        r == total_bytes(crate::text::texts(lines@)),
{
    let ghost views = crate::text::texts(lines@);
    let mut sum: u128 = 0;
    let mut i: usize = 0;
    while i < lines.len()
        invariant
            i <= lines@.len(),
            views == crate::text::texts(lines@),
            sum == total_bytes(views.take(i as int)),
            sum <= i * 0xffff_ffff_ffff_ffff,
        decreases lines.len() - i,
    {
        assert(views.take(i + 1).drop_last() =~= views.take(i as int));
        assert(views.take(i + 1).last() == lines@[i as int]@);
        let n: usize = lines[i].as_str().len();
        assert(i * 0xffff_ffff_ffff_ffff <= 0xffff_ffff_ffff_fffe * 0xffff_ffff_ffff_ffff)
            by (nonlinear_arith)
            requires
                i <= 0xffff_ffff_ffff_fffe,
        ;
        sum = sum + n as u128;
        i = i + 1;
    }
    assert(views.take(i as int) =~= views);
    sum
}

/// Appends the bytes of all lines.
fn push_lines(acc: &mut Vec<u8>, lines: &Vec<String>)
    ensures
        final(acc)@ == old(acc)@ + joined_bytes(crate::text::texts(lines@)),
{
    let ghost views = crate::text::texts(lines@);
    let ghost base = acc@;
    let mut i: usize = 0;
    assert(base + joined_bytes(views.take(0)) =~= base);
    while i < lines.len()
        invariant
            i <= lines@.len(),
            views == crate::text::texts(lines@),
            acc@ == base + joined_bytes(views.take(i as int)),
        decreases lines.len() - i,
    {
        assert(views.take(i + 1).drop_last() =~= views.take(i as int));
        assert(views.take(i + 1).last() == lines@[i as int]@);
        push_bytes(acc, lines[i].as_str());
        assert(acc@ =~= base + joined_bytes(views.take(i + 1)));
        i = i + 1;
    }
    assert(views.take(i as int) =~= views);
}

/// Appends the bytes of a line of runs.
fn push_runs(acc: &mut Vec<u8>, runs: &Vec<InlineRun>)
    ensures
        final(acc)@ == old(acc)@ + runs_bytes(crate::markdown::run_views(runs@)),
{
    let ghost views = crate::markdown::run_views(runs@);
    let ghost base = acc@;
    let mut i: usize = 0;
    assert(base + runs_bytes(views.take(0)) =~= base);
    while i < runs.len()
        invariant
            i <= runs@.len(),
            views == crate::markdown::run_views(runs@),
            acc@ == base + runs_bytes(views.take(i as int)),
        decreases runs.len() - i,
    {
        assert(views.take(i + 1).drop_last() =~= views.take(i as int));
        assert(views.take(i + 1).last() == runs@[i as int]@);
        let style = &runs[i].style;
        push_bytes(acc, runs[i].text.as_str());
        acc.push(
            bit_of(style.bold) + 2 * bit_of(style.italic) + 4 * bit_of(style.code) + 8 * bit_of(
                style.strikethrough,
            ) + 16 * bit_of(style.link.is_some()),
        );
        assert(acc@ =~= base + runs_bytes(views.take(i + 1)));
        i = i + 1;
    }
    assert(views.take(i as int) =~= views);
}

/// Appends the bytes of styled lines.
fn push_styled_lines(acc: &mut Vec<u8>, lines: &Vec<Vec<InlineRun>>)
    ensures
        final(acc)@ == old(acc)@ + lines_bytes(crate::markdown::line_views(lines@)),
{
    let ghost views = crate::markdown::line_views(lines@);
    let ghost base = acc@;
    let mut i: usize = 0;
    assert(base + lines_bytes(views.take(0)) =~= base);
    while i < lines.len()
        invariant
            i <= lines@.len(),
            views == crate::markdown::line_views(lines@),
            acc@ == base + lines_bytes(views.take(i as int)),
        decreases lines.len() - i,
    {
        assert(views.take(i + 1).drop_last() =~= views.take(i as int));
        assert(views.take(i + 1).last() == crate::markdown::run_views(lines@[i as int]@));
        push_runs(acc, &lines[i]);
        acc.push(10);
        assert(acc@ =~= base + lines_bytes(views.take(i + 1)));
        i = i + 1;
    }
    assert(views.take(i as int) =~= views);
}

/// Appends the bytes of stats.
fn push_stats(acc: &mut Vec<u8>, stats: &Vec<ToolDiffStat>)
    ensures
        final(acc)@ == old(acc)@ + stats_bytes(crate::tools::stat_views(stats@)),
{
    let ghost views = crate::tools::stat_views(stats@);
    let ghost base = acc@;
    let mut i: usize = 0;
    assert(base + stats_bytes(views.take(0)) =~= base);
    while i < stats.len()
        invariant
            i <= stats@.len(),
            views == crate::tools::stat_views(stats@),
            acc@ == base + stats_bytes(views.take(i as int)),
        decreases stats.len() - i,
    {
        assert(views.take(i + 1).drop_last() =~= views.take(i as int));
        assert(views.take(i + 1).last() == stats@[i as int]@);
        push_bytes(acc, stats[i].path.as_str());
        push_le32(acc, stats[i].additions);
        push_le32(acc, stats[i].deletions);
        assert(acc@ =~= base + stats_bytes(views.take(i + 1)));
        i = i + 1;
    }
    assert(views.take(i as int) =~= views);
}

/// Appends the bytes of a detail.
fn push_detail(acc: &mut Vec<u8>, detail: &ToolDetail)
    ensures
        final(acc)@ == old(acc)@ + detail_bytes(Some(detail@)),
{
    let ghost base = acc@;
    match detail {
        ToolDetail::Output { lines, truncated_by } => {
            acc.push(1);
            push_le32(acc, lines.len() as u32);
            push_le32(acc, *truncated_by as u32);
            push_le32(acc, count_bytes(lines) as u32);
            assert(crate::text::texts(lines@).len() == lines@.len());
        },
        ToolDetail::Thought { lines, truncated_by } => {
            acc.push(4);
            push_le32(acc, lines.len() as u32);
            push_le32(acc, *truncated_by as u32);
            push_styled_lines(acc, lines);
            assert(crate::markdown::line_views(lines@).len() == lines@.len());
        },
        ToolDetail::Diff { file, .. } => {
            acc.push(2);
            push_bytes(acc, file.path.as_str());
            push_le32(acc, file.additions);
            push_le32(acc, file.deletions);
            push_le32(acc, file.hunks.len() as u32);
            assert(file@.hunks.len() == file.hunks@.len());
        },
        ToolDetail::Stats { stats } => {
            acc.push(3);
            push_stats(acc, stats);
        },
    }
    assert(acc@ =~= base + detail_bytes(Some(detail@)));
}

/// A subagent's status as a number.
fn number_of(status: Option<SubagentStatus>) -> (r: u8)
    ensures
        r == status_no(status),
        r <= 3,
{
    match status {
        None => 0,
        Some(SubagentStatus::Running) => 1,
        Some(SubagentStatus::Done) => 2,
        Some(SubagentStatus::Failed) => 3,
    }
}

/// Appends the bytes of a chip's header.
fn push_head(acc: &mut Vec<u8>, t: &ToolItem)
    ensures
        final(acc)@ == old(acc)@ + head_bytes(t@),
{
    let ghost base = acc@;
    push_bytes(acc, t.facts.label.as_str());
    push_le32(acc, t.facts.detail.as_str().len() as u32);
    acc.push(bit_of(t.is_error) + 2 * bit_of(t.resolved));
    assert(acc@ =~= base + head_bytes(t@));
}

/// Appends the bytes of a chip's invocation block.
fn push_invocation(acc: &mut Vec<u8>, t: &ToolItem)
    ensures
        final(acc)@ == old(acc)@ + invocation_bytes(t@.invocation),
{
    let ghost base = acc@;
    if let Some(invocation) = &t.invocation {
        if let ToolDetail::Output { lines, truncated_by } = &**invocation {
            push_lines(acc, lines);
            push_le32(acc, *truncated_by as u32);
        }
    }
    assert(acc@ =~= base + invocation_bytes(t@.invocation));
}

/// Appends the bytes of a chip's references and its subagent.
fn push_tail(acc: &mut Vec<u8>, t: &ToolItem)
    ensures
        final(acc)@ == old(acc)@ + tail_bytes(t@),
{
    let ghost base = acc@;
    acc.push(bit_of(t.output_ref.is_some()) + 2 * bit_of(t.diff_ref.is_some()));
    acc.push(bit_of(t.subagent_ref.is_some()) + 2 * number_of(t.subagent_status));
    if let Some(tail) = &t.subagent_tail {
        push_bytes(acc, tail.as_str());
    }
    assert(acc@ =~= base + tail_bytes(t@));
}

/// Appends the bytes of a chip.
fn push_item(acc: &mut Vec<u8>, t: &ToolItem)
    ensures
        final(acc)@ == old(acc)@ + item_bytes(t@),
{
    let ghost base = acc@;
    push_head(acc, t);
    match &t.detail {
        None => acc.push(0),
        Some(detail) => push_detail(acc, detail),
    }
    assert(acc@ =~= base + head_bytes(t@) + detail_bytes(t@.detail));
    push_invocation(acc, t);
    push_tail(acc, t);
    assert(acc@ =~= base + item_bytes(t@));
}

/// The fingerprint of a tool group. A chip's flags, references or subagent that
/// change alone always change it, and so does the group's opening. Besides those
/// it is made from each chip's label, the length of its line, its invocation, its
/// subagent's last words, and of its detail what [`detail_bytes`] takes in: an
/// output of the same size, or a diff of the same counts, leaves it as it is.
pub fn tool_fingerprint(tools: &Vec<ToolItem>, auto_open: bool) -> (r: u64)
    ensures
        r == group_print(crate::tools::item_views(tools@), auto_open),
{
    let ghost views = crate::tools::item_views(tools@);
    let mut acc: Vec<u8> = Vec::new();
    let mut i: usize = 0;
    assert(acc@ =~= items_bytes(views.take(0)));
    while i < tools.len()
        invariant
            i <= tools@.len(),
            views == crate::tools::item_views(tools@),
            acc@ == items_bytes(views.take(i as int)),
        decreases tools.len() - i,
    {
        assert(views.take(i + 1).drop_last() =~= views.take(i as int));
        assert(views.take(i + 1).last() == tools@[i as int]@);
        push_item(&mut acc, &tools[i]);
        i = i + 1;
    }
    assert(views.take(i as int) =~= views);
    acc.push(bit_of(auto_open));
    crate::hash::fnv1a(acc.as_slice())
}

// ---------------------------------------------------------------------------
// What a group's fingerprint tells apart
// ---------------------------------------------------------------------------

/// Whether two chips differ in their flags and in nothing else.
pub open spec fn flags_differ(t: crate::tools::ItemView, u: crate::tools::ItemView) -> bool {
    &&& u == crate::tools::ItemView { is_error: u.is_error, resolved: u.resolved, ..t }
    &&& t.is_error != u.is_error || t.resolved != u.resolved
}

/// Whether two chips differ in which references they have and, but for the
/// references themselves and their size, in nothing else.
pub open spec fn refs_differ(t: crate::tools::ItemView, u: crate::tools::ItemView) -> bool {
    &&& u == crate::tools::ItemView {
        output_ref: u.output_ref,
        output_bytes: u.output_bytes,
        diff_ref: u.diff_ref,
        ..t
    }
    &&& (t.output_ref is Some) != (u.output_ref is Some) || (t.diff_ref is Some) != (u.diff_ref
        is Some)
}

/// Whether two chips differ in their subagent's status, or in whether they link to
/// one, and in nothing else.
pub open spec fn subagents_differ(t: crate::tools::ItemView, u: crate::tools::ItemView) -> bool {
    &&& u == crate::tools::ItemView {
        subagent_ref: u.subagent_ref,
        subagent_status: u.subagent_status,
        ..t
    }
    &&& (t.subagent_ref is Some) != (u.subagent_ref is Some) || t.subagent_status
        != u.subagent_status
}

/// A byte that differs alone stays so between equal bytes.
pub proof fn lemma_apart_inside(p: Seq<u8>, a: Seq<u8>, b: Seq<u8>, s: Seq<u8>, i: int)
    requires
        crate::hash::one_byte_apart(a, b, i),
    ensures
        crate::hash::one_byte_apart(p + a + s, p + b + s, p.len() + i),
{
    let x = p + a + s;
    let y = p + b + s;
    assert(x[p.len() + i] == a[i]);
    assert(y[p.len() + i] == b[i]);
    assert forall|j: int| 0 <= j < x.len() && j != p.len() + i implies x[j] == y[j] by {
        if p.len() <= j < p.len() + a.len() {
            assert(x[j] == a[j - p.len()]);
            assert(y[j] == b[j - p.len()]);
        }
    }
}

/// The bytes of a group are those before a chip, its own, and those behind it.
pub proof fn lemma_items_split(s: Seq<crate::tools::ItemView>, k: int)
    requires
        0 <= k < s.len(),
    ensures
        items_bytes(s) == items_bytes(s.take(k)) + item_bytes(s[k]) + items_bytes(s.skip(k + 1)),
    decreases s.len(),
{
    if k == s.len() - 1 {
        assert(s.take(k) =~= s.drop_last());
        assert(s.skip(k + 1) =~= Seq::empty());
        assert(items_bytes(s.skip(k + 1)) =~= Seq::empty());
        assert(items_bytes(s) =~= items_bytes(s.take(k)) + item_bytes(s[k]) + items_bytes(
            s.skip(k + 1),
        ));
    } else {
        let init = s.drop_last();
        lemma_items_split(init, k);
        assert(init.take(k) =~= s.take(k));
        assert(s.skip(k + 1).drop_last() =~= init.skip(k + 1));
        assert(s.skip(k + 1).last() == s.last());
        assert(items_bytes(s) =~= items_bytes(s.take(k)) + item_bytes(s[k]) + items_bytes(
            s.skip(k + 1),
        ));
    }
}

/// The bytes of two chips that differ in one of their marks differ in one byte.
proof fn lemma_items_apart(t: crate::tools::ItemView, u: crate::tools::ItemView) -> (i: int)
    requires
        flags_differ(t, u) || refs_differ(t, u) || subagents_differ(t, u),
    ensures
        crate::hash::one_byte_apart(item_bytes(t), item_bytes(u), i),
{
    let label = bytes_of(t.facts.label) + le32((bytes_of(t.facts.detail).len() as usize) as u32);
    let middle = detail_bytes(t.detail) + invocation_bytes(t.invocation);
    if flags_differ(t, u) {
        let a = seq![(bit(t.is_error) + 2 * bit(t.resolved)) as u8];
        let b = seq![(bit(u.is_error) + 2 * bit(u.resolved)) as u8];
        let rest = middle + tail_bytes(t);
        assert(crate::hash::one_byte_apart(a, b, 0));
        lemma_apart_inside(label, a, b, rest, 0);
        assert(tail_bytes(t) == tail_bytes(u));
        assert(item_bytes(t) =~= label + a + rest);
        assert(item_bytes(u) =~= label + b + rest);
        label.len() as int
    } else {
        let before = head_bytes(t) + middle;
        let words = opt_bytes(t.subagent_tail);
        let refs = |v: crate::tools::ItemView|
            (bit(v.output_ref is Some) + 2 * bit(v.diff_ref is Some)) as u8;
        let agent = |v: crate::tools::ItemView|
            (bit(v.subagent_ref is Some) + 2 * status_no(v.subagent_status)) as u8;
        let a = seq![refs(t), agent(t)];
        let b = seq![refs(u), agent(u)];
        let at: int = if refs_differ(t, u) {
            0
        } else {
            1
        };
        assert(crate::hash::one_byte_apart(a, b, at));
        lemma_apart_inside(before, a, b, words, at);
        assert(head_bytes(t) == head_bytes(u));
        assert(item_bytes(t) =~= before + a + words);
        assert(item_bytes(u) =~= before + b + words);
        before.len() + at
    }
}

/// A chip that fails or comes to its end, that gets an output or a diff to fetch,
/// or whose subagent moves on, with nothing else of the group changed, gives the
/// group another fingerprint: its row is shown anew.
pub proof fn law_chip_marks_change_the_print(
    tools: Seq<crate::tools::ItemView>,
    k: int,
    chip: crate::tools::ItemView,
    auto_open: bool,
)
    requires
        0 <= k < tools.len(),
        flags_differ(tools[k], chip) || refs_differ(tools[k], chip) || subagents_differ(
            tools[k],
            chip,
        ),
    ensures
        group_print(tools, auto_open) != group_print(tools.update(k, chip), auto_open),
{
    let others = tools.update(k, chip);
    let i = lemma_items_apart(tools[k], chip);
    lemma_items_split(tools, k);
    lemma_items_split(others, k);
    assert(others.take(k) =~= tools.take(k));
    assert(others.skip(k + 1) =~= tools.skip(k + 1));
    let p = items_bytes(tools.take(k));
    let s = items_bytes(tools.skip(k + 1)).push(bit(auto_open));
    lemma_apart_inside(p, item_bytes(tools[k]), item_bytes(chip), s, i);
    assert(items_bytes(tools).push(bit(auto_open)) =~= p + item_bytes(tools[k]) + s);
    assert(items_bytes(others).push(bit(auto_open)) =~= p + item_bytes(chip) + s);
    crate::hash::law_one_byte_changes_the_hash(
        items_bytes(tools).push(bit(auto_open)),
        items_bytes(others).push(bit(auto_open)),
        p.len() + i,
    );
}

/// A group that opens by itself has another fingerprint than the same group that
/// does not.
pub proof fn law_opening_changes_the_print(tools: Seq<crate::tools::ItemView>)
    ensures
        group_print(tools, true) != group_print(tools, false),
{
    let all = items_bytes(tools);
    assert(crate::hash::one_byte_apart(all.push(1), all.push(0), all.len() as int));
    crate::hash::law_one_byte_changes_the_hash(all.push(1), all.push(0), all.len() as int);
}

// ---------------------------------------------------------------------------
// Entries
// ---------------------------------------------------------------------------

/// An entry's status as a number, zero where it has none.
pub open spec fn entry_status_no(status: Option<MessageStatus>) -> u8 {
    match status {
        None => 0,
        Some(MessageStatus::Streaming) => 1,
        Some(MessageStatus::Complete) => 2,
        Some(MessageStatus::Aborted) => 3,
    }
}

/// The bytes that stand for a part of `len` bytes: besides its size, what can
/// change while the size stays.
pub open spec fn part_bytes(part: MessagePart, len: u64) -> Seq<u8> {
    bytes_of(crate::message::part_id(part)) + le64(len) + match part {
        MessagePart::Tool {
            is_error,
            resolved,
            subagent_ref,
            subagent_status,
            subagent_tail,
            ..
        } => seq![
            (bit(is_error) + 2 * bit(resolved)) as u8,
            (bit(subagent_ref is Some) + 2 * status_no(subagent_status)) as u8,
        ] + opt_bytes(crate::markdown::opt_text(subagent_tail)),
        MessagePart::Input { resolved, .. } => seq![(16 + bit(resolved)) as u8],
        _ => Seq::empty(),
    }
}

/// The bytes that stand for parts.
pub open spec fn parts_bytes(parts: Seq<MessagePart>, lens: Seq<u64>) -> Seq<u8>
    decreases parts.len(),
{
    if parts.len() == 0 {
        Seq::empty()
    } else {
        parts_bytes(parts.drop_last(), lens) + part_bytes(parts.last(), lens[parts.len() - 1])
    }
}

/// The bytes of an entry before its parts.
pub open spec fn entry_head(entry: SessionMessageEntry, pending: bool) -> Seq<u8> {
    bytes_of(entry.id@) + seq![entry_status_no(entry.status), bit(pending)]
}

/// The fingerprint of an entry.
pub open spec fn entry_print(entry: SessionMessageEntry, pending: bool, lens: Seq<u64>) -> u64 {
    crate::hash::fnv(entry_head(entry, pending) + parts_bytes(entry.parts@, lens))
}

/// Appends the bytes of a part.
fn push_part(acc: &mut Vec<u8>, part: &MessagePart, len: u64)
    ensures
        final(acc)@ == old(acc)@ + part_bytes(*part, len),
{
    let ghost base = acc@;
    push_bytes(acc, part.id().as_str());
    push_le64(acc, len);
    match part {
        MessagePart::Tool {
            is_error,
            resolved,
            subagent_ref,
            subagent_status,
            subagent_tail,
            ..
        } => {
            acc.push(bit_of(*is_error) + 2 * bit_of(*resolved));
            acc.push(bit_of(subagent_ref.is_some()) + 2 * number_of(*subagent_status));
            if let Some(tail) = subagent_tail {
                push_bytes(acc, tail.as_str());
            }
        },
        MessagePart::Input { resolved, .. } => {
            acc.push(16 + bit_of(*resolved));
        },
        _ => {},
    }
    assert(acc@ =~= base + part_bytes(*part, len));
}

/// The fingerprint of an entry, given the size of each of its parts in bytes:
/// rows are built anew only when it changes.
pub fn entry_fingerprint(entry: &SessionMessageEntry, pending: bool, lens: &Vec<u64>) -> (r: u64)
    requires
        lens@.len() == entry.parts@.len(),
    ensures
        r == entry_print(*entry, pending, lens@),
{
    let mut acc: Vec<u8> = Vec::new();
    push_bytes(&mut acc, entry.id.as_str());
    let status: u8 = match entry.status {
        None => 0,
        Some(MessageStatus::Streaming) => 1,
        Some(MessageStatus::Complete) => 2,
        Some(MessageStatus::Aborted) => 3,
    };
    acc.push(status);
    acc.push(bit_of(pending));
    let ghost head = entry_head(*entry, pending);
    let ghost parts = entry.parts@;
    assert(acc@ =~= head + parts_bytes(parts.take(0), lens@));
    let mut i: usize = 0;
    while i < entry.parts.len()
        invariant
            i <= parts.len(),
            parts == entry.parts@,
            lens@.len() == parts.len(),
            acc@ == head + parts_bytes(parts.take(i as int), lens@),
        decreases entry.parts.len() - i,
    {
        assert(parts.take(i + 1).drop_last() =~= parts.take(i as int));
        assert(parts.take(i + 1).last() == parts[i as int]);
        push_part(&mut acc, &entry.parts[i], lens[i]);
        assert(acc@ =~= head + parts_bytes(parts.take(i + 1), lens@));
        i = i + 1;
    }
    assert(parts.take(i as int) =~= parts);
    crate::hash::fnv1a(acc.as_slice())
}

// ---------------------------------------------------------------------------
// What an entry's fingerprint tells apart
// ---------------------------------------------------------------------------

/// Whether two parts of one id differ in one of their marks: the flags of a tool,
/// its subagent's status or its link to one, or whether a question is answered.
pub open spec fn part_marks_differ(a: MessagePart, b: MessagePart) -> bool {
    match (a, b) {
        (
            MessagePart::Tool {
                id: a_id,
                is_error: a_error,
                resolved: a_resolved,
                subagent_ref: a_ref,
                subagent_status: a_status,
                subagent_tail: a_tail,
                ..
            },
            MessagePart::Tool {
                id: b_id,
                is_error: b_error,
                resolved: b_resolved,
                subagent_ref: b_ref,
                subagent_status: b_status,
                subagent_tail: b_tail,
                ..
            },
        ) => {
            let flags = a_error != b_error || a_resolved != b_resolved;
            let subagents = (a_ref is Some) != (b_ref is Some) || a_status != b_status;
            &&& a_id@ == b_id@
            &&& crate::markdown::opt_text(a_tail) == crate::markdown::opt_text(b_tail)
            &&& flags != subagents
        },
        (
            MessagePart::Input { id: a_id, resolved: a_resolved, .. },
            MessagePart::Input { id: b_id, resolved: b_resolved, .. },
        ) => a_id@ == b_id@ && a_resolved != b_resolved,
        _ => false,
    }
}

/// The bytes of two parts that differ in one of their marks differ in one byte.
proof fn lemma_parts_apart(a: MessagePart, b: MessagePart, len: u64) -> (i: int)
    requires
        part_marks_differ(a, b),
    ensures
        crate::hash::one_byte_apart(part_bytes(a, len), part_bytes(b, len), i),
{
    let head = bytes_of(crate::message::part_id(a)) + le64(len);
    match (a, b) {
        (
            MessagePart::Tool {
                is_error: a_error,
                resolved: a_resolved,
                subagent_ref: a_ref,
                subagent_status: a_status,
                subagent_tail,
                ..
            },
            MessagePart::Tool {
                is_error: b_error,
                resolved: b_resolved,
                subagent_ref: b_ref,
                subagent_status: b_status,
                ..
            },
        ) => {
            let x = seq![
                (bit(a_error) + 2 * bit(a_resolved)) as u8,
                (bit(a_ref is Some) + 2 * status_no(a_status)) as u8,
            ];
            let y = seq![
                (bit(b_error) + 2 * bit(b_resolved)) as u8,
                (bit(b_ref is Some) + 2 * status_no(b_status)) as u8,
            ];
            let words = opt_bytes(crate::markdown::opt_text(subagent_tail));
            let at: int = if a_error != b_error || a_resolved != b_resolved {
                0
            } else {
                1
            };
            assert(crate::hash::one_byte_apart(x, y, at));
            lemma_apart_inside(head, x, y, words, at);
            assert(part_bytes(a, len) =~= head + x + words);
            assert(part_bytes(b, len) =~= head + y + words);
            head.len() + at
        },
        (MessagePart::Input { resolved: p, .. }, MessagePart::Input { resolved: q, .. }) => {
            let x = seq![(16 + bit(p)) as u8];
            let y = seq![(16 + bit(q)) as u8];
            assert(crate::hash::one_byte_apart(x, y, 0));
            lemma_apart_inside(head, x, y, Seq::empty(), 0);
            assert(part_bytes(a, len) =~= head + x + Seq::<u8>::empty());
            assert(part_bytes(b, len) =~= head + y + Seq::<u8>::empty());
            head.len() as int
        },
        _ => 0,
    }
}

/// Parts that differ in one mark of one part have bytes that differ in one.
proof fn lemma_all_parts_apart(
    s: Seq<MessagePart>,
    t: Seq<MessagePart>,
    lens: Seq<u64>,
    k: int,
) -> (i: int)
    requires
        0 <= k < s.len(),
        s.len() == t.len(),
        part_marks_differ(s[k], t[k]),
        forall|j: int| 0 <= j < s.len() && j != k ==> s[j] == t[j],
    ensures
        crate::hash::one_byte_apart(parts_bytes(s, lens), parts_bytes(t, lens), i),
    decreases s.len(),
{
    let a = s.drop_last();
    let b = t.drop_last();
    let len = lens[s.len() - 1];
    if k == s.len() - 1 {
        assert(a =~= b);
        let i = lemma_parts_apart(s[k], t[k], len);
        let p = parts_bytes(a, lens);
        lemma_apart_inside(p, part_bytes(s[k], len), part_bytes(t[k], len), Seq::empty(), i);
        assert(parts_bytes(s, lens) =~= p + part_bytes(s[k], len) + Seq::<u8>::empty());
        assert(parts_bytes(t, lens) =~= p + part_bytes(t[k], len) + Seq::<u8>::empty());
        p.len() + i
    } else {
        let i = lemma_all_parts_apart(a, b, lens, k);
        let last = part_bytes(s.last(), len);
        let none = Seq::<u8>::empty();
        lemma_apart_inside(none, parts_bytes(a, lens), parts_bytes(b, lens), last, i);
        assert(parts_bytes(s, lens) =~= none + parts_bytes(a, lens) + last);
        assert(parts_bytes(t, lens) =~= none + parts_bytes(b, lens) + last);
        i
    }
}

/// An entry that gets another status, and nothing else, has another fingerprint.
pub proof fn law_a_status_changes_the_print(
    before: SessionMessageEntry,
    after: SessionMessageEntry,
    pending: bool,
    lens: Seq<u64>,
)
    requires
        before.id@ == after.id@,
        before.parts@ == after.parts@,
        before.status != after.status,
    ensures
        entry_print(before, pending, lens) != entry_print(after, pending, lens),
{
    let p = bytes_of(before.id@);
    let a = seq![entry_status_no(before.status)];
    let b = seq![entry_status_no(after.status)];
    let parts = parts_bytes(before.parts@, lens);
    let s = seq![bit(pending)] + parts;
    assert(crate::hash::one_byte_apart(a, b, 0));
    lemma_apart_inside(p, a, b, s, 0);
    assert(entry_head(before, pending) + parts =~= p + a + s);
    assert(entry_head(after, pending) + parts =~= p + b + s);
    crate::hash::law_one_byte_changes_the_hash(p + a + s, p + b + s, p.len() as int);
}

/// A prompt that waits for its confirmation has another fingerprint than the same
/// prompt confirmed.
pub proof fn law_confirming_changes_the_print(entry: SessionMessageEntry, lens: Seq<u64>)
    ensures
        entry_print(entry, true, lens) != entry_print(entry, false, lens),
{
    let p = bytes_of(entry.id@) + seq![entry_status_no(entry.status)];
    let s = parts_bytes(entry.parts@, lens);
    let a = seq![1u8];
    let b = seq![0u8];
    assert(crate::hash::one_byte_apart(a, b, 0));
    lemma_apart_inside(p, a, b, s, 0);
    assert(entry_head(entry, true) + s =~= p + a + s);
    assert(entry_head(entry, false) + s =~= p + b + s);
    crate::hash::law_one_byte_changes_the_hash(p + a + s, p + b + s, p.len() as int);
}

/// A part that changes one of its marks, with its size and the other parts as
/// they were, gives the entry another fingerprint: so its rows are built anew when
/// a tool fails or comes to its end, its subagent moves on, or a question is
/// answered.
pub proof fn law_part_marks_change_the_print(
    before: SessionMessageEntry,
    after: SessionMessageEntry,
    k: int,
    pending: bool,
    lens: Seq<u64>,
)
    requires
        before.id@ == after.id@,
        before.status == after.status,
        0 <= k < before.parts@.len(),
        before.parts@.len() == after.parts@.len(),
        part_marks_differ(before.parts@[k], after.parts@[k]),
        forall|j: int|
            0 <= j < before.parts@.len() && j != k ==> before.parts@[j] == after.parts@[j],
    ensures
        entry_print(before, pending, lens) != entry_print(after, pending, lens),
{
    let i = lemma_all_parts_apart(before.parts@, after.parts@, lens, k);
    let p = entry_head(before, pending);
    let a = parts_bytes(before.parts@, lens);
    let b = parts_bytes(after.parts@, lens);
    let none = Seq::<u8>::empty();
    lemma_apart_inside(p, a, b, none, i);
    assert(p + a =~= p + a + none);
    assert(p + b =~= p + b + none);
    crate::hash::law_one_byte_changes_the_hash(p + a + none, p + b + none, p.len() + i);
}

} // verus!
