//! What holds of every diff of a file.
use vstd::prelude::*;

use crate::diff::{
    DiffLineView, FileDiffView, FileStatus, HunkView, LineChangeView, LineKind, LineOpView,
    ToolDiff,
};

verus! {

/// The changes of a group, operation after operation.
pub open spec fn all_changes(group: Seq<LineOpView>) -> Seq<LineChangeView>
    decreases group.len(),
{
    if group.len() == 0 {
        Seq::empty()
    } else {
        all_changes(group.drop_last()) + group.last().changes
    }
}

/// Whether a number is one more than an index, where there is one.
pub open spec fn counts_from_one(no: Option<u32>, index: Option<usize>) -> bool {
    match index {
        Some(n) => no is Some && (n < u32::MAX ==> no->0 == n + 1),
        None => no is None,
    }
}

/// Whether a line shows a change: what it does, its number on each side where it
/// stands there, one more than its index, and its text without the line feeds at
/// its end.
pub open spec fn shows_change(line: DiffLineView, c: LineChangeView) -> bool {
    &&& line.kind == c.kind
    &&& counts_from_one(line.old_no, c.old_index)
    &&& counts_from_one(line.new_no, c.new_index)
    &&& line.text.len() <= c.value.len()
    &&& line.text == c.value.take(line.text.len() as int)
    &&& forall|i: int| line.text.len() <= i < c.value.len() ==> #[trigger] c.value[i] == '\n'
    &&& line.text.len() > 0 ==> line.text.last() != '\n'
}

/// How many groups hold anything.
pub open spec fn filled(groups: Seq<Seq<LineOpView>>) -> nat
    decreases groups.len(),
{
    if groups.len() == 0 {
        0
    } else {
        filled(groups.drop_last()) + if groups.last().len() > 0 {
            1nat
        } else {
            0nat
        }
    }
}

proof fn lemma_chopped(s: Seq<char>)
    ensures
        ({
            let r = crate::diff::chop_newlines(s);
            &&& r.len() <= s.len()
            &&& r == s.take(r.len() as int)
            &&& forall|i: int| r.len() <= i < s.len() ==> #[trigger] s[i] == '\n'
            &&& r.len() > 0 ==> r.last() != '\n'
        }),
    decreases s.len(),
{
    let r = crate::diff::chop_newlines(s);
    if s.len() > 0 && s.last() == '\n' {
        let t = s.drop_last();
        lemma_chopped(t);
        assert(r =~= s.take(r.len() as int));
        assert forall|i: int| r.len() <= i < s.len() implies #[trigger] s[i] == '\n' by {
            if i < t.len() {
                assert(t[i] == s[i]);
            }
        }
    } else {
        assert(r =~= s.take(r.len() as int));
    }
}

proof fn lemma_line_shows(c: LineChangeView)
    ensures
        shows_change(crate::diff::change_line(c), c),
{
    lemma_chopped(c.value);
}

proof fn lemma_group_shows(group: Seq<LineOpView>)
    ensures
        crate::diff::group_lines(group).len() == all_changes(group).len(),
        forall|i: int|
            0 <= i < all_changes(group).len() ==> shows_change(
                #[trigger] crate::diff::group_lines(group)[i],
                all_changes(group)[i],
            ),
    decreases group.len(),
{
    if group.len() > 0 {
        let init = group.drop_last();
        let mine = group.last().changes;
        lemma_group_shows(init);
        let lines = crate::diff::group_lines(group);
        let changes = all_changes(group);
        let before = crate::diff::group_lines(init);
        assert forall|i: int| 0 <= i < changes.len() implies shows_change(
            #[trigger] lines[i],
            changes[i],
        ) by {
            if i < before.len() {
                assert(lines[i] == before[i]);
                assert(changes[i] == all_changes(init)[i]);
            } else {
                lemma_line_shows(mine[i - before.len()]);
                assert(lines[i] == crate::diff::change_lines(mine)[i - before.len()]);
            }
        }
    }
}

proof fn lemma_hunk_of_group(groups: Seq<Seq<LineOpView>>, k: int)
    requires
        0 <= k < groups.len(),
        groups[k].len() > 0,
    ensures
        ({
            let hunks = crate::diff::groups_hunks(groups);
            let h = filled(groups.take(k));
            &&& hunks.len() == filled(groups)
            &&& h < hunks.len()
            &&& hunks[h as int].lines == crate::diff::group_lines(groups[k])
            &&& hunks[h as int].header == crate::diff::hunk_header(groups[k])
        }),
    decreases groups.len(),
{
    let init = groups.drop_last();
    lemma_hunks_filled(init);
    lemma_hunks_filled(groups);
    if k < groups.len() - 1 {
        lemma_hunk_of_group(init, k);
        assert(init[k] == groups[k]);
        assert(init.take(k) =~= groups.take(k));
    } else {
        assert(groups.take(k) =~= init);
    }
}

proof fn lemma_hunks_filled(groups: Seq<Seq<LineOpView>>)
    ensures
        crate::diff::groups_hunks(groups).len() == filled(groups),
    decreases groups.len(),
{
    if groups.len() > 0 {
        lemma_hunks_filled(groups.drop_last());
    }
}

/// Each group of changes that holds anything makes one hunk, in order, with a line
/// for each change: of its kind, with its text, and with a number on each side that
/// it stands on, which is one more than its index there.
pub proof fn law_hunks_show_their_changes(
    path: Seq<char>,
    created: bool,
    groups: Seq<Seq<LineOpView>>,
    k: int,
)
    requires
        0 <= k < groups.len(),
        groups[k].len() > 0,
    ensures
        ({
            let hunks = crate::diff::file_view(path, created, groups).hunks;
            let hunk = hunks[filled(groups.take(k)) as int];
            let changes = all_changes(groups[k]);
            &&& hunks.len() == filled(groups)
            &&& filled(groups.take(k)) < hunks.len()
            &&& hunk.lines.len() == changes.len()
            &&& forall|i: int|
                0 <= i < changes.len() ==> shows_change(#[trigger] hunk.lines[i], changes[i])
        }),
{
    lemma_hunk_of_group(groups, k);
    lemma_group_shows(groups[k]);
}

// ---------------------------------------------------------------------------
// Numbers that run
// ---------------------------------------------------------------------------

/// Whether a line stands in the old text.
pub open spec fn in_old(kind: LineKind) -> bool {
    kind == LineKind::Context || kind == LineKind::Del
}

/// Whether a line stands in the new text.
pub open spec fn in_new(kind: LineKind) -> bool {
    kind == LineKind::Context || kind == LineKind::Add
}

/// How many of the first lines stand in the old text.
pub open spec fn old_before(lines: Seq<DiffLineView>) -> nat
    decreases lines.len(),
{
    if lines.len() == 0 {
        0
    } else {
        old_before(lines.drop_last()) + if in_old(lines.last().kind) {
            1nat
        } else {
            0nat
        }
    }
}

/// How many of the first lines stand in the new text.
pub open spec fn new_before(lines: Seq<DiffLineView>) -> nat
    decreases lines.len(),
{
    if lines.len() == 0 {
        0
    } else {
        new_before(lines.drop_last()) + if in_new(lines.last().kind) {
            1nat
        } else {
            0nat
        }
    }
}

/// Whether changes walk through both texts line by line from two indices on.
pub open spec fn walks(changes: Seq<LineChangeView>, old: int, new: int) -> bool
    decreases changes.len(),
{
    if changes.len() == 0 {
        true
    } else {
        let c = changes[0];
        &&& if in_old(c.kind) {
            c.old_index matches Some(n) && n == old
        } else {
            c.old_index is None
        }
        &&& if in_new(c.kind) {
            c.new_index matches Some(n) && n == new
        } else {
            c.new_index is None
        }
        &&& walks(
            changes.skip(1),
            if in_old(c.kind) {
                old + 1
            } else {
                old
            },
            if in_new(c.kind) {
                new + 1
            } else {
                new
            },
        )
    }
}

/// How many of the changes stand in the old text.
pub open spec fn old_count(changes: Seq<LineChangeView>) -> nat
    decreases changes.len(),
{
    if changes.len() == 0 {
        0
    } else {
        old_count(changes.drop_last()) + if in_old(changes.last().kind) {
            1nat
        } else {
            0nat
        }
    }
}

/// How many of the changes stand in the new text.
pub open spec fn new_count(changes: Seq<LineChangeView>) -> nat
    decreases changes.len(),
{
    if changes.len() == 0 {
        0
    } else {
        new_count(changes.drop_last()) + if in_new(changes.last().kind) {
            1nat
        } else {
            0nat
        }
    }
}

/// Whether a group of changes walks through one stretch of both texts: from where
/// its first operation starts to where its last one ends.
pub open spec fn one_stretch(group: Seq<LineOpView>) -> bool {
    &&& group.len() > 0
    &&& walks(all_changes(group), group[0].old_start as int, group[0].new_start as int)
    &&& group.last().old_end == group[0].old_start + old_count(all_changes(group))
    &&& group.last().new_end == group[0].new_start + new_count(all_changes(group))
}

proof fn lemma_counts_skip(changes: Seq<LineChangeView>)
    requires
        changes.len() > 0,
    ensures
        old_count(changes) == old_count(changes.skip(1)) + if in_old(changes[0].kind) {
            1nat
        } else {
            0nat
        },
        new_count(changes) == new_count(changes.skip(1)) + if in_new(changes[0].kind) {
            1nat
        } else {
            0nat
        },
    decreases changes.len(),
{
    if changes.len() == 1 {
        assert(changes.drop_last() =~= Seq::empty());
        assert(changes.skip(1) =~= Seq::empty());
    } else {
        lemma_counts_skip(changes.drop_last());
        assert(changes.drop_last().skip(1) =~= changes.skip(1).drop_last());
    }
}

proof fn lemma_walk_at(changes: Seq<LineChangeView>, old: int, new: int, i: int)
    requires
        walks(changes, old, new),
        0 <= i < changes.len(),
    ensures
        in_old(changes[i].kind) ==> changes[i].old_index is Some && changes[i].old_index->0 == old
            + old_count(changes.take(i)),
        !in_old(changes[i].kind) ==> changes[i].old_index is None,
        in_new(changes[i].kind) ==> changes[i].new_index is Some && changes[i].new_index->0 == new
            + new_count(changes.take(i)),
        !in_new(changes[i].kind) ==> changes[i].new_index is None,
    decreases changes.len(),
{
    if i == 0 {
        assert(changes.take(0) =~= Seq::empty());
    } else {
        let c = changes[0];
        let rest = changes.skip(1);
        lemma_walk_at(
            rest,
            if in_old(c.kind) {
                old + 1
            } else {
                old
            },
            if in_new(c.kind) {
                new + 1
            } else {
                new
            },
            i - 1,
        );
        assert(changes.take(i).skip(1) =~= rest.take(i - 1));
        lemma_counts_skip(changes.take(i));
        assert(rest[i - 1] == changes[i]);
    }
}

proof fn lemma_before_counts(lines: Seq<DiffLineView>, changes: Seq<LineChangeView>)
    requires
        lines.len() == changes.len(),
        forall|i: int| 0 <= i < changes.len() ==> (#[trigger] lines[i]).kind == changes[i].kind,
    ensures
        old_before(lines) == old_count(changes),
        new_before(lines) == new_count(changes),
    decreases lines.len(),
{
    if lines.len() > 0 {
        let a = lines.drop_last();
        let b = changes.drop_last();
        assert forall|i: int| 0 <= i < b.len() implies (#[trigger] a[i]).kind == b[i].kind by {
            assert(a[i] == lines[i]);
        }
        lemma_before_counts(a, b);
        assert(lines[lines.len() - 1].kind == changes[changes.len() - 1].kind);
    }
}

/// Within a hunk the numbers run up by one on each side, from the number in the
/// header: a line that stands in the new text has the number of the hunk's first
/// line there and one for each such line before it, and so on the old side; an
/// added line has no old number and a deleted one no new number. The header counts
/// the lines on each side.
pub proof fn law_numbers_run_up_in_a_hunk(
    path: Seq<char>,
    created: bool,
    groups: Seq<Seq<LineOpView>>,
    k: int,
    i: int,
)
    requires
        0 <= k < groups.len(),
        one_stretch(groups[k]),
        groups[k].last().old_end < u32::MAX,
        groups[k].last().new_end < u32::MAX,
        0 <= i < all_changes(groups[k]).len(),
    ensures
        ({
            let hunk = crate::diff::file_view(path, created, groups).hunks[filled(
                groups.take(k),
            ) as int];
            let old = groups[k][0].old_start + 1;
            let new = groups[k][0].new_start + 1;
            let line = hunk.lines[i];
            &&& hunk.header == "@@ -"@ + crate::text::decimal(old as nat) + ","@
                + crate::text::decimal(old_before(hunk.lines)) + " +"@ + crate::text::decimal(
                new as nat,
            ) + ","@ + crate::text::decimal(new_before(hunk.lines)) + " @@"@
            &&& if in_old(line.kind) {
                line.old_no is Some && line.old_no->0 == old + old_before(hunk.lines.take(i))
            } else {
                line.old_no is None
            }
            &&& if in_new(line.kind) {
                line.new_no is Some && line.new_no->0 == new + new_before(hunk.lines.take(i))
            } else {
                line.new_no is None
            }
        }),
{
    let group = groups[k];
    let changes = all_changes(group);
    law_hunks_show_their_changes(path, created, groups, k);
    lemma_hunk_of_group(groups, k);
    let hunk = crate::diff::file_view(path, created, groups).hunks[filled(groups.take(k)) as int];
    let lines = hunk.lines;
    lemma_before_counts(lines, changes);
    let a = lines.take(i);
    let b = changes.take(i);
    assert forall|j: int| 0 <= j < b.len() implies (#[trigger] a[j]).kind == b[j].kind by {
        assert(shows_change(lines[j], changes[j]));
    }
    lemma_before_counts(a, b);
    lemma_walk_at(changes, group[0].old_start as int, group[0].new_start as int, i);
    assert(shows_change(lines[i], changes[i]));
    lemma_count_grows(changes, i);
    assert(crate::diff::span(group[0].old_start, group.last().old_end) == old_count(changes));
    assert(crate::diff::span(group[0].new_start, group.last().new_end) == new_count(changes));
}

proof fn lemma_count_grows(changes: Seq<LineChangeView>, i: int)
    requires
        0 <= i < changes.len(),
    ensures
        old_count(changes.take(i)) + (if in_old(changes[i].kind) {
            1nat
        } else {
            0nat
        }) <= old_count(changes),
        new_count(changes.take(i)) + (if in_new(changes[i].kind) {
            1nat
        } else {
            0nat
        }) <= new_count(changes),
    decreases changes.len(),
{
    let init = changes.drop_last();
    if i < init.len() {
        lemma_count_grows(init, i);
        assert(init.take(i) =~= changes.take(i));
        assert(init[i] == changes[i]);
    } else {
        assert(changes.take(i) =~= init);
    }
}

// ---------------------------------------------------------------------------
// Counts
// ---------------------------------------------------------------------------

/// How many lines of a kind the hunks hold.
pub open spec fn of_kind(hunks: Seq<HunkView>, kind: LineKind) -> nat
    decreases hunks.len(),
{
    if hunks.len() == 0 {
        0
    } else {
        of_kind(hunks.drop_last(), kind) + hunks.last().lines.filter(
            |l: DiffLineView| l.kind == kind,
        ).len()
    }
}

proof fn lemma_count_is_filter(lines: Seq<DiffLineView>, kind: LineKind)
    ensures
        crate::diff::count_kind(lines, kind) == lines.filter(
            |l: DiffLineView| l.kind == kind,
        ).len(),
    decreases lines.len(),
{
    let pick = |l: DiffLineView| l.kind == kind;
    reveal(Seq::filter);
    if lines.len() > 0 {
        lemma_count_is_filter(lines.drop_last(), kind);
    }
}

proof fn lemma_count_add(a: Seq<DiffLineView>, b: Seq<DiffLineView>, kind: LineKind)
    ensures
        crate::diff::count_kind(a + b, kind) == crate::diff::count_kind(a, kind)
            + crate::diff::count_kind(b, kind),
    decreases b.len(),
{
    if b.len() == 0 {
        assert(a + b =~= a);
    } else {
        lemma_count_add(a, b.drop_last(), kind);
        assert((a + b).drop_last() =~= a + b.drop_last());
    }
}

proof fn lemma_hunks_count(hunks: Seq<HunkView>, kind: LineKind)
    ensures
        crate::diff::count_kind(crate::diff::hunks_lines(hunks), kind) == of_kind(hunks, kind),
    decreases hunks.len(),
{
    if hunks.len() > 0 {
        lemma_hunks_count(hunks.drop_last(), kind);
        lemma_count_is_filter(hunks.last().lines, kind);
        lemma_count_add(
            crate::diff::hunks_lines(hunks.drop_last()),
            hunks.last().lines,
            kind,
        );
    }
}

proof fn lemma_max_no(lines: Seq<DiffLineView>)
    ensures
        forall|i: int|
            0 <= i < lines.len() ==> crate::diff::or_zero((#[trigger] lines[i]).old_no)
                <= crate::diff::max_no(lines) && crate::diff::or_zero(lines[i].new_no)
                <= crate::diff::max_no(lines),
        crate::diff::max_no(lines) > 0 ==> exists|i: int|
            0 <= i < lines.len() && ((#[trigger] lines[i]).old_no == Some(
                crate::diff::max_no(lines),
            ) || lines[i].new_no == Some(crate::diff::max_no(lines))),
    decreases lines.len(),
{
    if lines.len() > 0 {
        let init = lines.drop_last();
        let m = crate::diff::max_no(lines);
        lemma_max_no(init);
        assert forall|i: int| 0 <= i < lines.len() implies crate::diff::or_zero(
            (#[trigger] lines[i]).old_no,
        ) <= m && crate::diff::or_zero(lines[i].new_no) <= m by {
            if i < init.len() {
                assert(init[i] == lines[i]);
            }
        }
        if m > 0 {
            if crate::diff::max_no(init) == m {
                let i = choose|i: int|
                    0 <= i < init.len() && ((#[trigger] init[i]).old_no == Some(m)
                        || init[i].new_no == Some(m));
                assert(lines[i] == init[i]);
            } else {
                assert(lines[lines.len() - 1].old_no == Some(m) || lines[lines.len() - 1].new_no
                    == Some(m));
            }
        }
    }
}

proof fn lemma_line_of_hunk(hunks: Seq<HunkView>, h: int, i: int)
    requires
        0 <= h < hunks.len(),
        0 <= i < hunks[h].lines.len(),
    ensures
        crate::diff::hunks_lines(hunks).contains(hunks[h].lines[i]),
    decreases hunks.len(),
{
    let init = hunks.drop_last();
    let all = crate::diff::hunks_lines(hunks);
    let before = crate::diff::hunks_lines(init);
    if h < init.len() {
        lemma_line_of_hunk(init, h, i);
        let j = choose|j: int| 0 <= j < before.len() && before[j] == init[h].lines[i];
        assert(all[j] == hunks[h].lines[i]);
    } else {
        assert(all[before.len() + i] == hunks[h].lines[i]);
    }
}

proof fn lemma_hunk_of_line(hunks: Seq<HunkView>, j: int) -> (r: (int, int))
    requires
        0 <= j < crate::diff::hunks_lines(hunks).len(),
    ensures
        0 <= r.0 < hunks.len(),
        0 <= r.1 < hunks[r.0].lines.len(),
        hunks[r.0].lines[r.1] == crate::diff::hunks_lines(hunks)[j],
    decreases hunks.len(),
{
    let init = hunks.drop_last();
    let before = crate::diff::hunks_lines(init);
    if j < before.len() {
        let (h, i) = lemma_hunk_of_line(init, j);
        assert(init[h] == hunks[h]);
        (h, i)
    } else {
        (hunks.len() - 1, j - before.len())
    }
}

/// A file's diff counts the added and the deleted lines of its hunks, and knows the
/// highest number in them: no line has a higher one on either side, and some line
/// has it, unless no line has any.
pub proof fn law_a_file_counts_its_lines(
    path: Seq<char>,
    created: bool,
    groups: Seq<Seq<LineOpView>>,
)
    ensures
        ({
            let file = crate::diff::file_view(path, created, groups);
            &&& file.path == path
            &&& file.status == (if created {
                FileStatus::Added
            } else {
                FileStatus::Modified
            })
            &&& file.old_path is None && !file.binary && file.notices.len() == 0
            &&& of_kind(file.hunks, LineKind::Add) <= u32::MAX ==> file.additions == of_kind(
                file.hunks,
                LineKind::Add,
            )
            &&& of_kind(file.hunks, LineKind::Del) <= u32::MAX ==> file.deletions == of_kind(
                file.hunks,
                LineKind::Del,
            )
            &&& forall|h: int, i: int|
                0 <= h < file.hunks.len() && 0 <= i < file.hunks[h].lines.len() ==> ((
                #[trigger] file.hunks[h].lines[i]).old_no matches Some(n) ==> n <= file.max_line)
                    && (file.hunks[h].lines[i].new_no matches Some(n) ==> n <= file.max_line)
            &&& file.max_line > 0 ==> exists|h: int, i: int|
                0 <= h < file.hunks.len() && 0 <= i < file.hunks[h].lines.len() && ((
                #[trigger] file.hunks[h].lines[i]).old_no == Some(file.max_line)
                    || file.hunks[h].lines[i].new_no == Some(file.max_line))
        }),
{
    let file = crate::diff::file_view(path, created, groups);
    let all = crate::diff::hunks_lines(file.hunks);
    lemma_hunks_count(file.hunks, LineKind::Add);
    lemma_hunks_count(file.hunks, LineKind::Del);
    lemma_max_no(all);
    assert forall|h: int, i: int|
        0 <= h < file.hunks.len() && 0 <= i < file.hunks[h].lines.len() implies ((
    #[trigger] file.hunks[h].lines[i]).old_no matches Some(n) ==> n <= file.max_line) && (
    file.hunks[h].lines[i].new_no matches Some(n) ==> n <= file.max_line) by {
        lemma_line_of_hunk(file.hunks, h, i);
        let j = choose|j: int| 0 <= j < all.len() && all[j] == file.hunks[h].lines[i];
        assert(crate::diff::or_zero(all[j].old_no) <= file.max_line);
    }
    if file.max_line > 0 {
        let j = choose|j: int|
            0 <= j < all.len() && ((#[trigger] all[j]).old_no == Some(file.max_line)
                || all[j].new_no == Some(file.max_line));
        let (h, i) = lemma_hunk_of_line(file.hunks, j);
        assert(file.hunks[h].lines[i] == all[j]);
    }
}

/// An edit is compared line by line with three lines of context, a file that it
/// made with nothing, and shows under its path.
pub proof fn law_an_edit_is_compared_with_the_text_before_it(diff: ToolDiff)
    ensures
        ({
            let file = crate::diff::diff_file(diff);
            let before = match diff.old_text {
                Some(t) => t@,
                None => Seq::<char>::empty(),
            };
            &&& file.path == diff.path@
            &&& (file.status == FileStatus::Added) == (diff.old_text is None)
            &&& file == crate::diff::file_view(
                diff.path@,
                diff.old_text is None,
                crate::diff::line_groups(before, diff.new_text@, 3),
            )
        }),
{
    reveal_strlit("");
    assert(""@ =~= Seq::<char>::empty());
}

/// A diff that is cut shows the first lines of the whole, hunk by hunk under the
/// same headers, and tells the same of the file.
pub proof fn law_a_cut_diff_is_the_start_of_the_whole(file: FileDiffView, max: nat, h: int)
    requires
        0 <= h < crate::diff::cut_file(file, max).hunks.len(),
    ensures
        ({
            let cut = crate::diff::cut_file(file, max);
            &&& cut.hunks.len() <= file.hunks.len()
            &&& cut.hunks[h].header == file.hunks[h].header
            &&& cut.hunks[h].lines.len() <= file.hunks[h].lines.len()
            &&& cut.hunks[h].lines == file.hunks[h].lines.take(cut.hunks[h].lines.len() as int)
            &&& h < cut.hunks.len() - 1 ==> cut.hunks[h].lines == file.hunks[h].lines
            &&& cut.path == file.path && cut.status == file.status && cut.max_line
                == file.max_line && cut.additions == file.additions && cut.deletions
                == file.deletions
        }),
{
    lemma_cut_hunks(file.hunks, max, h);
}

proof fn lemma_cut_hunks(hunks: Seq<HunkView>, max: nat, h: int)
    requires
        0 <= h < crate::diff::cut_hunks(hunks, max).len(),
    ensures
        ({
            let cut = crate::diff::cut_hunks(hunks, max);
            &&& cut.len() <= hunks.len()
            &&& cut[h].header == hunks[h].header
            &&& cut[h].lines.len() <= hunks[h].lines.len()
            &&& cut[h].lines == hunks[h].lines.take(cut[h].lines.len() as int)
            &&& h < cut.len() - 1 ==> cut[h].lines == hunks[h].lines
        }),
    decreases hunks.len(),
{
    let cut = crate::diff::cut_hunks(hunks, max);
    if hunks[0].lines.len() <= max {
        let left = (max - hunks[0].lines.len()) as nat;
        let rest = crate::diff::cut_hunks(hunks.skip(1), left);
        assert(hunks[0].lines =~= hunks[0].lines.take(hunks[0].lines.len() as int));
        if h > 0 {
            lemma_cut_hunks(hunks.skip(1), left, h - 1);
            assert(cut[h] == rest[h - 1]);
            assert(hunks.skip(1)[h - 1] == hunks[h]);
        } else if rest.len() > 0 {
            lemma_cut_hunks(hunks.skip(1), left, 0);
        }
    }
}

} // verus!
