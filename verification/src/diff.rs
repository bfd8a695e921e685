//! A file edit as hunks of numbered lines.
use std::ops::Range;

use vstd::prelude::*;

verus! {

/// An edit of one file, as a tool reported it.
pub struct ToolDiff {
    pub path: String,
    /// The text before the edit; absent for a file that the edit made.
    pub old_text: Option<String>,
    pub new_text: String,
}

/// What a line of a diff does.
#[derive(Clone, Copy, PartialEq, Eq, Structural, Debug)]
pub enum LineKind {
    Context,
    Add,
    Del,
}

/// One line of a diff with its 1-based numbers on both sides.
pub struct DiffLine {
    pub kind: LineKind,
    pub old_no: Option<u32>,
    pub new_no: Option<u32>,
    pub text: String,
}

/// A stretch of changed lines with its context.
pub struct Hunk {
    pub header: String,
    pub lines: Vec<DiffLine>,
}

/// What the edit did to the file.
#[derive(Clone, Copy, PartialEq, Eq, Structural, Debug)]
pub enum FileStatus {
    Added,
    Modified,
}

/// The diff of one file.
pub struct FileDiff {
    pub path: String,
    pub old_path: Option<String>,
    pub status: FileStatus,
    pub binary: bool,
    pub notices: Vec<String>,
    pub hunks: Vec<Hunk>,
    pub additions: u32,
    pub deletions: u32,
    /// The highest line number on either side.
    pub max_line: u32,
}

/// What a [`DiffLine`] holds.
#[verifier::ext_equal]
pub struct DiffLineView {
    pub kind: LineKind,
    pub old_no: Option<u32>,
    pub new_no: Option<u32>,
    pub text: Seq<char>,
}

impl View for DiffLine {
    type V = DiffLineView;

    open spec fn view(&self) -> DiffLineView {
        DiffLineView {
            kind: self.kind,
            old_no: self.old_no,
            new_no: self.new_no,
            text: self.text@,
        }
    }
}

/// What a sequence of lines holds.
pub open spec fn diff_lines(s: Seq<DiffLine>) -> Seq<DiffLineView> {
    Seq::new(s.len(), |i: int| s[i]@)
}

/// What a [`Hunk`] holds.
#[verifier::ext_equal]
pub struct HunkView {
    pub header: Seq<char>,
    pub lines: Seq<DiffLineView>,
}

impl View for Hunk {
    type V = HunkView;

    open spec fn view(&self) -> HunkView {
        HunkView { header: self.header@, lines: diff_lines(self.lines@) }
    }
}

/// What a sequence of hunks holds.
pub open spec fn hunk_views(s: Seq<Hunk>) -> Seq<HunkView> {
    Seq::new(s.len(), |i: int| s[i]@)
}

/// What a [`FileDiff`] holds.
#[verifier::ext_equal]
pub struct FileDiffView {
    pub path: Seq<char>,
    pub old_path: Option<Seq<char>>,
    pub status: FileStatus,
    pub binary: bool,
    pub notices: Seq<Seq<char>>,
    pub hunks: Seq<HunkView>,
    pub additions: u32,
    pub deletions: u32,
    pub max_line: u32,
}

impl View for FileDiff {
    type V = FileDiffView;

    open spec fn view(&self) -> FileDiffView {
        FileDiffView {
            path: self.path@,
            old_path: crate::markdown::opt_text(self.old_path),
            status: self.status,
            binary: self.binary,
            notices: crate::text::texts(self.notices@),
            hunks: hunk_views(self.hunks@),
            additions: self.additions,
            deletions: self.deletions,
            max_line: self.max_line,
        }
    }
}

/// One line of a comparison, with its 0-based indices.
pub struct LineChange {
    pub kind: LineKind,
    pub old_index: Option<usize>,
    pub new_index: Option<usize>,
    pub value: String,
}

/// One operation of a comparison: the lines that it spans on both sides and
/// the lines that it expands to.
pub struct LineOp {
    pub old_range: Range<usize>,
    pub new_range: Range<usize>,
    pub changes: Vec<LineChange>,
}

/// What a [`LineChange`] holds.
#[verifier::ext_equal]
pub struct LineChangeView {
    pub kind: LineKind,
    pub old_index: Option<usize>,
    pub new_index: Option<usize>,
    pub value: Seq<char>,
}

impl View for LineChange {
    type V = LineChangeView;

    open spec fn view(&self) -> LineChangeView {
        LineChangeView {
            kind: self.kind,
            old_index: self.old_index,
            new_index: self.new_index,
            value: self.value@,
        }
    }
}

/// What a [`LineOp`] holds.
#[verifier::ext_equal]
pub struct LineOpView {
    pub old_start: usize,
    pub old_end: usize,
    pub new_start: usize,
    pub new_end: usize,
    pub changes: Seq<LineChangeView>,
}

impl View for LineOp {
    type V = LineOpView;

    open spec fn view(&self) -> LineOpView {
        LineOpView {
            old_start: self.old_range.start,
            old_end: self.old_range.end,
            new_start: self.new_range.start,
            new_end: self.new_range.end,
            changes: Seq::new(self.changes@.len(), |i: int| self.changes@[i]@),
        }
    }
}

/// What a group of operations holds.
pub open spec fn group_view(s: Seq<LineOp>) -> Seq<LineOpView> {
    Seq::new(s.len(), |i: int| s[i]@)
}

/// What a list of groups holds.
pub open spec fn group_views(s: Seq<Vec<LineOp>>) -> Seq<Seq<LineOpView>> {
    Seq::new(s.len(), |i: int| group_view(s[i]@))
}

/// The groups of operations by which `similar` turns the lines of `old` into
/// the lines of `new`, each change with `context` equal lines around it.
pub uninterp spec fn line_groups(old: Seq<char>, new: Seq<char>, context: usize) -> Seq<
    Seq<LineOpView>,
>;

/// `similar::TextDiff::from_lines`, grouped by `TextDiff::grouped_ops` and
/// expanded by `TextDiff::iter_changes`. The result depends on the two texts
/// and the number of context lines alone, which is doubled on the way.
#[verifier::external_body]
fn compare_lines(old: &str, new: &str, context: usize) -> (r: Vec<Vec<LineOp>>)
    requires
        context <= usize::MAX / 2,
    ensures
        group_views(r@) == line_groups(old@, new@, context),
{
    let diff = similar::TextDiff::from_lines(old, new);
    let change = |c: similar::Change<&str>| LineChange {
        kind: match c.tag() {
            similar::ChangeTag::Equal => LineKind::Context,
            similar::ChangeTag::Insert => LineKind::Add,
            similar::ChangeTag::Delete => LineKind::Del,
        },
        old_index: c.old_index(), new_index: c.new_index(), value: c.value().to_owned(),
    };
    let op = |o: &similar::DiffOp| LineOp {
        old_range: o.old_range(), new_range: o.new_range(), changes: diff.iter_changes(o).map(change).collect(),
    };
    diff.grouped_ops(context).iter().map(|g| g.iter().map(op).collect()).collect()
}

/// The 1-based number of a 0-based line index, in 32 bits.
pub open spec fn line_no(index: Option<usize>) -> Option<u32> {
    match index {
        Some(n) => Some((n as u32).wrapping_add(1)),
        None => None,
    }
}

/// `s` without the line feeds at its end.
pub open spec fn chop_newlines(s: Seq<char>) -> Seq<char>
    decreases s.len(),
{
    if s.len() > 0 && s.last() == '\n' {
        chop_newlines(s.drop_last())
    } else {
        s
    }
}

/// A change as a numbered line.
pub open spec fn change_line(c: LineChangeView) -> DiffLineView {
    DiffLineView {
        kind: c.kind,
        old_no: line_no(c.old_index),
        new_no: line_no(c.new_index),
        text: chop_newlines(c.value),
    }
}

/// Changes as numbered lines.
pub open spec fn change_lines(changes: Seq<LineChangeView>) -> Seq<DiffLineView> {
    Seq::new(changes.len(), |i: int| change_line(changes[i]))
}

/// The lines of a group, operation after operation.
pub open spec fn group_lines(group: Seq<LineOpView>) -> Seq<DiffLineView>
    decreases group.len(),
{
    if group.len() == 0 {
        Seq::empty()
    } else {
        group_lines(group.drop_last()) + change_lines(group.last().changes)
    }
}

/// How many lines stand from `start` up to `end`.
pub open spec fn span(start: usize, end: usize) -> nat {
    if start < end {
        (end - start) as nat
    } else {
        0
    }
}

/// A unified diff's hunk header: on both sides the number of the first line
/// and how many there are.
pub open spec fn hunk_header(group: Seq<LineOpView>) -> Seq<char> {
    let first = group[0];
    let last = group.last();
    "@@ -"@ + crate::text::decimal(first.old_start.wrapping_add(1) as nat) + ","@
        + crate::text::decimal(span(first.old_start, last.old_end)) + " +"@
        + crate::text::decimal(first.new_start.wrapping_add(1) as nat) + ","@
        + crate::text::decimal(span(first.new_start, last.new_end)) + " @@"@
}

/// The hunks of the groups that hold anything.
pub open spec fn groups_hunks(groups: Seq<Seq<LineOpView>>) -> Seq<HunkView>
    decreases groups.len(),
{
    if groups.len() == 0 {
        Seq::empty()
    } else {
        let before = groups_hunks(groups.drop_last());
        let group = groups.last();
        if group.len() == 0 {
            before
        } else {
            before.push(HunkView { header: hunk_header(group), lines: group_lines(group) })
        }
    }
}

/// How many of `lines` are of `kind`.
pub open spec fn count_kind(lines: Seq<DiffLineView>, kind: LineKind) -> nat
    decreases lines.len(),
{
    if lines.len() == 0 {
        0
    } else {
        count_kind(lines.drop_last(), kind) + if lines.last().kind == kind {
            1nat
        } else {
            0nat
        }
    }
}

/// The lines of all hunks.
pub open spec fn hunks_lines(hunks: Seq<HunkView>) -> Seq<DiffLineView>
    decreases hunks.len(),
{
    if hunks.len() == 0 {
        Seq::empty()
    } else {
        hunks_lines(hunks.drop_last()) + hunks.last().lines
    }
}

/// The number of a line on one side, zero where it has none.
pub open spec fn or_zero(no: Option<u32>) -> u32 {
    match no {
        Some(n) => n,
        None => 0,
    }
}

/// The greater of two.
pub open spec fn max_of(a: u32, b: u32) -> u32 {
    if a >= b {
        a
    } else {
        b
    }
}

/// The highest line number of `lines`.
pub open spec fn max_no(lines: Seq<DiffLineView>) -> u32
    decreases lines.len(),
{
    if lines.len() == 0 {
        0
    } else {
        max_of(
            max_no(lines.drop_last()),
            max_of(or_zero(lines.last().old_no), or_zero(lines.last().new_no)),
        )
    }
}

/// The file that the groups make: their hunks, with the added and the deleted
/// lines counted in 32 bits.
pub open spec fn file_view(
    path: Seq<char>,
    created: bool,
    groups: Seq<Seq<LineOpView>>,
) -> FileDiffView {
    let hunks = groups_hunks(groups);
    FileDiffView {
        path,
        old_path: None,
        status: if created {
            FileStatus::Added
        } else {
            FileStatus::Modified
        },
        binary: false,
        notices: Seq::empty(),
        hunks,
        additions: (count_kind(hunks_lines(hunks), LineKind::Add) % 0x1_0000_0000) as u32,
        deletions: (count_kind(hunks_lines(hunks), LineKind::Del) % 0x1_0000_0000) as u32,
        max_line: max_no(hunks_lines(hunks)),
    }
}

/// Context lines around each change.
pub const CONTEXT_LINES: usize = 3;

/// The file that an edit makes.
pub open spec fn diff_file(diff: ToolDiff) -> FileDiffView {
    let old = match diff.old_text {
        Some(t) => t@,
        None => ""@,
    };
    file_view(
        diff.path@,
        diff.old_text is None,
        line_groups(old, diff.new_text@, CONTEXT_LINES),
    )
}

proof fn lemma_chop(s: Seq<char>, k: int)
    requires
        0 <= k <= s.len(),
        forall|j: int| k <= j < s.len() ==> #[trigger] s[j] == '\n',
        k > 0 ==> s[k - 1] != '\n',
    ensures
        chop_newlines(s) == s.take(k),
    decreases s.len() - k,
{
    if k < s.len() {
        assert(s[s.len() - 1] == '\n');
        lemma_chop(s.drop_last(), k);
        assert(s.drop_last().take(k) =~= s.take(k));
    } else {
        assert(s.take(k) =~= s);
    }
}

/// `s` without the line feeds at its end.
fn chopped(s: &str) -> (r: String)
    ensures
        r@ == chop_newlines(s@),
{
    let v = crate::text::chars_of(s);
    let mut k: usize = v.len();
    while k > 0 && v[k - 1] == '\n'
        invariant
            k <= v@.len(),
            v@ == s@,
            forall|j: int| k <= j < v@.len() ==> #[trigger] v@[j] == '\n',
        decreases k,
    {
        k = k - 1;
    }
    proof {
        lemma_chop(s@, k as int);
        assert(s@.take(k as int) =~= v@.subrange(0, k as int));
    }
    crate::text::text_between(&v, 0, k)
}

/// The 1-based number of a 0-based index.
fn number(index: Option<usize>) -> (r: Option<u32>)
    ensures
        r == line_no(index),
{
    match index {
        Some(n) => Some((n as u32).wrapping_add(1)),
        None => None,
    }
}

/// Appends the lines of one operation.
fn push_changes(changes: &Vec<LineChange>, lines: &mut Vec<DiffLine>)
    ensures
        diff_lines(final(lines)@) == diff_lines(old(lines)@) + change_lines(
            Seq::new(changes@.len(), |i: int| changes@[i]@),
        ),
{
    let ghost views = Seq::new(changes@.len(), |i: int| changes@[i]@);
    let ghost base = diff_lines(lines@);
    let mut i: usize = 0;
    assert(base + change_lines(views).take(0) =~= base);
    while i < changes.len()
        invariant
            i <= changes@.len(),
            views == Seq::new(changes@.len(), |i: int| changes@[i]@),
            diff_lines(lines@) == base + change_lines(views).take(i as int),
        decreases changes.len() - i,
    {
        let c = &changes[i];
        let line = DiffLine {
            kind: c.kind,
            old_no: number(c.old_index),
            new_no: number(c.new_index),
            text: chopped(c.value.as_str()),
        };
        proof {
            assert(line@ =~= change_line(views[i as int]));
            assert(diff_lines(lines@.push(line)) =~= diff_lines(lines@).push(line@));
            assert(base + change_lines(views).take(i + 1) =~= (base + change_lines(views).take(
                i as int,
            )).push(line@));
        }
        lines.push(line);
        i = i + 1;
    }
    assert(change_lines(views).take(i as int) =~= change_lines(views));
}

/// `end - start`, or zero.
fn span_of(start: usize, end: usize) -> (r: usize)
    ensures
        r == span(start, end),
{
    if start < end {
        end - start
    } else {
        0
    }
}

/// The header of a nonempty group.
fn header_of(group: &Vec<LineOp>) -> (r: String)
    requires
        group@.len() > 0,
    ensures
        r@ == hunk_header(group_view(group@)),
{
    let first = &group[0];
    let last = &group[group.len() - 1];
    proof {
        assert(group_view(group@)[0] == first@);
        assert(group_view(group@).last() == last@);
    }
    let mut s = String::new();
    crate::text::push_text(&mut s, "@@ -");
    crate::text::push_decimal(&mut s, first.old_range.start.wrapping_add(1) as u64);
    crate::text::push_text(&mut s, ",");
    crate::text::push_decimal(&mut s, span_of(first.old_range.start, last.old_range.end) as u64);
    crate::text::push_text(&mut s, " +");
    crate::text::push_decimal(&mut s, first.new_range.start.wrapping_add(1) as u64);
    crate::text::push_text(&mut s, ",");
    crate::text::push_decimal(&mut s, span_of(first.new_range.start, last.new_range.end) as u64);
    crate::text::push_text(&mut s, " @@");
    assert(s@ =~= hunk_header(group_view(group@)));
    s
}

/// The hunk of a nonempty group.
fn hunk_of(group: &Vec<LineOp>) -> (r: Hunk)
    requires
        group@.len() > 0,
    ensures
        r@ == (HunkView {
            header: hunk_header(group_view(group@)),
            lines: group_lines(group_view(group@)),
        }),
{
    let header = header_of(group);
    let mut lines: Vec<DiffLine> = Vec::new();
    let ghost ops = group_view(group@);
    let mut i: usize = 0;
    assert(diff_lines(lines@) =~= group_lines(ops.take(0)));
    while i < group.len()
        invariant
            i <= group@.len(),
            ops == group_view(group@),
            diff_lines(lines@) == group_lines(ops.take(i as int)),
        decreases group.len() - i,
    {
        push_changes(&group[i].changes, &mut lines);
        proof {
            assert(ops.take(i + 1).drop_last() =~= ops.take(i as int));
            assert(ops.take(i + 1).last() == group@[i as int]@);
        }
        i = i + 1;
    }
    assert(ops.take(i as int) =~= ops);
    Hunk { header, lines }
}

/// Counts the added and the deleted lines, and finds the highest number.
fn tally(hunks: &Vec<Hunk>) -> (r: (u32, u32, u32))
    ensures
        ({
            let lines = hunks_lines(hunk_views(hunks@));
            &&& r.0 == count_kind(lines, LineKind::Add) % 0x1_0000_0000
            &&& r.1 == count_kind(lines, LineKind::Del) % 0x1_0000_0000
            &&& r.2 == max_no(lines)
        }),
{
    let mut additions: u32 = 0;
    let mut deletions: u32 = 0;
    let mut max_line: u32 = 0;
    let ghost views = hunk_views(hunks@);
    let mut i: usize = 0;
    assert(hunks_lines(views.take(0)) =~= Seq::empty());
    while i < hunks.len()
        invariant
            i <= hunks@.len(),
            views == hunk_views(hunks@),
            ({
                let lines = hunks_lines(views.take(i as int));
                &&& additions == count_kind(lines, LineKind::Add) % 0x1_0000_0000
                &&& deletions == count_kind(lines, LineKind::Del) % 0x1_0000_0000
                &&& max_line == max_no(lines)
            }),
        decreases hunks.len() - i,
    {
        let ghost before = hunks_lines(views.take(i as int));
        let ghost mine = views[i as int].lines;
        let lines = &hunks[i].lines;
        let mut j: usize = 0;
        proof {
            assert(before + mine.take(0) =~= before);
            assert(mine == diff_lines(lines@));
        }
        while j < lines.len()
            invariant
                j <= lines@.len(),
                mine == diff_lines(lines@),
                ({
                    let seen = before + mine.take(j as int);
                    &&& additions == count_kind(seen, LineKind::Add) % 0x1_0000_0000
                    &&& deletions == count_kind(seen, LineKind::Del) % 0x1_0000_0000
                    &&& max_line == max_no(seen)
                }),
            decreases lines.len() - j,
        {
            let line = &lines[j];
            proof {
                let next = before + mine.take(j + 1);
                assert(next.drop_last() =~= before + mine.take(j as int));
                assert(next.last() == line@);
            }
            if line.kind == LineKind::Add {
                additions = additions.wrapping_add(1);
            }
            if line.kind == LineKind::Del {
                deletions = deletions.wrapping_add(1);
            }
            let old_no: u32 = match line.old_no {
                Some(n) => n,
                None => 0,
            };
            let new_no: u32 = match line.new_no {
                Some(n) => n,
                None => 0,
            };
            if old_no > max_line {
                max_line = old_no;
            }
            if new_no > max_line {
                max_line = new_no;
            }
            j = j + 1;
        }
        proof {
            assert(mine.take(j as int) =~= mine);
            assert(views.take(i + 1).drop_last() =~= views.take(i as int));
        }
        i = i + 1;
    }
    assert(views.take(i as int) =~= views);
    (additions, deletions, max_line)
}

/// The file that groups of line operations make.
pub fn file_of_groups(path: &str, created: bool, groups: &Vec<Vec<LineOp>>) -> (r: FileDiff)
    ensures
        r@ == file_view(path@, created, group_views(groups@)),
{
    let mut hunks: Vec<Hunk> = Vec::new();
    let ghost views = group_views(groups@);
    let mut i: usize = 0;
    assert(hunk_views(hunks@) =~= groups_hunks(views.take(0)));
    while i < groups.len()
        invariant
            i <= groups@.len(),
            views == group_views(groups@),
            hunk_views(hunks@) == groups_hunks(views.take(i as int)),
        decreases groups.len() - i,
    {
        proof {
            assert(views.take(i + 1).drop_last() =~= views.take(i as int));
            assert(views.take(i + 1).last() == group_view(groups@[i as int]@));
        }
        if groups[i].len() > 0 {
            let hunk = hunk_of(&groups[i]);
            assert(hunk_views(hunks@.push(hunk)) =~= hunk_views(hunks@).push(hunk@));
            hunks.push(hunk);
        }
        i = i + 1;
    }
    assert(views.take(i as int) =~= views);
    let (additions, deletions, max_line) = tally(&hunks);
    let notices: Vec<String> = Vec::new();
    assert(crate::text::texts(notices@) =~= Seq::empty());
    FileDiff {
        path: path.to_owned(),
        old_path: None,
        status: if created {
            FileStatus::Added
        } else {
            FileStatus::Modified
        },
        binary: false,
        notices,
        hunks,
        additions,
        deletions,
        max_line,
    }
}

/// Reduces an edit to hunks: changes grouped with [`CONTEXT_LINES`] lines of
/// context, 1-based line numbers on both sides, unified-diff headers, and the
/// counts of added and deleted lines.
pub fn diff_to_file(diff: &ToolDiff) -> (r: FileDiff)
    ensures
        r@ == diff_file(*diff),
{
    let groups = match &diff.old_text {
        Some(t) => compare_lines(t.as_str(), diff.new_text.as_str(), CONTEXT_LINES),
        None => compare_lines("", diff.new_text.as_str(), CONTEXT_LINES),
    };
    file_of_groups(diff.path.as_str(), diff.old_text.is_none(), &groups)
}

/// `hunks` cut to their first `max` lines; a hunk none of whose lines is left
/// goes too.
pub open spec fn cut_hunks(hunks: Seq<HunkView>, max: nat) -> Seq<HunkView>
    decreases hunks.len(),
{
    if hunks.len() == 0 || max == 0 {
        Seq::empty()
    } else if hunks[0].lines.len() <= max {
        seq![hunks[0]] + cut_hunks(hunks.skip(1), (max - hunks[0].lines.len()) as nat)
    } else {
        seq![HunkView { header: hunks[0].header, lines: hunks[0].lines.take(max as int) }]
    }
}

/// `file` cut to its first `max` lines.
pub open spec fn cut_file(file: FileDiffView, max: nat) -> FileDiffView {
    FileDiffView { hunks: cut_hunks(file.hunks, max), ..file }
}

/// Cuts a file's diff to its first `max` lines.
pub fn truncate_file_lines(file: FileDiff, max: usize) -> (r: FileDiff)
    ensures
        r@ == cut_file(file@, max as nat),
{
    let FileDiff {
        path,
        old_path,
        status,
        binary,
        notices,
        hunks,
        additions,
        deletions,
        max_line,
    } = file;
    let ghost views = hunk_views(hunks@);
    let ghost all = hunks@;
    let mut hunks = hunks;
    let mut kept: Vec<Hunk> = Vec::new();
    let mut left: usize = max;
    let n: usize = hunks.len();
    let mut i: usize = 0;
    proof {
        assert(views.skip(0) =~= views);
        assert(hunk_views(kept@) + cut_hunks(views, max as nat) =~= cut_hunks(views, max as nat));
    }
    while i < n && left > 0
        invariant
            i <= n,
            n == hunks@.len(),
            n == all.len(),
            views == hunk_views(all),
            forall|j: int| i <= j < n ==> hunks@[j] == all[j],
            hunk_views(kept@) + cut_hunks(views.skip(i as int), left as nat) == cut_hunks(
                views,
                max as nat,
            ),
        decreases n - i,
    {
        let mut hunk = Hunk { header: String::new(), lines: Vec::new() };
        std::mem::swap(&mut hunk, &mut hunks[i]);
        assert(hunk == all[i as int]);
        let ghost rest = views.skip(i as int);
        assert(rest[0] == hunk@);
        assert(rest.skip(1) =~= views.skip(i + 1));
        let ghost before = hunk_views(kept@);
        if hunk.lines.len() <= left {
            left = left - hunk.lines.len();
            proof {
                assert(hunk_views(kept@.push(hunk)) =~= before.push(hunk@));
                assert(before + cut_hunks(rest, (left + hunk.lines@.len()) as nat) =~= before.push(
                    hunk@,
                ) + cut_hunks(views.skip(i + 1), left as nat));
            }
            kept.push(hunk);
        } else {
            let ghost whole = hunk@;
            hunk.lines.truncate(left);
            proof {
                assert(diff_lines(hunk.lines@) =~= whole.lines.take(left as int));
                assert(hunk_views(kept@.push(hunk)) =~= before.push(hunk@));
                assert(before + cut_hunks(rest, left as nat) =~= before.push(hunk@)
                    + cut_hunks(views.skip(i + 1), 0));
            }
            left = 0;
            kept.push(hunk);
        }
        i = i + 1;
    }
    proof {
        assert(cut_hunks(views.skip(i as int), left as nat) =~= Seq::empty());
        assert(hunk_views(kept@) =~= cut_hunks(views, max as nat));
    }
    FileDiff {
        path,
        old_path,
        status,
        binary,
        notices,
        hunks: kept,
        additions,
        deletions,
        max_line,
    }
}

proof fn lemma_first_hunk(hunks: Seq<HunkView>)
    requires
        hunks.len() > 0,
    ensures
        hunks_lines(hunks) == hunks[0].lines + hunks_lines(hunks.skip(1)),
    decreases hunks.len(),
{
    if hunks.len() == 1 {
        assert(hunks.drop_last() =~= Seq::empty());
        assert(hunks.skip(1) =~= Seq::empty());
        assert(hunks_lines(hunks) =~= hunks[0].lines + hunks_lines(hunks.skip(1)));
    } else {
        let init = hunks.drop_last();
        lemma_first_hunk(init);
        assert(init.skip(1) =~= hunks.skip(1).drop_last());
        assert(hunks_lines(hunks) =~= hunks[0].lines + hunks_lines(hunks.skip(1)));
    }
}

proof fn lemma_cut_lines(hunks: Seq<HunkView>, max: nat)
    ensures
        hunks_lines(cut_hunks(hunks, max)) == hunks_lines(hunks).take(
            if max < hunks_lines(hunks).len() {
                max as int
            } else {
                hunks_lines(hunks).len() as int
            },
        ),
    decreases hunks.len(),
{
    let all = hunks_lines(hunks);
    let cut = cut_hunks(hunks, max);
    if hunks.len() == 0 || max == 0 {
        assert(hunks_lines(cut) =~= all.take(0));
    } else {
        let first = hunks[0].lines;
        lemma_first_hunk(hunks);
        lemma_first_hunk(cut);
        if first.len() <= max {
            let rest = cut_hunks(hunks.skip(1), (max - first.len()) as nat);
            lemma_cut_lines(hunks.skip(1), (max - first.len()) as nat);
            assert(cut.skip(1) =~= rest);
            assert(hunks_lines(cut) =~= all.take(
                if max < all.len() {
                    max as int
                } else {
                    all.len() as int
                },
            ));
        } else {
            assert(cut.skip(1) =~= Seq::empty());
            assert(hunks_lines(cut.skip(1)) =~= Seq::empty());
            assert(hunks_lines(cut) =~= all.take(max as int));
        }
    }
}

/// A diff that is cut keeps its first lines, as many as asked for and no more,
/// and goes on telling how many were added and deleted in all.
pub proof fn law_cut_keeps_the_first_lines(file: FileDiffView, max: nat)
    ensures
        ({
            let all = hunks_lines(file.hunks);
            let kept = hunks_lines(cut_file(file, max).hunks);
            &&& kept == all.take(
                if max < all.len() {
                    max as int
                } else {
                    all.len() as int
                },
            )
            &&& kept.len() <= max
            &&& cut_file(file, max).additions == file.additions
            &&& cut_file(file, max).deletions == file.deletions
        }),
{
    lemma_cut_lines(file.hunks, max);
}

} // verus!
