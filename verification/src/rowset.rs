//! Changes of a row set, and the space between rows.
use std::ops::Range;

use vstd::prelude::*;

use crate::rows::{Row, RowKind};

verus! {

/// What two rows are told apart by.
pub open spec fn row_key(row: crate::rows::RowView) -> (Seq<char>, u64) {
    (row.id, row.version)
}

/// The keys of a sequence of rows.
pub open spec fn row_keys(rows: Seq<crate::rows::RowView>) -> Seq<(Seq<char>, u64)> {
    Seq::new(rows.len(), |i: int| row_key(rows[i]))
}

/// How many elements two sequences begin with alike.
pub open spec fn shared_prefix<T>(a: Seq<T>, b: Seq<T>) -> nat
    decreases a.len(),
{
    if a.len() > 0 && b.len() > 0 && a[0] == b[0] {
        1 + shared_prefix(a.skip(1), b.skip(1))
    } else {
        0
    }
}

/// How many elements two sequences end with alike.
pub open spec fn shared_suffix<T>(a: Seq<T>, b: Seq<T>) -> nat
    decreases a.len(),
{
    if a.len() > 0 && b.len() > 0 && a.last() == b.last() {
        1 + shared_suffix(a.drop_last(), b.drop_last())
    } else {
        0
    }
}

/// A splice: the elements from `start` to `end` give way to `count` new ones.
pub struct Splice {
    pub start: nat,
    pub end: nat,
    pub count: nat,
}

/// The splice that keeps what both sequences begin with, and of what is left
/// what both end with.
pub open spec fn splice_of<T>(old: Seq<T>, new: Seq<T>) -> Splice {
    let start = shared_prefix(old, new);
    let tail = shared_suffix(old.skip(start as int), new.skip(start as int));
    Splice {
        start,
        end: (old.len() - tail) as nat,
        count: (new.len() - tail - start) as nat,
    }
}

/// `old` with the splice done, the new elements taken from `new`.
pub open spec fn spliced<T>(old: Seq<T>, new: Seq<T>, s: Splice) -> Seq<T> {
    old.take(s.start as int) + new.subrange(s.start as int, (s.start + s.count) as int) + old.skip(
        s.end as int,
    )
}

/// Whether `s` is a splice of `old` that can turn it into `new`.
pub open spec fn splices<T>(old: Seq<T>, new: Seq<T>, s: Splice) -> bool {
    &&& s.start <= s.end <= old.len()
    &&& s.start + s.count <= new.len()
    &&& spliced(old, new, s) == new
}

proof fn lemma_prefix<T>(a: Seq<T>, b: Seq<T>)
    ensures
        shared_prefix(a, b) <= a.len(),
        shared_prefix(a, b) <= b.len(),
        forall|i: int| 0 <= i < shared_prefix(a, b) ==> a[i] == b[i],
        shared_prefix(a, b) < a.len() && shared_prefix(a, b) < b.len() ==> a[shared_prefix(
            a,
            b,
        ) as int] != b[shared_prefix(a, b) as int],
    decreases a.len(),
{
    if a.len() > 0 && b.len() > 0 && a[0] == b[0] {
        let c = a.skip(1);
        let d = b.skip(1);
        lemma_prefix(c, d);
        assert forall|i: int| 0 <= i < shared_prefix(a, b) implies a[i] == b[i] by {
            if i > 0 {
                assert(c[i - 1] == d[i - 1]);
            }
        }
    }
}

proof fn lemma_suffix<T>(a: Seq<T>, b: Seq<T>)
    ensures
        shared_suffix(a, b) <= a.len(),
        shared_suffix(a, b) <= b.len(),
        forall|j: int|
            a.len() - shared_suffix(a, b) <= j < a.len() ==> #[trigger] a[j] == b[j + b.len()
                - a.len()],
        shared_suffix(a, b) < a.len() && shared_suffix(a, b) < b.len() ==> a[a.len() - 1
            - shared_suffix(a, b)] != b[b.len() - 1 - shared_suffix(a, b)],
    decreases a.len(),
{
    if a.len() > 0 && b.len() > 0 && a.last() == b.last() {
        let c = a.drop_last();
        let d = b.drop_last();
        lemma_suffix(c, d);
        assert forall|j: int| a.len() - shared_suffix(a, b) <= j < a.len() implies #[trigger] a[j]
            == b[j + b.len() - a.len()] by {
            if j < a.len() - 1 {
                assert(c[j] == d[j + d.len() - c.len()]);
            }
        }
    }
}

proof fn lemma_prefix_is<T>(a: Seq<T>, b: Seq<T>, n: nat)
    requires
        n <= a.len(),
        n <= b.len(),
        forall|i: int| 0 <= i < n ==> #[trigger] a[i] == b[i],
        n < a.len() && n < b.len() ==> a[n as int] != b[n as int],
    ensures
        shared_prefix(a, b) == n,
{
    lemma_prefix(a, b);
    let p = shared_prefix(a, b);
    if p < n {
        assert(a[p as int] == b[p as int]);
    }
    if p > n {
        assert(a[n as int] == b[n as int]);
    }
}

proof fn lemma_suffix_is<T>(a: Seq<T>, b: Seq<T>, n: nat)
    requires
        n <= a.len(),
        n <= b.len(),
        forall|j: int|
            a.len() - n <= j < a.len() ==> #[trigger] a[j] == b[j + b.len() - a.len()],
        n < a.len() && n < b.len() ==> a[a.len() - 1 - n] != b[b.len() - 1 - n],
    ensures
        shared_suffix(a, b) == n,
{
    lemma_suffix(a, b);
    let p = shared_suffix(a, b);
    if p < n {
        let j = a.len() - 1 - p;
        assert(a[j] == b[j + b.len() - a.len()]);
    }
    if p > n {
        let j = a.len() - 1 - n;
        assert(a[j] == b[j + b.len() - a.len()]);
    }
}

/// Whether two rows are the same row with the same content.
fn same_row(a: &Row, b: &Row) -> (r: bool)
    ensures
        r == (row_key(a@) == row_key(b@)),
{
    a.version == b.version && a.id == b.id
}

/// The smallest splice that turns one row set into another: the range of old
/// rows that goes and the number of new ones in its place, or nothing where
/// the two are the same by id and version.
pub fn diff_rows(old: &Vec<Row>, new: &Vec<Row>) -> (r: Option<(Range<usize>, usize)>)
    ensures
        ({
            let a = row_keys(crate::rows::row_views(old@));
            let b = row_keys(crate::rows::row_views(new@));
            let s = splice_of(a, b);
            match r {
                None => a == b,
                Some((range, count)) => a != b && range.start == s.start && range.end == s.end
                    && count == s.count,
            }
        }),
{
    let ghost a = row_keys(crate::rows::row_views(old@));
    let ghost b = row_keys(crate::rows::row_views(new@));
    let most: usize = if old.len() <= new.len() {
        old.len()
    } else {
        new.len()
    };
    let mut prefix: usize = 0;
    while prefix < most && same_row(&old[prefix], &new[prefix])
        invariant
            prefix <= most,
            most <= old@.len(),
            most <= new@.len(),
            a == row_keys(crate::rows::row_views(old@)),
            b == row_keys(crate::rows::row_views(new@)),
            forall|i: int| 0 <= i < prefix ==> #[trigger] a[i] == b[i],
        decreases most - prefix,
    {
        assert(a[prefix as int] == row_key(old@[prefix as int]@));
        assert(b[prefix as int] == row_key(new@[prefix as int]@));
        prefix = prefix + 1;
    }
    proof {
        if prefix < most {
            assert(a[prefix as int] == row_key(old@[prefix as int]@));
            assert(b[prefix as int] == row_key(new@[prefix as int]@));
        }
        lemma_prefix_is(a, b, prefix as nat);
    }
    if prefix == old.len() && prefix == new.len() {
        assert(a =~= b);
        return None;
    }
    proof {
        if a == b {
            if prefix < most {
                assert(a[prefix as int] == b[prefix as int]);
            }
            assert(a.len() == b.len());
        }
        assert(a != b);
    }
    let rest: usize = most - prefix;
    let ghost c = a.skip(prefix as int);
    let ghost d = b.skip(prefix as int);
    let mut suffix: usize = 0;
    while suffix < rest && same_row(&old[old.len() - 1 - suffix], &new[new.len() - 1 - suffix])
        invariant
            suffix <= rest,
            rest == most - prefix,
            prefix <= most,
            most <= old@.len(),
            most <= new@.len(),
            a == row_keys(crate::rows::row_views(old@)),
            b == row_keys(crate::rows::row_views(new@)),
            c == a.skip(prefix as int),
            d == b.skip(prefix as int),
            forall|j: int|
                c.len() - suffix <= j < c.len() ==> #[trigger] c[j] == d[j + d.len() - c.len()],
        decreases rest - suffix,
    {
        assert(c[c.len() - 1 - suffix] == row_key(old@[old@.len() - 1 - suffix]@));
        assert(d[d.len() - 1 - suffix] == row_key(new@[new@.len() - 1 - suffix]@));
        suffix = suffix + 1;
    }
    proof {
        if suffix < rest {
            assert(c[c.len() - 1 - suffix] == row_key(old@[old@.len() - 1 - suffix]@));
            assert(d[d.len() - 1 - suffix] == row_key(new@[new@.len() - 1 - suffix]@));
        }
        lemma_suffix_is(c, d, suffix as nat);
    }
    Some((prefix..old.len() - suffix, new.len() - suffix - prefix))
}

/// Doing the splice turns the old rows into the new ones.
pub proof fn law_splice_gives_new<T>(old: Seq<T>, new: Seq<T>)
    ensures
        splices(old, new, splice_of(old, new)),
{
    let s = splice_of(old, new);
    let p = s.start as int;
    lemma_prefix(old, new);
    lemma_suffix(old.skip(p), new.skip(p));
    let tail = old.len() - s.end;
    let got = spliced(old, new, s);
    assert(got.len() == new.len());
    assert forall|i: int| 0 <= i < new.len() implies got[i] == new[i] by {
        if i < p {
        } else if i < p + s.count {
        } else {
            let c = old.skip(p);
            let d = new.skip(p);
            let j = i - p + c.len() - d.len();
            assert(c[j] == d[j + d.len() - c.len()]);
        }
    }
    assert(got =~= new);
}

/// No splice that turns the old rows into the new ones touches fewer rows,
/// old or new.
pub proof fn law_splice_is_minimal<T>(old: Seq<T>, new: Seq<T>, other: Splice)
    requires
        splices(old, new, other),
    ensures
        splice_of(old, new).end - splice_of(old, new).start <= other.end - other.start,
        splice_of(old, new).count <= other.count,
{
    let s = splice_of(old, new);
    let p = s.start as int;
    lemma_prefix(old, new);
    let c = old.skip(p);
    let d = new.skip(p);
    lemma_suffix(c, d);
    let tail = (old.len() - s.end) as nat;
    let got = spliced(old, new, other);
    assert(got == new);
    let a = other.start as int;
    let q = old.len() - other.end;
    assert(got.len() == a + other.count + q);
    assert(a <= p) by {
        if a > p {
            assert(got[p] == old[p]);
            assert(new[p] == old[p]);
        }
    }
    assert(a + q <= p + tail) by {
        if a + q > p + tail {
            assert(tail < q);
            assert(tail < c.len() && tail < d.len());
            let i = new.len() - 1 - tail;
            assert(got[i] == old[old.len() - 1 - tail]);
            assert(d[d.len() - 1 - tail] == new[i]);
            assert(c[c.len() - 1 - tail] == old[old.len() - 1 - tail]);
        }
    }
}

/// Two row sets differ in nothing if and only if their splice is empty.
pub proof fn law_empty_splice_means_equal<T>(old: Seq<T>, new: Seq<T>)
    ensures
        old == new <==> (splice_of(old, new).start == splice_of(old, new).end && splice_of(
            old,
            new,
        ).count == 0),
{
    law_splice_gives_new(old, new);
    let s = splice_of(old, new);
    lemma_prefix(old, new);
    lemma_suffix(old.skip(s.start as int), new.skip(s.start as int));
    if old == new {
        if s.start < old.len() {
            assert(old[s.start as int] != new[s.start as int]);
        }
    } else if s.start == s.end && s.count == 0 {
        assert(spliced(old, new, s) =~= old);
    }
}

// ---------------------------------------------------------------------------
// Gaps
// ---------------------------------------------------------------------------

/// The space above a row.
#[derive(Clone, Copy, PartialEq, Eq, Structural, Debug)]
pub enum RowGap {
    /// Between turns.
    Turn,
    /// Between the markdown blocks of one part.
    MarkdownBlock,
    /// At a tool group.
    Tools,
    /// Between any other rows.
    Row,
}

/// The index of the last period, where there is one.
pub open spec fn last_dot(s: Seq<char>) -> Option<int>
    decreases s.len(),
{
    if s.len() == 0 {
        None
    } else if s.last() == '.' {
        Some(s.len() - 1)
    } else {
        last_dot(s.drop_last())
    }
}

/// What an id says before its block index: everything up to the last period.
pub open spec fn prefix_of(id: Seq<char>) -> Seq<char> {
    match last_dot(id) {
        Some(i) => id.take(i),
        None => id,
    }
}

/// Whether a row is a markdown block.
pub open spec fn is_markdown(kind: crate::rows::KindView) -> bool {
    kind is Markdown || kind is LiveMarkdown
}

/// The space above `row`, given the row before it.
pub open spec fn gap_above(
    prev: Option<crate::rows::RowView>,
    row: crate::rows::RowView,
) -> RowGap {
    if row.turn_start {
        RowGap::Turn
    } else if prev matches Some(p) && is_markdown(p.kind) && is_markdown(row.kind) && prefix_of(
        p.id,
    ) == prefix_of(row.id) {
        RowGap::MarkdownBlock
    } else if row.kind is ToolGroup || (prev matches Some(p) && p.kind is ToolGroup) {
        RowGap::Tools
    } else {
        RowGap::Row
    }
}

proof fn lemma_last_dot(s: Seq<char>, k: int)
    requires
        0 <= k <= s.len(),
        forall|j: int| k <= j < s.len() ==> #[trigger] s[j] != '.',
        k > 0 ==> s[k - 1] == '.',
    ensures
        last_dot(s) == if k > 0 {
            Some(k - 1)
        } else {
            None::<int>
        },
    decreases s.len() - k,
{
    if k < s.len() {
        assert(s[s.len() - 1] != '.');
        lemma_last_dot(s.drop_last(), k);
    }
}

/// The part that a markdown row's id names.
pub fn part_prefix(id: &str) -> (r: String)
    ensures
        r@ == prefix_of(id@),
{
    let v = crate::text::chars_of(id);
    let mut k: usize = v.len();
    while k > 0 && v[k - 1] != '.'
        invariant
            k <= v@.len(),
            v@ == id@,
            forall|j: int| k <= j < v@.len() ==> #[trigger] v@[j] != '.',
        decreases k,
    {
        k = k - 1;
    }
    proof {
        lemma_last_dot(id@, k as int);
    }
    if k == 0 {
        crate::text::text_of(&v)
    } else {
        assert(id@.take(k - 1) =~= v@.subrange(0, k - 1));
        crate::text::text_between(&v, 0, k - 1)
    }
}

/// The row behind an optional reference.
pub open spec fn opt_row(row: Option<&Row>) -> Option<crate::rows::RowView> {
    match row {
        Some(r) => Some(r@),
        None => None,
    }
}

fn markdown_row(kind: &RowKind) -> (r: bool)
    ensures
        r == is_markdown(kind@),
{
    match kind {
        RowKind::Markdown { .. } => true,
        RowKind::LiveMarkdown { .. } => true,
        _ => false,
    }
}

fn group_kind(kind: &RowKind) -> (r: bool)
    ensures
        r == (kind@ is ToolGroup),
{
    match kind {
        RowKind::ToolGroup { .. } => true,
        _ => false,
    }
}

/// The space above `row`, given the row before it: the turn gap where a turn
/// starts; between the blocks of one text part the gap that blocks have inside
/// a row; a larger step at a tool group.
pub fn top_gap_for(prev: Option<&Row>, row: &Row) -> (r: RowGap)
    ensures
        r == gap_above(opt_row(prev), row@),
{
    if row.turn_start {
        return RowGap::Turn;
    }
    if let Some(p) = prev {
        if markdown_row(&p.kind) && markdown_row(&row.kind) {
            let mine = part_prefix(row.id.as_str());
            let theirs = part_prefix(p.id.as_str());
            if mine == theirs {
                return RowGap::MarkdownBlock;
            }
        }
        if group_kind(&p.kind) {
            return RowGap::Tools;
        }
    }
    if group_kind(&row.kind) {
        RowGap::Tools
    } else {
        RowGap::Row
    }
}

} // verus!
