//! What holds of the rows of every entry.
use std::sync::Arc;

use vstd::prelude::*;

use crate::markdown::BlockTree;
use crate::message::{MessagePart, MessageRole, SessionMessageEntry, UserBody};

verus! {

/// Whether a group's chips are all spawn chips or none is, and there are some.
pub open spec fn uniform(tools: Seq<crate::tools::ItemView>) -> bool {
    forall|i: int, j: int|
        0 <= i < tools.len() && 0 <= j < tools.len() ==> (#[trigger] tools[i]).facts.spawn == (
        #[trigger] tools[j]).facts.spawn
}

/// What holds of a row between the first and the last.
pub open spec fn inner(entry: SessionMessageEntry, row: crate::rows::RowView) -> bool {
    &&& row.entry_id == entry.id@
    &&& !row.turn_start
    &&& row.timestamp is None
    &&& row.copy_text is None
    &&& grouped(entry, row)
}

/// What holds of a row's group, where it is one.
pub open spec fn grouped(entry: SessionMessageEntry, row: crate::rows::RowView) -> bool {
    match row.kind {
        crate::rows::KindView::ToolGroup { tools, auto_open } => tools.len() > 0 && uniform(tools)
            && (auto_open ==> entry.streaming()),
        crate::rows::KindView::LiveMarkdown { .. } => entry.streaming(),
        crate::rows::KindView::Markdown { .. } => !entry.streaming(),
        crate::rows::KindView::User { .. } => false,
        _ => true,
    }
}

/// What holds of the rows under construction.
pub open spec fn sound(entry: SessionMessageEntry, st: crate::rows::RowState) -> bool {
    &&& forall|i: int| 0 <= i < st.rows.len() ==> inner(entry, #[trigger] st.rows[i])
    &&& uniform(st.group)
}

/// The chip of the thought at a part.
spec fn thought_at(trees: Seq<Arc<BlockTree>>, ix: nat, live: bool) -> crate::tools::ItemView {
    crate::tools::thought_chip(*trees[ix as int], live)
}

proof fn lemma_flushed_sound(entry: SessionMessageEntry, st: crate::rows::RowState)
    requires
        sound(entry, st),
    ensures
        sound(entry, crate::rows::flushed(entry, st)),
{
    let next = crate::rows::flushed(entry, st);
    if st.group.len() > 0 {
        assert forall|i: int| 0 <= i < next.rows.len() implies inner(
            entry,
            #[trigger] next.rows[i],
        ) by {
            if i < st.rows.len() {
                assert(inner(entry, st.rows[i]));
            }
        }
    }
}

proof fn lemma_joined_sound(
    entry: SessionMessageEntry,
    st: crate::rows::RowState,
    item: crate::tools::ItemView,
    ix: nat,
)
    requires
        sound(entry, st),
    ensures
        sound(entry, crate::rows::joined(entry, st, item, ix)),
{
    lemma_flushed_sound(entry, st);
    let open = if st.group.len() > 0 && st.group[0].facts.spawn != item.facts.spawn {
        crate::rows::flushed(entry, st)
    } else {
        st
    };
    let next = crate::rows::joined(entry, st, item, ix);
    assert forall|i: int, j: int| 0 <= i < next.group.len() && 0 <= j < next.group.len() implies (
    #[trigger] next.group[i]).facts.spawn == (#[trigger] next.group[j]).facts.spawn by {
        if open.group.len() > 0 {
            assert(open.group[0].facts.spawn == item.facts.spawn);
            if i < open.group.len() {
                assert(open.group[i].facts.spawn == open.group[0].facts.spawn);
            }
            if j < open.group.len() {
                assert(open.group[j].facts.spawn == open.group[0].facts.spawn);
            }
        }
    }
}

proof fn lemma_built_sound(entry: SessionMessageEntry, trees: Seq<Arc<BlockTree>>, n: nat)
    requires
        n <= entry.parts@.len(),
    ensures
        sound(entry, crate::rows::built(entry, trees, n)),
    decreases n,
{
    if n > 0 {
        let st = crate::rows::built(entry, trees, (n - 1) as nat);
        let ix = (n - 1) as nat;
        lemma_built_sound(entry, trees, ix);
        lemma_flushed_sound(entry, st);
        let part = entry.parts@[ix as int];
        match part {
            MessagePart::Tool { .. } => {
                lemma_joined_sound(entry, st, crate::rows::part_chip(part), ix);
            },
            MessagePart::Reasoning { id, text } => {
                let live = entry.streaming() && ix == crate::rows::last_part(entry);
                lemma_joined_sound(
                    entry,
                    st,
                    thought_at(trees, ix, live),
                    ix,
                );
            },
            _ => {
                let flushed = crate::rows::flushed(entry, st);
                let next = crate::rows::stepped(entry, trees, st, ix);
                assert forall|i: int| 0 <= i < next.rows.len() implies inner(
                    entry,
                    #[trigger] next.rows[i],
                ) by {
                    if i < flushed.rows.len() {
                        assert(next.rows[i] == flushed.rows[i]);
                        assert(inner(entry, flushed.rows[i]));
                    }
                }
            },
        }
    }
}

proof fn lemma_unsettled(entry: SessionMessageEntry, trees: Seq<Arc<BlockTree>>)
    ensures
        forall|i: int|
            0 <= i < crate::rows::flushed(
                entry,
                crate::rows::built(entry, trees, entry.parts@.len()),
            ).rows.len() ==> inner(
                entry,
                #[trigger] crate::rows::flushed(
                    entry,
                    crate::rows::built(entry, trees, entry.parts@.len()),
                ).rows[i],
            ),
{
    lemma_built_sound(entry, trees, entry.parts@.len());
    lemma_flushed_sound(entry, crate::rows::built(entry, trees, entry.parts@.len()));
}

/// Every row of an entry bears its id, the first row alone opens the turn, and
/// the last row alone bears the entry's time and what copying it gives, once the
/// entry has settled; a prompt always has.
pub proof fn law_rows_of_an_entry(
    entry: SessionMessageEntry,
    pending: bool,
    body: UserBody,
    trees: Seq<Arc<BlockTree>>,
    i: int,
)
    requires
        0 <= i < crate::rows::entry_rows(entry, pending, body, trees).len(),
    ensures
        ({
            let rows = crate::rows::entry_rows(entry, pending, body, trees);
            let done = entry.role == MessageRole::User || !entry.streaming();
            &&& rows[i].entry_id == entry.id@
            &&& rows[i].turn_start == (i == 0)
            &&& rows[i].timestamp == if i == rows.len() - 1 && done {
                Some(entry.created_at)
            } else {
                None
            }
            &&& rows[i].copy_text is Some ==> i == rows.len() - 1 && done
        }),
{
    if entry.role != MessageRole::User {
        lemma_unsettled(entry, trees);
        let rows = crate::rows::flushed(
            entry,
            crate::rows::built(entry, trees, entry.parts@.len()),
        ).rows;
        assert(inner(entry, rows[i]));
    }
}

/// A tool group holds chips, either spawn chips alone or none of them, and opens
/// by itself only while its entry streams; blocks are live exactly while it
/// does.
pub proof fn law_groups_of_an_entry(
    entry: SessionMessageEntry,
    trees: Seq<Arc<BlockTree>>,
    i: int,
)
    requires
        0 <= i < crate::rows::reply_rows(entry, trees).len(),
    ensures
        grouped(entry, crate::rows::reply_rows(entry, trees)[i]),
{
    lemma_unsettled(entry, trees);
    let rows = crate::rows::flushed(
        entry,
        crate::rows::built(entry, trees, entry.parts@.len()),
    ).rows;
    assert(inner(entry, rows[i]));
    assert(crate::rows::reply_rows(entry, trees)[i].kind == rows[i].kind);
}

/// Whether a part shows as a chip: a tool, or a thought that is not blank.
pub open spec fn shows_as_chip(part: MessagePart) -> bool {
    match part {
        MessagePart::Tool { .. } => true,
        MessagePart::Reasoning { text, .. } => !crate::text::is_blank(text@),
        _ => false,
    }
}

/// The chip of a part that shows as one.
pub open spec fn chip_at(
    entry: SessionMessageEntry,
    trees: Seq<Arc<BlockTree>>,
    ix: nat,
) -> crate::tools::ItemView {
    match entry.parts@[ix as int] {
        MessagePart::Reasoning { .. } => crate::tools::thought_chip(
            *trees[ix as int],
            entry.streaming() && ix == crate::rows::last_part(entry),
        ),
        part => crate::rows::part_chip(part),
    }
}

/// The chips of the first `n` parts, in their order.
pub open spec fn chips_of(
    entry: SessionMessageEntry,
    trees: Seq<Arc<BlockTree>>,
    n: nat,
) -> Seq<crate::tools::ItemView>
    decreases n,
{
    if n == 0 {
        Seq::empty()
    } else {
        let before = chips_of(entry, trees, (n - 1) as nat);
        if shows_as_chip(entry.parts@[n - 1]) {
            before.push(chip_at(entry, trees, (n - 1) as nat))
        } else {
            before
        }
    }
}

/// The chips of a row's group, none where it is no group.
pub open spec fn chips_in(kind: crate::rows::KindView) -> Seq<crate::tools::ItemView> {
    match kind {
        crate::rows::KindView::ToolGroup { tools, .. } => tools,
        _ => Seq::empty(),
    }
}

/// The chips of all groups, one group after the other.
pub open spec fn grouped_chips(rows: Seq<crate::rows::RowView>) -> Seq<crate::tools::ItemView>
    decreases rows.len(),
{
    if rows.len() == 0 {
        Seq::empty()
    } else {
        grouped_chips(rows.drop_last()) + chips_in(rows.last().kind)
    }
}

/// Whether a row is a group that opens by itself.
pub open spec fn opens_itself(row: crate::rows::RowView) -> bool {
    row.kind matches crate::rows::KindView::ToolGroup { auto_open, .. } && auto_open
}

proof fn lemma_chips_push(rows: Seq<crate::rows::RowView>, row: crate::rows::RowView)
    ensures
        grouped_chips(rows.push(row)) == grouped_chips(rows) + chips_in(row.kind),
{
    assert(rows.push(row).drop_last() =~= rows);
}

proof fn lemma_chips_add(a: Seq<crate::rows::RowView>, b: Seq<crate::rows::RowView>)
    requires
        forall|i: int| 0 <= i < b.len() ==> !((#[trigger] b[i]).kind is ToolGroup),
    ensures
        grouped_chips(a + b) == grouped_chips(a),
    decreases b.len(),
{
    if b.len() == 0 {
        assert(a + b =~= a);
    } else {
        let c = b.drop_last();
        assert forall|i: int| 0 <= i < c.len() implies !((#[trigger] c[i]).kind is ToolGroup) by {
            assert(c[i] == b[i]);
        }
        lemma_chips_add(a, c);
        assert((a + b).drop_last() =~= a + c);
        assert(!(b[b.len() - 1].kind is ToolGroup));
        assert(grouped_chips(a + b) =~= grouped_chips(a));
    }
}

proof fn lemma_chips_by_kind(a: Seq<crate::rows::RowView>, b: Seq<crate::rows::RowView>)
    requires
        a.len() == b.len(),
        forall|i: int| 0 <= i < a.len() ==> (#[trigger] a[i]).kind == b[i].kind,
    ensures
        grouped_chips(a) == grouped_chips(b),
    decreases a.len(),
{
    if a.len() > 0 {
        let c = a.drop_last();
        let d = b.drop_last();
        assert forall|i: int| 0 <= i < c.len() implies (#[trigger] c[i]).kind == d[i].kind by {
            assert(c[i] == a[i]);
        }
        lemma_chips_by_kind(c, d);
        assert(a[a.len() - 1].kind == b[b.len() - 1].kind);
    }
}

/// What holds of the rows after `n` parts, before the open group is closed: with
/// it they hold the chips so far, and no group that is closed opens by itself.
spec fn collected(
    entry: SessionMessageEntry,
    trees: Seq<Arc<BlockTree>>,
    st: crate::rows::RowState,
    n: nat,
) -> bool {
    &&& grouped_chips(st.rows) + st.group == chips_of(entry, trees, n)
    &&& st.group.len() > 0 ==> st.last < n
    &&& forall|i: int| 0 <= i < st.rows.len() ==> !opens_itself(#[trigger] st.rows[i])
}

proof fn lemma_flushed_collected(
    entry: SessionMessageEntry,
    trees: Seq<Arc<BlockTree>>,
    st: crate::rows::RowState,
    n: nat,
)
    requires
        collected(entry, trees, st, n),
        n < entry.parts@.len(),
    ensures
        collected(entry, trees, crate::rows::flushed(entry, st), n),
{
    if st.group.len() > 0 {
        let next = crate::rows::flushed(entry, st);
        let row = next.rows.last();
        lemma_chips_push(st.rows, row);
        assert(next.rows =~= st.rows.push(row));
        assert(grouped_chips(next.rows) + next.group =~= grouped_chips(st.rows) + st.group);
        assert forall|i: int| 0 <= i < next.rows.len() implies !opens_itself(
            #[trigger] next.rows[i],
        ) by {
            if i < st.rows.len() {
                assert(next.rows[i] == st.rows[i]);
            }
        }
    }
}

proof fn lemma_joined_collected(
    entry: SessionMessageEntry,
    trees: Seq<Arc<BlockTree>>,
    st: crate::rows::RowState,
    n: nat,
)
    requires
        collected(entry, trees, st, n),
        n < entry.parts@.len(),
        shows_as_chip(entry.parts@[n as int]),
    ensures
        collected(
            entry,
            trees,
            crate::rows::joined(entry, st, chip_at(entry, trees, n), n),
            n + 1,
        ),
{
    let item = chip_at(entry, trees, n);
    lemma_flushed_collected(entry, trees, st, n);
    let open = if st.group.len() > 0 && st.group[0].facts.spawn != item.facts.spawn {
        crate::rows::flushed(entry, st)
    } else {
        st
    };
    assert(grouped_chips(open.rows) + open.group.push(item) =~= (grouped_chips(open.rows)
        + open.group).push(item));
}

proof fn lemma_built_collected(entry: SessionMessageEntry, trees: Seq<Arc<BlockTree>>, n: nat)
    requires
        n <= entry.parts@.len(),
    ensures
        collected(entry, trees, crate::rows::built(entry, trees, n), n),
    decreases n,
{
    let st = crate::rows::built(entry, trees, n);
    if n == 0 {
        assert(grouped_chips(st.rows) + st.group =~= chips_of(entry, trees, 0));
    } else {
        let ix = (n - 1) as nat;
        let before = crate::rows::built(entry, trees, ix);
        lemma_built_collected(entry, trees, ix);
        lemma_flushed_collected(entry, trees, before, ix);
        let flushed = crate::rows::flushed(entry, before);
        match entry.parts@[ix as int] {
            MessagePart::Tool { .. } => {
                lemma_joined_collected(entry, trees, before, ix);
            },
            MessagePart::Reasoning { id, text } => {
                if !crate::text::is_blank(text@) {
                    lemma_joined_collected(entry, trees, before, ix);
                }
            },
            MessagePart::Text { id, text } => {
                if !crate::text::is_blank(text@) {
                    let more = crate::rows::text_rows(
                        entry,
                        crate::rows::part_key(entry.id@, id@),
                        text@,
                        trees[ix as int],
                    );
                    lemma_chips_add(flushed.rows, more);
                    assert(st.rows == flushed.rows + more);
                    assert forall|i: int| 0 <= i < st.rows.len() implies !opens_itself(
                        #[trigger] st.rows[i],
                    ) by {
                        if i < flushed.rows.len() {
                            assert(st.rows[i] == flushed.rows[i]);
                        } else {
                            assert(st.rows[i] == more[i - flushed.rows.len()]);
                        }
                    }
                }
            },
            _ => {
                let row = st.rows.last();
                lemma_chips_push(flushed.rows, row);
                assert(st.rows =~= flushed.rows.push(row));
                assert(grouped_chips(st.rows) =~= grouped_chips(flushed.rows));
                assert forall|i: int| 0 <= i < st.rows.len() implies !opens_itself(
                    #[trigger] st.rows[i],
                ) by {
                    if i < flushed.rows.len() {
                        assert(st.rows[i] == flushed.rows[i]);
                    }
                }
            },
        }
    }
}

/// The groups of an entry hold one chip for each of its tools and for each of its
/// thoughts that is not blank, in the order of the parts, none lost and none
/// twice.
pub proof fn law_groups_hold_every_chip(
    entry: SessionMessageEntry,
    trees: Seq<Arc<BlockTree>>,
)
    ensures
        grouped_chips(crate::rows::reply_rows(entry, trees)) == chips_of(
            entry,
            trees,
            entry.parts@.len(),
        ),
{
    let n = entry.parts@.len();
    let st = crate::rows::built(entry, trees, n);
    let rows = crate::rows::flushed(entry, st).rows;
    lemma_built_collected(entry, trees, n);
    if st.group.len() > 0 {
        lemma_chips_push(st.rows, rows.last());
        assert(rows =~= st.rows.push(rows.last()));
    } else {
        assert(grouped_chips(st.rows) + st.group =~= grouped_chips(st.rows));
    }
    lemma_chips_by_kind(crate::rows::reply_rows(entry, trees), rows);
}

/// A group opens by itself exactly where the entry streams, the group is its last
/// row, and its last part is the chip that the group ends in.
pub proof fn law_the_trailing_group_opens_itself(
    entry: SessionMessageEntry,
    trees: Seq<Arc<BlockTree>>,
    i: int,
)
    requires
        0 <= i < crate::rows::reply_rows(entry, trees).len(),
        crate::rows::reply_rows(entry, trees)[i].kind is ToolGroup,
    ensures
        opens_itself(crate::rows::reply_rows(entry, trees)[i]) == (entry.streaming() && i
            == crate::rows::reply_rows(entry, trees).len() - 1 && shows_as_chip(
            entry.parts@.last(),
        )),
{
    let n = entry.parts@.len();
    let st = crate::rows::built(entry, trees, n);
    let rows = crate::rows::flushed(entry, st).rows;
    lemma_built_collected(entry, trees, n);
    assert(crate::rows::reply_rows(entry, trees)[i].kind == rows[i].kind);
    if n > 0 {
        lemma_built_collected(entry, trees, (n - 1) as nat);
        assert(entry.parts@.last() == entry.parts@[n - 1]);
    }
    if i < st.rows.len() {
        assert(rows[i] == st.rows[i]);
        assert(!opens_itself(st.rows[i]));
    }
}

// ---------------------------------------------------------------------------
// From live to settled
// ---------------------------------------------------------------------------

/// Whether a settled row shows the block of a live one.
pub open spec fn same_block(live: crate::rows::KindView, done: crate::rows::KindView) -> bool {
    match (live, done) {
        (
            crate::rows::KindView::LiveMarkdown { tree: a, block_ix: i },
            crate::rows::KindView::Markdown { tree: b, block_ix: j },
        ) => a == b && i == j,
        _ => false,
    }
}

/// Whether two states under construction have rows of the same ids and open
/// groups of the same shape.
spec fn alike(a: crate::rows::RowState, b: crate::rows::RowState) -> bool {
    &&& a.rows.len() == b.rows.len()
    &&& forall|i: int| 0 <= i < a.rows.len() ==> (#[trigger] a.rows[i]).id == b.rows[i].id
    &&& forall|i: int|
        0 <= i < a.rows.len() && (#[trigger] a.rows[i]).kind is LiveMarkdown ==> same_block(
            a.rows[i].kind,
            b.rows[i].kind,
        ) && a.rows[i].version & 1 == 1 && b.rows[i].version & 1 == 0
    &&& a.group.len() == b.group.len()
    &&& forall|i: int|
        0 <= i < a.group.len() ==> (#[trigger] a.group[i]).facts.spawn == b.group[i].facts.spawn
    &&& a.groups == b.groups
    &&& a.last == b.last
}

proof fn lemma_flushed_alike(
    x: SessionMessageEntry,
    y: SessionMessageEntry,
    a: crate::rows::RowState,
    b: crate::rows::RowState,
)
    requires
        x.id@ == y.id@,
        alike(a, b),
    ensures
        alike(crate::rows::flushed(x, a), crate::rows::flushed(y, b)),
{
}

proof fn lemma_joined_alike(
    x: SessionMessageEntry,
    y: SessionMessageEntry,
    a: crate::rows::RowState,
    b: crate::rows::RowState,
    p: crate::tools::ItemView,
    q: crate::tools::ItemView,
    ix: nat,
)
    requires
        x.id@ == y.id@,
        alike(a, b),
        p.facts.spawn == q.facts.spawn,
    ensures
        alike(crate::rows::joined(x, a, p, ix), crate::rows::joined(y, b, q, ix)),
{
    lemma_flushed_alike(x, y, a, b);
    if a.group.len() > 0 {
        assert(a.group[0].facts.spawn == b.group[0].facts.spawn);
    }
}

/// The flag is the lowest bit.
pub proof fn lemma_flags(h: u64)
    ensures
        crate::rows::flagged(h, true) & 1 == 1,
        crate::rows::flagged(h, false) & 1 == 0,
{
    assert(((h << 1) | 1u64) & 1 == 1) by (bit_vector);
    assert(((h << 1) | 0u64) & 1 == 0) by (bit_vector);
}

/// Whether an entry is another one after it settled.
pub open spec fn settles(live: SessionMessageEntry, done: SessionMessageEntry) -> bool {
    &&& live.id == done.id
    &&& live.role == done.role
    &&& live.parts == done.parts
    &&& live.streaming()
    &&& !done.streaming()
}

proof fn lemma_text_alike(
    x: SessionMessageEntry,
    y: SessionMessageEntry,
    key: Seq<char>,
    text: Seq<char>,
    tree: Arc<BlockTree>,
    i: int,
)
    requires
        settles(x, y),
        0 <= i < tree.blocks@.len(),
    ensures
        ({
            let a = crate::rows::text_rows(x, key, text, tree)[i];
            let b = crate::rows::text_rows(y, key, text, tree)[i];
            &&& a.id == b.id
            &&& same_block(a.kind, b.kind)
            &&& a.version & 1 == 1
            &&& b.version & 1 == 0
        }),
{
    let range = tree.blocks@[i].range;
    lemma_flags(crate::hash::fnv(crate::rows::byte_slice(text, range.start, range.end)));
}

proof fn lemma_built_alike(
    x: SessionMessageEntry,
    y: SessionMessageEntry,
    trees: Seq<Arc<BlockTree>>,
    n: nat,
)
    requires
        settles(x, y),
        n <= x.parts@.len(),
    ensures
        alike(crate::rows::built(x, trees, n), crate::rows::built(y, trees, n)),
    decreases n,
{
    if n > 0 {
        let ix = (n - 1) as nat;
        let a = crate::rows::built(x, trees, ix);
        let b = crate::rows::built(y, trees, ix);
        lemma_built_alike(x, y, trees, ix);
        lemma_flushed_alike(x, y, a, b);
        let part = x.parts@[ix as int];
        match part {
            MessagePart::Tool { .. } => {
                let chip = crate::rows::part_chip(part);
                lemma_joined_alike(x, y, a, b, chip, chip, ix);
            },
            MessagePart::Reasoning { id, text } => {
                let live = ix == crate::rows::last_part(x);
                lemma_joined_alike(
                    x,
                    y,
                    a,
                    b,
                    thought_at(trees, ix, live),
                    thought_at(trees, ix, false),
                    ix,
                );
            },
            MessagePart::Text { id, text } => {
                if !crate::text::is_blank(text@) {
                    let key = crate::rows::part_key(x.id@, id@);
                    let tree = trees[ix as int];
                    let fa = crate::rows::flushed(x, a);
                    let fb = crate::rows::flushed(y, b);
                    let na = crate::rows::built(x, trees, n);
                    let nb = crate::rows::built(y, trees, n);
                    let ta = crate::rows::text_rows(x, key, text@, tree);
                    let tb = crate::rows::text_rows(y, key, text@, tree);
                    assert(na.rows == fa.rows + ta);
                    assert(nb.rows == fb.rows + tb);
                    assert forall|i: int| 0 <= i < na.rows.len() implies (#[trigger] na.rows[i]).id
                        == nb.rows[i].id && (na.rows[i].kind is LiveMarkdown ==> same_block(
                        na.rows[i].kind,
                        nb.rows[i].kind,
                    ) && na.rows[i].version & 1 == 1 && nb.rows[i].version & 1 == 0) by {
                        if i < fa.rows.len() {
                            assert(na.rows[i] == fa.rows[i]);
                            assert(nb.rows[i] == fb.rows[i]);
                        } else {
                            lemma_text_alike(x, y, key, text@, tree, i - fa.rows.len());
                            assert(na.rows[i] == ta[i - fa.rows.len()]);
                            assert(nb.rows[i] == tb[i - fa.rows.len()]);
                        }
                    }
                }
            },
            _ => {},
        }
    }
}

/// When an entry settles, its rows keep their ids, each in its place; and every
/// block that was live stays the same block of the same tree and gets another
/// version, so that it is shown anew.
pub proof fn law_settling_keeps_the_rows(
    live: SessionMessageEntry,
    done: SessionMessageEntry,
    trees: Seq<Arc<BlockTree>>,
)
    requires
        settles(live, done),
    ensures
        ({
            let a = crate::rows::reply_rows(live, trees);
            let b = crate::rows::reply_rows(done, trees);
            &&& a.len() == b.len()
            &&& forall|i: int| 0 <= i < a.len() ==> (#[trigger] a[i]).id == b[i].id
            &&& forall|i: int|
                0 <= i < a.len() && (#[trigger] a[i]).kind is LiveMarkdown ==> same_block(
                    a[i].kind,
                    b[i].kind,
                ) && a[i].version != b[i].version
        }),
{
    let n = live.parts@.len();
    let x = crate::rows::built(live, trees, n);
    let y = crate::rows::built(done, trees, n);
    lemma_built_alike(live, done, trees, n);
    lemma_flushed_alike(live, done, x, y);
    let p = crate::rows::flushed(live, x).rows;
    let q = crate::rows::flushed(done, y).rows;
    let a = crate::rows::reply_rows(live, trees);
    let b = crate::rows::reply_rows(done, trees);
    assert forall|i: int| 0 <= i < a.len() && (#[trigger] a[i]).kind is LiveMarkdown implies same_block(
        a[i].kind,
        b[i].kind,
    ) && a[i].version != b[i].version by {
        assert(p[i].kind is LiveMarkdown);
        let v = q[i].version;
        assert(v & 1 == 0 ==> (v ^ 0x4000_0000_0000_0000u64) & 1 == 0) by (bit_vector);
    }
    assert forall|i: int| 0 <= i < a.len() implies (#[trigger] a[i]).id == b[i].id by {
        assert(p[i].id == q[i].id);
    }
}

/// A block whose bytes did not change keeps its row: same id, same version,
/// whatever was appended to the text behind it.
pub proof fn law_unchanged_blocks_keep_their_rows(
    before: SessionMessageEntry,
    after: SessionMessageEntry,
    key: Seq<char>,
    text: Seq<char>,
    grown: Seq<char>,
    tree: Arc<BlockTree>,
    next: Arc<BlockTree>,
    ix: nat,
)
    requires
        before.streaming() == after.streaming(),
        ix < tree.blocks@.len(),
        ix < next.blocks@.len(),
        crate::rows::byte_slice(
            text,
            tree.blocks@[ix as int].range.start,
            tree.blocks@[ix as int].range.end,
        ) == crate::rows::byte_slice(
            grown,
            next.blocks@[ix as int].range.start,
            next.blocks@[ix as int].range.end,
        ),
    ensures
        crate::rows::block_row(before, key, text, tree, ix).id == crate::rows::block_row(
            after,
            key,
            grown,
            next,
            ix,
        ).id,
        crate::rows::block_row(before, key, text, tree, ix).version == crate::rows::block_row(
            after,
            key,
            grown,
            next,
            ix,
        ).version,
{
}

proof fn lemma_built_blank(entry: SessionMessageEntry, trees: Seq<Arc<BlockTree>>, n: nat)
    requires
        n <= entry.parts@.len(),
        forall|i: int| 0 <= i < entry.parts@.len() ==> shows_nothing(#[trigger] entry.parts@[i]),
    ensures
        crate::rows::built(entry, trees, n).rows.len() == 0,
        crate::rows::built(entry, trees, n).group.len() == 0,
    decreases n,
{
    if n > 0 {
        lemma_built_blank(entry, trees, (n - 1) as nat);
        assert(shows_nothing(entry.parts@[n - 1]));
    }
}

/// Whether a part shows nothing: text or a thought without a character to see.
pub open spec fn shows_nothing(part: MessagePart) -> bool {
    match part {
        MessagePart::Text { id, text } => crate::text::is_blank(text@),
        MessagePart::Reasoning { id, text } => crate::text::is_blank(text@),
        _ => false,
    }
}

/// An entry without anything to see has no rows.
pub proof fn law_blank_entries_show_nothing(entry: SessionMessageEntry, trees: Seq<Arc<BlockTree>>)
    requires
        forall|i: int| 0 <= i < entry.parts@.len() ==> shows_nothing(#[trigger] entry.parts@[i]),
    ensures
        crate::rows::reply_rows(entry, trees).len() == 0,
{
    lemma_built_blank(entry, trees, entry.parts@.len());
}

} // verus!
