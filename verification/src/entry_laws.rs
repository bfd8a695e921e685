//! What the rows of an entry show of its parts.
use std::sync::Arc;

use vstd::prelude::*;

use crate::markdown::BlockTree;
use crate::message::{MessagePart, MessageRole, SessionMessageEntry, UserBody};
use crate::rows::{KindView, RowView};
use crate::tools::ItemView;

verus! {

/// One thing that a row shows.
#[allow(inconsistent_fields)]
pub enum Shown {
    /// A chip of a group.
    Chip { chip: ItemView },
    /// A block of markdown.
    Block { id: Seq<char>, tree: Arc<BlockTree>, block_ix: nat, live: bool },
    /// A question.
    Question { id: Seq<char>, header: Seq<char>, resolved: bool },
    /// An error.
    Fault { id: Seq<char>, message: Seq<char> },
    /// A prompt.
    Prompt,
}

/// What a row shows.
pub open spec fn shown_in(row: RowView) -> Seq<Shown> {
    match row.kind {
        KindView::ToolGroup { tools, auto_open } => Seq::new(
            tools.len(),
            |i: int| Shown::Chip { chip: tools[i] },
        ),
        KindView::Markdown { tree, block_ix } => seq![
            Shown::Block { id: row.id, tree, block_ix, live: false },
        ],
        KindView::LiveMarkdown { tree, block_ix } => seq![
            Shown::Block { id: row.id, tree, block_ix, live: true },
        ],
        KindView::InputChip { header, resolved } => seq![
            Shown::Question { id: row.id, header, resolved },
        ],
        KindView::ErrorChip { message } => seq![Shown::Fault { id: row.id, message }],
        KindView::User { .. } => seq![Shown::Prompt],
    }
}

/// What rows show, one row after the other.
pub open spec fn all_shown(rows: Seq<RowView>) -> Seq<Shown>
    decreases rows.len(),
{
    if rows.len() == 0 {
        Seq::empty()
    } else {
        all_shown(rows.drop_last()) + shown_in(rows.last())
    }
}

/// How many things a part shows: one for a tool, a question or an error, one for a
/// thought and one for each block of a text that have a character to see.
pub open spec fn things(part: MessagePart, tree: BlockTree) -> nat {
    match part {
        MessagePart::Tool { .. } => 1,
        MessagePart::Input { .. } => 1,
        MessagePart::Error { .. } => 1,
        MessagePart::Reasoning { id, text } => if crate::text::is_blank(text@) {
            0
        } else {
            1
        },
        MessagePart::Text { id, text } => if crate::text::is_blank(text@) {
            0
        } else {
            tree.blocks@.len()
        },
    }
}

/// How many things the first `n` parts show.
pub open spec fn things_before(
    entry: SessionMessageEntry,
    trees: Seq<Arc<BlockTree>>,
    n: int,
) -> nat
    decreases n,
{
    if n <= 0 {
        0
    } else {
        things_before(entry, trees, n - 1) + things(entry.parts@[n - 1], *trees[n - 1])
    }
}

/// Whether a thing is the `k`th that a part shows.
pub open spec fn tells(
    entry: SessionMessageEntry,
    trees: Seq<Arc<BlockTree>>,
    ix: int,
    k: int,
    thing: Shown,
) -> bool {
    match entry.parts@[ix] {
        MessagePart::Tool { .. } => thing matches Shown::Chip { chip }
            && crate::tool_laws::tells_tool(chip, entry.parts@[ix]),
        MessagePart::Reasoning { id, text } => thing matches Shown::Chip { chip }
            && crate::tool_laws::tells_thought(
            chip,
            crate::thoughts::thought_view(*trees[ix]),
            entry.streaming() && ix == entry.parts@.len() - 1,
        ),
        MessagePart::Text { id, text } => thing == (Shown::Block {
            id: entry.id@ + "#"@ + id@ + "."@ + crate::text::decimal(k as nat),
            tree: trees[ix],
            block_ix: k as nat,
            live: entry.streaming(),
        }),
        MessagePart::Input { id, questions, resolved } => thing == (Shown::Question {
            id: entry.id@ + "#"@ + id@,
            header: crate::text::one_line(
                if questions@.len() > 0 {
                    questions@[0].header@
                } else {
                    "Question"@
                },
            ),
            resolved,
        }),
        MessagePart::Error { id, message } => thing == (Shown::Fault {
            id: entry.id@ + "#"@ + id@,
            message: crate::text::one_line(message@),
        }),
    }
}

/// Whether things are all that the first `n` parts show, in order.
pub open spec fn told(
    entry: SessionMessageEntry,
    trees: Seq<Arc<BlockTree>>,
    shown: Seq<Shown>,
    n: int,
) -> bool {
    &&& shown.len() == things_before(entry, trees, n)
    &&& forall|ix: int, k: int|
        0 <= ix < n && 0 <= k < things(entry.parts@[ix], *trees[ix]) ==> #[trigger] tells(
            entry,
            trees,
            ix,
            k,
            shown[things_before(entry, trees, ix) + k],
        )
}

proof fn lemma_things_grow(entry: SessionMessageEntry, trees: Seq<Arc<BlockTree>>, a: int, b: int)
    requires
        0 <= a < b,
    ensures
        things_before(entry, trees, a) + things(entry.parts@[a], *trees[a]) <= things_before(
            entry,
            trees,
            b,
        ),
    decreases b - a,
{
    if b > a + 1 {
        lemma_things_grow(entry, trees, a, b - 1);
    }
}

proof fn lemma_told_more(
    entry: SessionMessageEntry,
    trees: Seq<Arc<BlockTree>>,
    shown: Seq<Shown>,
    more: Seq<Shown>,
    n: int,
)
    requires
        0 <= n,
        told(entry, trees, shown, n),
        more.len() == things(entry.parts@[n], *trees[n]),
        forall|k: int| 0 <= k < more.len() ==> #[trigger] tells(entry, trees, n, k, more[k]),
    ensures
        told(entry, trees, shown + more, n + 1),
{
    let all = shown + more;
    assert forall|ix: int, k: int|
        0 <= ix < n + 1 && 0 <= k < things(entry.parts@[ix], *trees[ix]) implies #[trigger] tells(
        entry,
        trees,
        ix,
        k,
        all[things_before(entry, trees, ix) + k],
    ) by {
        let at = things_before(entry, trees, ix) + k;
        if ix < n {
            lemma_things_grow(entry, trees, ix, n);
            assert(all[at] == shown[at]);
            assert(tells(entry, trees, ix, k, shown[at]));
        } else {
            assert(all[at] == more[k]);
            assert(tells(entry, trees, n, k, more[k]));
        }
    }
}

proof fn lemma_shown_push(rows: Seq<RowView>, row: RowView)
    ensures
        all_shown(rows.push(row)) == all_shown(rows) + shown_in(row),
{
    assert(rows.push(row).drop_last() =~= rows);
}

proof fn lemma_shown_by_kind(a: Seq<RowView>, b: Seq<RowView>)
    requires
        a.len() == b.len(),
        forall|i: int| 0 <= i < a.len() ==> (#[trigger] a[i]).kind == b[i].kind && a[i].id == b[i].id,
    ensures
        all_shown(a) == all_shown(b),
    decreases a.len(),
{
    if a.len() > 0 {
        let x = a.drop_last();
        let y = b.drop_last();
        assert forall|i: int| 0 <= i < x.len() implies (#[trigger] x[i]).kind == y[i].kind && x[i].id
            == y[i].id by {
            assert(x[i] == a[i]);
        }
        lemma_shown_by_kind(x, y);
        let n = a.len() - 1;
        assert(a[n].kind == b[n].kind && a[n].id == b[n].id);
    }
}

/// The tree of a part.
spec fn tree_at(trees: Seq<Arc<BlockTree>>, ix: int) -> BlockTree {
    *trees[ix]
}

/// The chips of an open group.
spec fn open_chips(group: Seq<ItemView>) -> Seq<Shown> {
    Seq::new(group.len(), |i: int| Shown::Chip { chip: group[i] })
}

proof fn lemma_flushed_shows(entry: SessionMessageEntry, st: crate::rows::RowState)
    ensures
        ({
            let next = crate::rows::flushed(entry, st);
            &&& all_shown(next.rows) + open_chips(next.group) == all_shown(st.rows) + open_chips(
                st.group,
            )
            &&& next.group.len() == 0
            &&& all_shown(next.rows) == all_shown(st.rows) + open_chips(st.group)
        }),
{
    let next = crate::rows::flushed(entry, st);
    if st.group.len() > 0 {
        let row = next.rows.last();
        lemma_shown_push(st.rows, row);
        assert(next.rows =~= st.rows.push(row));
        assert(shown_in(row) =~= open_chips(st.group));
    } else {
        assert(open_chips(st.group) =~= Seq::empty());
    }
    assert(open_chips(next.group) =~= Seq::empty());
    assert(all_shown(next.rows) =~= all_shown(st.rows) + open_chips(st.group));
    assert(all_shown(next.rows) + open_chips(next.group) =~= all_shown(next.rows));
}

proof fn lemma_joined_shows(
    entry: SessionMessageEntry,
    st: crate::rows::RowState,
    item: ItemView,
    ix: nat,
)
    ensures
        ({
            let next = crate::rows::joined(entry, st, item, ix);
            all_shown(next.rows) + open_chips(next.group) == all_shown(st.rows) + open_chips(
                st.group,
            ) + seq![Shown::Chip { chip: item }]
        }),
{
    lemma_flushed_shows(entry, st);
    let open = if st.group.len() > 0 && st.group[0].facts.spawn != item.facts.spawn {
        crate::rows::flushed(entry, st)
    } else {
        st
    };
    let next = crate::rows::joined(entry, st, item, ix);
    assert(open_chips(next.group) =~= open_chips(open.group) + seq![Shown::Chip { chip: item }]);
    assert(all_shown(next.rows) + open_chips(next.group) =~= all_shown(open.rows) + open_chips(
        open.group,
    ) + seq![Shown::Chip { chip: item }]);
}

proof fn lemma_shown_add(a: Seq<RowView>, b: Seq<RowView>)
    ensures
        all_shown(a + b) == all_shown(a) + all_shown(b),
    decreases b.len(),
{
    if b.len() == 0 {
        assert(a + b =~= a);
        assert(all_shown(a) + all_shown(b) =~= all_shown(a));
    } else {
        lemma_shown_add(a, b.drop_last());
        assert((a + b).drop_last() =~= a + b.drop_last());
        assert(all_shown(a + b) =~= all_shown(a) + all_shown(b));
    }
}

proof fn lemma_text_shows(rows: Seq<RowView>)
    requires
        forall|i: int|
            0 <= i < rows.len() ==> ((#[trigger] rows[i]).kind is Markdown || rows[i].kind is LiveMarkdown),
    ensures
        all_shown(rows).len() == rows.len(),
        forall|i: int| 0 <= i < rows.len() ==> #[trigger] all_shown(rows)[i] == shown_in(rows[i])[0],
    decreases rows.len(),
{
    if rows.len() > 0 {
        let init = rows.drop_last();
        assert forall|i: int| 0 <= i < init.len() implies ((#[trigger] init[i]).kind is Markdown
            || init[i].kind is LiveMarkdown) by {
            assert(init[i] == rows[i]);
        }
        lemma_text_shows(init);
        let n = rows.len() - 1;
        assert(rows[n].kind is Markdown || rows[n].kind is LiveMarkdown);
        assert forall|i: int| 0 <= i < rows.len() implies #[trigger] all_shown(rows)[i] == shown_in(
            rows[i],
        )[0] by {
            if i < n {
                assert(all_shown(rows)[i] == all_shown(init)[i]);
                assert(init[i] == rows[i]);
            }
        }
    }
}

proof fn lemma_built_tells(entry: SessionMessageEntry, trees: Seq<Arc<BlockTree>>, n: int)
    requires
        0 <= n <= entry.parts@.len(),
        trees.len() == entry.parts@.len(),
    ensures
        ({
            let st = crate::rows::built(entry, trees, n as nat);
            told(entry, trees, all_shown(st.rows) + open_chips(st.group), n)
        }),
    decreases n,
{
    let st = crate::rows::built(entry, trees, n as nat);
    if n == 0 {
        assert(all_shown(st.rows) + open_chips(st.group) =~= Seq::empty());
    } else {
        let ix = n - 1;
        let before = crate::rows::built(entry, trees, ix as nat);
        let shown = all_shown(before.rows) + open_chips(before.group);
        lemma_built_tells(entry, trees, ix);
        lemma_flushed_shows(entry, before);
        let flushed = crate::rows::flushed(entry, before);
        let part = entry.parts@[ix];
        match part {
            MessagePart::Tool { .. } => {
                let chip = crate::rows::part_chip(part);
                let more: Seq<Shown> = seq![Shown::Chip { chip }];
                crate::tool_laws::law_a_chip_tells_its_part(part);
                assert(tells(entry, trees, ix, 0, more[0]));
                lemma_told_more(entry, trees, shown, more, ix);
                lemma_joined_shows(entry, before, chip, ix as nat);
            },
            MessagePart::Reasoning { id, text } => {
                if crate::text::is_blank(text@) {
                    let none: Seq<Shown> = Seq::empty();
                    lemma_told_more(entry, trees, shown, none, ix);
                    assert(shown + none =~= shown);
                } else {
                    let live = entry.streaming() && ix == crate::rows::last_part(entry);
                    let chip = crate::tools::thought_chip(tree_at(trees, ix), live);
                    let more: Seq<Shown> = seq![Shown::Chip { chip }];
                    crate::tool_laws::law_a_thought_chip_shows_its_lines(
                        tree_at(trees, ix),
                        live,
                    );
                    assert(tells(entry, trees, ix, 0, more[0]));
                    lemma_told_more(entry, trees, shown, more, ix);
                    lemma_joined_shows(entry, before, chip, ix as nat);
                }
            },
            MessagePart::Text { id, text } => {
                if crate::text::is_blank(text@) {
                    let none: Seq<Shown> = Seq::empty();
                    lemma_told_more(entry, trees, shown, none, ix);
                    assert(shown + none =~= shown);
                } else {
                    let rows = crate::rows::text_rows(
                        entry,
                        crate::rows::part_key(entry.id@, id@),
                        text@,
                        trees[ix],
                    );
                    let more = all_shown(rows);
                    lemma_text_shows(rows);
                    lemma_shown_add(flushed.rows, rows);
                    assert forall|k: int| 0 <= k < more.len() implies #[trigger] tells(
                        entry,
                        trees,
                        ix,
                        k,
                        more[k],
                    ) by {
                        assert(more[k] == shown_in(rows[k])[0]);
                    }
                    lemma_told_more(entry, trees, shown, more, ix);
                    assert(st.rows == flushed.rows + rows);
                    assert(open_chips(st.group) =~= Seq::empty());
                    assert(all_shown(st.rows) + open_chips(st.group) =~= shown + more);
                }
            },
            _ => {
                let row = st.rows.last();
                let more = shown_in(row);
                assert(st.rows =~= flushed.rows.push(row));
                lemma_shown_push(flushed.rows, row);
                assert(tells(entry, trees, ix, 0, more[0]));
                lemma_told_more(entry, trees, shown, more, ix);
                assert(open_chips(st.group) =~= Seq::empty());
                assert(all_shown(st.rows) + open_chips(st.group) =~= shown + more);
            },
        }
    }
}

/// The rows of a reply show all of its parts, in order, each once, and nothing else:
/// a chip for every tool that tells all of it, its output, its edit and its call
/// among it; a chip for every thought with a character to see; a row for every block
/// of its text; and a chip for every question and every error.
pub proof fn law_rows_show_every_part(
    entry: SessionMessageEntry,
    pending: bool,
    body: UserBody,
    trees: Seq<Arc<BlockTree>>,
)
    requires
        entry.role != MessageRole::User,
        trees.len() == entry.parts@.len(),
    ensures
        told(
            entry,
            trees,
            all_shown(crate::rows::entry_rows(entry, pending, body, trees)),
            entry.parts@.len() as int,
        ),
{
    let n = entry.parts@.len() as int;
    let st = crate::rows::built(entry, trees, n as nat);
    let rows = crate::rows::flushed(entry, st).rows;
    lemma_built_tells(entry, trees, n);
    lemma_flushed_shows(entry, st);
    lemma_shown_by_kind(crate::rows::reply_rows(entry, trees), rows);
}

/// The output of a tool that made no edit and no stats is to be seen in the rows:
/// its chip opens to the first 24 lines of it, in order and verbatim.
pub proof fn law_an_output_is_to_be_seen(
    entry: SessionMessageEntry,
    pending: bool,
    body: UserBody,
    trees: Seq<Arc<BlockTree>>,
    ix: int,
    last: int,
)
    requires
        entry.role != MessageRole::User,
        trees.len() == entry.parts@.len(),
        0 <= ix < entry.parts@.len(),
        entry.parts@[ix] is Tool,
        entry.parts@[ix]->diff is None,
        entry.parts@[ix]->diff_stats is None,
        entry.parts@[ix]->output is Some,
        crate::tool_laws::last_to_see(crate::text::lines(entry.parts@[ix]->output->0@), last),
    ensures
        ({
            let shown = all_shown(crate::rows::entry_rows(entry, pending, body, trees));
            let lines = crate::text::lines(entry.parts@[ix]->output->0@);
            let at = things_before(entry, trees, ix) as int;
            &&& at < shown.len()
            &&& shown[at] matches Shown::Chip { chip }
            &&& chip.detail matches Some(
                crate::tools::DetailView::Output { lines: seen, truncated_by },
            )
            &&& seen.len() == (if last + 1 <= 24 {
                last + 1
            } else {
                24
            })
            &&& forall|i: int| 0 <= i < seen.len() ==> #[trigger] seen[i] == lines[i]
        }),
{
    law_rows_show_every_part(entry, pending, body, trees);
    lemma_things_grow(entry, trees, ix, entry.parts@.len() as int);
    let shown = all_shown(crate::rows::entry_rows(entry, pending, body, trees));
    assert(tells(entry, trees, ix, 0, shown[things_before(entry, trees, ix) + 0int]));
}

// ---------------------------------------------------------------------------
// Groups
// ---------------------------------------------------------------------------

/// How many rows are groups.
pub open spec fn groups_in(rows: Seq<RowView>) -> nat
    decreases rows.len(),
{
    if rows.len() == 0 {
        0
    } else {
        groups_in(rows.drop_last()) + if rows.last().kind is ToolGroup {
            1nat
        } else {
            0nat
        }
    }
}

/// Whether every group bears the number of groups before it.
pub open spec fn numbered(entry: SessionMessageEntry, rows: Seq<RowView>) -> bool {
    forall|i: int|
        0 <= i < rows.len() && (#[trigger] rows[i]).kind is ToolGroup ==> rows[i].id == entry.id@
            + "#g"@ + crate::text::decimal(groups_in(rows.take(i)))
}

proof fn lemma_numbered_push(entry: SessionMessageEntry, rows: Seq<RowView>, row: RowView)
    requires
        numbered(entry, rows),
        row.kind is ToolGroup ==> row.id == entry.id@ + "#g"@ + crate::text::decimal(
            groups_in(rows),
        ),
    ensures
        numbered(entry, rows.push(row)),
        groups_in(rows.push(row)) == groups_in(rows) + if row.kind is ToolGroup {
            1nat
        } else {
            0nat
        },
{
    let all = rows.push(row);
    assert(all.drop_last() =~= rows);
    assert forall|i: int| 0 <= i < all.len() && (#[trigger] all[i]).kind is ToolGroup implies all[i].id
        == entry.id@ + "#g"@ + crate::text::decimal(groups_in(all.take(i))) by {
        if i < rows.len() {
            assert(all[i] == rows[i]);
            assert(all.take(i) =~= rows.take(i));
        } else {
            assert(all.take(i) =~= rows);
        }
    }
}

proof fn lemma_numbered_add(entry: SessionMessageEntry, rows: Seq<RowView>, more: Seq<RowView>)
    requires
        numbered(entry, rows),
        forall|i: int| 0 <= i < more.len() ==> !((#[trigger] more[i]).kind is ToolGroup),
    ensures
        numbered(entry, rows + more),
        groups_in(rows + more) == groups_in(rows),
    decreases more.len(),
{
    if more.len() == 0 {
        assert(rows + more =~= rows);
    } else {
        let init = more.drop_last();
        assert forall|i: int| 0 <= i < init.len() implies !((#[trigger] init[i]).kind is ToolGroup) by {
            assert(init[i] == more[i]);
        }
        lemma_numbered_add(entry, rows, init);
        assert(!(more[more.len() - 1].kind is ToolGroup));
        lemma_numbered_push(entry, rows + init, more.last());
        assert((rows + init).push(more.last()) =~= rows + more);
    }
}

proof fn lemma_flushed_numbered(entry: SessionMessageEntry, st: crate::rows::RowState)
    requires
        numbered(entry, st.rows),
        st.groups == groups_in(st.rows),
    ensures
        numbered(entry, crate::rows::flushed(entry, st).rows),
        crate::rows::flushed(entry, st).groups == groups_in(crate::rows::flushed(entry, st).rows),
{
    let next = crate::rows::flushed(entry, st);
    if st.group.len() > 0 {
        lemma_numbered_push(entry, st.rows, next.rows.last());
        assert(next.rows =~= st.rows.push(next.rows.last()));
    }
}

proof fn lemma_built_numbered(entry: SessionMessageEntry, trees: Seq<Arc<BlockTree>>, n: nat)
    requires
        n <= entry.parts@.len(),
    ensures
        numbered(entry, crate::rows::built(entry, trees, n).rows),
        crate::rows::built(entry, trees, n).groups == groups_in(
            crate::rows::built(entry, trees, n).rows,
        ),
    decreases n,
{
    if n > 0 {
        let ix = (n - 1) as nat;
        let st = crate::rows::built(entry, trees, n);
        let before = crate::rows::built(entry, trees, ix);
        lemma_built_numbered(entry, trees, ix);
        lemma_flushed_numbered(entry, before);
        let flushed = crate::rows::flushed(entry, before);
        match entry.parts@[ix as int] {
            MessagePart::Tool { .. } => {},
            MessagePart::Reasoning { .. } => {},
            MessagePart::Text { id, text } => {
                if !crate::text::is_blank(text@) {
                    let more = crate::rows::text_rows(
                        entry,
                        crate::rows::part_key(entry.id@, id@),
                        text@,
                        trees[ix as int],
                    );
                    lemma_numbered_add(entry, flushed.rows, more);
                    assert(st.rows == flushed.rows + more);
                }
            },
            _ => {
                let row = st.rows.last();
                assert(st.rows =~= flushed.rows.push(row));
                lemma_numbered_push(entry, flushed.rows, row);
            },
        }
    }
}

/// The groups of an entry are numbered in order, by their ids; what comes later
/// changes no id.
pub proof fn law_groups_are_numbered(entry: SessionMessageEntry, trees: Seq<Arc<BlockTree>>)
    ensures
        numbered(entry, crate::rows::reply_rows(entry, trees)),
{
    let n = entry.parts@.len();
    let st = crate::rows::built(entry, trees, n);
    lemma_built_numbered(entry, trees, n);
    lemma_flushed_numbered(entry, st);
    let rows = crate::rows::flushed(entry, st).rows;
    let done = crate::rows::reply_rows(entry, trees);
    assert forall|i: int| 0 <= i < done.len() && (#[trigger] done[i]).kind is ToolGroup implies done[i].id
        == entry.id@ + "#g"@ + crate::text::decimal(groups_in(done.take(i))) by {
        assert(rows[i].kind is ToolGroup);
        lemma_groups_by_kind(done.take(i), rows.take(i));
    }
}

proof fn lemma_groups_by_kind(a: Seq<RowView>, b: Seq<RowView>)
    requires
        a.len() == b.len(),
        forall|i: int| 0 <= i < a.len() ==> (#[trigger] a[i]).kind == b[i].kind,
    ensures
        groups_in(a) == groups_in(b),
    decreases a.len(),
{
    if a.len() > 0 {
        let x = a.drop_last();
        let y = b.drop_last();
        assert forall|i: int| 0 <= i < x.len() implies (#[trigger] x[i]).kind == y[i].kind by {
            assert(x[i] == a[i]);
        }
        lemma_groups_by_kind(x, y);
        assert(a[a.len() - 1].kind == b[b.len() - 1].kind);
    }
}

/// Whether a row is a group of chips that spawn, or of chips that do not.
pub open spec fn spawns(row: RowView) -> Option<bool> {
    match row.kind {
        KindView::ToolGroup { tools, .. } => Some(tools[0].facts.spawn),
        _ => None,
    }
}

/// Whether no two groups stand side by side that could be one.
pub open spec fn folded(rows: Seq<RowView>) -> bool {
    forall|i: int|
        0 <= i < rows.len() - 1 && (#[trigger] rows[i]).kind is ToolGroup && rows[i
            + 1].kind is ToolGroup ==> spawns(rows[i]) != spawns(rows[i + 1])
}

/// Whether every text of an entry has a block to show.
pub open spec fn texts_show(entry: SessionMessageEntry, trees: Seq<Arc<BlockTree>>) -> bool {
    forall|i: int|
        0 <= i < entry.parts@.len() && (#[trigger] entry.parts@[i]) is Text ==> things(
            entry.parts@[i],
            *trees[i],
        ) > 0
}

spec fn folding(st: crate::rows::RowState) -> bool {
    &&& folded(st.rows)
    &&& st.group.len() > 0 && st.rows.len() > 0 && st.rows.last().kind is ToolGroup ==> spawns(
        st.rows.last(),
    ) != Some(st.group[0].facts.spawn)
    &&& st.group.len() == 0 ==> st.rows.len() == 0 || !(st.rows.last().kind is ToolGroup)
}

proof fn lemma_folded_push(rows: Seq<RowView>, row: RowView)
    requires
        folded(rows),
        rows.len() > 0 && rows.last().kind is ToolGroup && row.kind is ToolGroup ==> spawns(
            rows.last(),
        ) != spawns(row),
    ensures
        folded(rows.push(row)),
{
    let all = rows.push(row);
    assert forall|i: int|
        0 <= i < all.len() - 1 && (#[trigger] all[i]).kind is ToolGroup && all[i
            + 1].kind is ToolGroup implies spawns(all[i]) != spawns(all[i + 1]) by {
        if i < rows.len() - 1 {
            assert(all[i] == rows[i]);
            assert(all[i + 1] == rows[i + 1]);
        }
    }
}

proof fn lemma_folded_add(rows: Seq<RowView>, more: Seq<RowView>)
    requires
        folded(rows),
        forall|i: int| 0 <= i < more.len() ==> !((#[trigger] more[i]).kind is ToolGroup),
    ensures
        folded(rows + more),
    decreases more.len(),
{
    if more.len() == 0 {
        assert(rows + more =~= rows);
    } else {
        let init = more.drop_last();
        assert forall|i: int| 0 <= i < init.len() implies !((#[trigger] init[i]).kind is ToolGroup) by {
            assert(init[i] == more[i]);
        }
        lemma_folded_add(rows, init);
        assert(!(more[more.len() - 1].kind is ToolGroup));
        lemma_folded_push(rows + init, more.last());
        assert((rows + init).push(more.last()) =~= rows + more);
    }
}

proof fn lemma_flushed_folded(entry: SessionMessageEntry, st: crate::rows::RowState)
    requires
        folding(st),
    ensures
        folded(crate::rows::flushed(entry, st).rows),
        st.group.len() > 0 ==> spawns(crate::rows::flushed(entry, st).rows.last()) == Some(
            st.group[0].facts.spawn,
        ),
{
    let next = crate::rows::flushed(entry, st);
    if st.group.len() > 0 {
        let row = next.rows.last();
        assert(next.rows =~= st.rows.push(row));
        lemma_folded_push(st.rows, row);
    }
}

proof fn lemma_built_folded(entry: SessionMessageEntry, trees: Seq<Arc<BlockTree>>, n: nat)
    requires
        n <= entry.parts@.len(),
        texts_show(entry, trees),
    ensures
        folding(crate::rows::built(entry, trees, n)),
    decreases n,
{
    if n > 0 {
        let ix = (n - 1) as nat;
        let st = crate::rows::built(entry, trees, n);
        let before = crate::rows::built(entry, trees, ix);
        lemma_built_folded(entry, trees, ix);
        lemma_flushed_folded(entry, before);
        let flushed = crate::rows::flushed(entry, before);
        match entry.parts@[ix as int] {
            MessagePart::Tool { .. } => {},
            MessagePart::Reasoning { .. } => {},
            MessagePart::Text { id, text } => {
                assert(entry.parts@[ix as int] is Text);
                let more = crate::rows::text_rows(
                    entry,
                    crate::rows::part_key(entry.id@, id@),
                    text@,
                    trees[ix as int],
                );
                lemma_folded_add(flushed.rows, more);
                assert(st.rows == flushed.rows + more);
                assert(st.rows.last() == more.last());
            },
            _ => {
                let row = st.rows.last();
                assert(st.rows =~= flushed.rows.push(row));
                lemma_folded_push(flushed.rows, row);
            },
        }
    }
}

/// Chips that follow each other are folded into one group as far as can be: two
/// groups stand side by side only where the one spawns and the other does not.
pub proof fn law_neighbours_share_a_group(
    entry: SessionMessageEntry,
    trees: Seq<Arc<BlockTree>>,
)
    requires
        texts_show(entry, trees),
    ensures
        folded(crate::rows::reply_rows(entry, trees)),
{
    let n = entry.parts@.len();
    let st = crate::rows::built(entry, trees, n);
    lemma_built_folded(entry, trees, n);
    lemma_flushed_folded(entry, st);
    let rows = crate::rows::flushed(entry, st).rows;
    let done = crate::rows::reply_rows(entry, trees);
    assert forall|i: int|
        0 <= i < done.len() - 1 && (#[trigger] done[i]).kind is ToolGroup && done[i
            + 1].kind is ToolGroup implies spawns(done[i]) != spawns(done[i + 1]) by {
        assert(rows[i].kind == done[i].kind);
        assert(rows[i + 1].kind == done[i + 1].kind);
    }
}

// ---------------------------------------------------------------------------
// What is copied, and what is parsed
// ---------------------------------------------------------------------------

/// What copying a longer entry gives: one more text with a character to see is
/// copied behind an empty line, any other part changes nothing.
pub proof fn law_copying_takes_the_text(
    entry: SessionMessageEntry,
    longer: SessionMessageEntry,
    part: MessagePart,
)
    requires
        longer.parts@ == entry.parts@.push(part),
    ensures
        ({
            let before = crate::message::copy_of(entry);
            let after = crate::message::copy_of(longer);
            match part {
                MessagePart::Text { id, text } => if crate::text::is_blank(text@) {
                    after == before
                } else {
                    after == Some(
                        match before {
                            Some(head) => head + "\n\n"@ + text@,
                            None => text@,
                        },
                    )
                },
                _ => after == before,
            }
        }),
        entry.parts@.len() == 0 ==> crate::message::copy_of(entry) is None,
{
    let texts = crate::message::text_parts(entry.parts@, false);
    let more = crate::message::text_parts(longer.parts@, false);
    assert(longer.parts@.drop_last() =~= entry.parts@);
    lemma_texts_to_see(entry.parts@);
    if let MessagePart::Text { id, text } = part {
        if !crate::text::is_blank(text@) {
            assert(more == texts.push(text@));
            assert(more.drop_last() =~= texts);
            if text@.len() == 0 {
                assert(crate::text::is_blank(text@));
            }
            reveal_strlit("\n\n");
            if texts.len() == 0 {
                assert(crate::text::join(texts, "\n\n"@).len() == 0);
            } else {
                lemma_join_some(texts, "\n\n"@);
            }
        }
    }
}

proof fn lemma_texts_to_see(parts: Seq<MessagePart>)
    ensures
        forall|i: int|
            0 <= i < crate::message::text_parts(parts, false).len() ==> (
            #[trigger] crate::message::text_parts(parts, false)[i]).len() > 0,
    decreases parts.len(),
{
    let texts = crate::message::text_parts(parts, false);
    if parts.len() > 0 {
        let before = crate::message::text_parts(parts.drop_last(), false);
        lemma_texts_to_see(parts.drop_last());
        if let MessagePart::Text { id, text } = parts.last() {
            if text@.len() == 0 {
                assert(crate::text::is_blank(text@));
            }
        }
        assert forall|i: int| 0 <= i < texts.len() implies (#[trigger] texts[i]).len() > 0 by {
            if i < before.len() {
                assert(texts[i] == before[i]);
            }
        }
    }
}

proof fn lemma_join_some(texts: Seq<Seq<char>>, sep: Seq<char>)
    requires
        texts.len() > 0,
        forall|i: int| 0 <= i < texts.len() ==> (#[trigger] texts[i]).len() > 0,
    ensures
        crate::text::join(texts, sep).len() > 0,
{
    assert(texts[texts.len() - 1].len() > 0);
}

/// A settled reply offers on its last row all of its text to copy, and a prompt what
/// it shows.
pub proof fn law_the_last_row_copies_the_text(
    entry: SessionMessageEntry,
    pending: bool,
    body: UserBody,
    trees: Seq<Arc<BlockTree>>,
)
    requires
        crate::rows::entry_rows(entry, pending, body, trees).len() > 0,
    ensures
        ({
            let last = crate::rows::entry_rows(entry, pending, body, trees).last();
            last.copy_text == (if entry.role == MessageRole::User {
                if crate::text::is_blank(body.text@) {
                    None
                } else {
                    Some(body.text@)
                }
            } else if entry.streaming() {
                None
            } else {
                crate::message::copy_of(entry)
            })
        }),
{
    if entry.role != MessageRole::User && entry.streaming() {
        let rows = crate::rows::entry_rows(entry, pending, body, trees);
        crate::row_laws::law_rows_of_an_entry(entry, pending, body, trees, rows.len() - 1);
    }
}

/// A prompt has one row, which shows its body and whether it is confirmed yet;
/// confirming it changes its version.
pub proof fn law_a_prompt_has_one_row(
    entry: SessionMessageEntry,
    pending: bool,
    body: UserBody,
    trees: Seq<Arc<BlockTree>>,
)
    requires
        entry.role == MessageRole::User,
    ensures
        ({
            let rows = crate::rows::entry_rows(entry, pending, body, trees);
            &&& rows.len() == 1
            &&& rows[0].id == entry.id@
            &&& rows[0].kind == (KindView::User {
                text: body.text@,
                mentions: *body.mentions,
                attachments: *body.attachments,
                badges: *body.badges,
                pending,
            })
            &&& rows[0].version != crate::rows::entry_rows(
                entry,
                !pending,
                body,
                trees,
            )[0].version
        }),
{
    let raw = crate::message::joined_text(entry.parts@, true);
    crate::row_laws::lemma_flags((vstd::utf8::encode_utf8(raw).len() as usize) as u64);
}

/// The markdown of a reply is parsed for each text and each thought with a character
/// to see, in order and under its own key, and for nothing else.
pub proof fn law_what_shows_is_parsed(entry: SessionMessageEntry, n: nat)
    requires
        n <= entry.parts@.len(),
    ensures
        ({
            let wanted = crate::rows::requests(entry, n);
            &&& forall|i: int|
                0 <= i < wanted.len() ==> {
                    &&& 0 <= (#[trigger] wanted[i]).0 < n
                    &&& match entry.parts@[wanted[i].0] {
                        MessagePart::Text { id, text } => !crate::text::is_blank(text@)
                            && wanted[i].1 == entry.id@ + "#"@ + id@,
                        MessagePart::Reasoning { id, text } => !crate::text::is_blank(text@)
                            && wanted[i].1 == entry.id@ + "#"@ + id@,
                        _ => false,
                    }
                }
            &&& forall|i: int, j: int|
                0 <= i < j < wanted.len() ==> (#[trigger] wanted[i]).0 < (#[trigger] wanted[j]).0
            &&& forall|ix: int|
                0 <= ix < n && crate::rows::parsed_part(#[trigger] entry.parts@[ix]) ==> exists|
                    i: int,
                |
                    0 <= i < wanted.len() && (#[trigger] wanted[i]).0 == ix
        }),
    decreases n,
{
    let wanted = crate::rows::requests(entry, n);
    if n > 0 {
        let before = crate::rows::requests(entry, (n - 1) as nat);
        law_what_shows_is_parsed(entry, (n - 1) as nat);
        assert forall|ix: int|
            0 <= ix < n && crate::rows::parsed_part(
                #[trigger] entry.parts@[ix],
            ) implies exists|i: int| 0 <= i < wanted.len() && (#[trigger] wanted[i]).0 == ix by {
            if ix < n - 1 {
                let i = choose|i: int| 0 <= i < before.len() && (#[trigger] before[i]).0 == ix;
                assert(wanted[i] == before[i]);
            } else {
                assert(wanted[before.len() as int].0 == ix);
            }
        }
    }
}

} // verus!
