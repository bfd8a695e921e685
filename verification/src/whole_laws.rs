//! What holds of what is handed out: of the rows, the chips, the lines and the steps
//! that a caller gets.
use std::ops::Range;
use std::sync::Arc;

use vstd::prelude::*;

use crate::chips::{BlobStore, Folds, GroupLayout};
use crate::diff::{FileDiff, LineOp};
use crate::markdown::{Block, BlockTree, InlineRun};
use crate::message::{MessageRole, SessionMessageEntry, UserBody};
use crate::rows::Row;
use crate::scroll::{Transcript, WheelStep};
use crate::tools::{ToolCall, ToolDetail, ToolItem};
use crate::viewport::Px;

verus! {

// ---------------------------------------------------------------------------
// Rows
// ---------------------------------------------------------------------------

/// The rows built for a reply tell every part of it, in order and nothing else; those
/// built for a prompt are one row with its body.
pub proof fn law_built_rows_tell_every_part(
    entry: &SessionMessageEntry,
    pending: bool,
    body: &UserBody,
    trees: &Vec<Arc<BlockTree>>,
    rows: Vec<Row>,
)
    requires
        call_ensures(crate::rows::rows_for_entry, (entry, pending, body, trees), rows),
        trees@.len() == entry.parts@.len(),
    ensures
        entry.role != MessageRole::User ==> crate::entry_laws::told(
            *entry,
            trees@,
            crate::entry_laws::all_shown(crate::rows::row_views(rows@)),
            entry.parts@.len() as int,
        ),
        entry.role == MessageRole::User ==> rows@.len() == 1 && (
        rows@[0]@.kind matches crate::rows::KindView::User { text, pending: faint, .. } && text
            == body.text@ && faint == pending),
{
    let views = crate::rows::row_views(rows@);
    if entry.role != MessageRole::User {
        crate::entry_laws::law_rows_show_every_part(*entry, pending, *body, trees@);
    } else {
        crate::entry_laws::law_a_prompt_has_one_row(*entry, pending, *body, trees@);
        assert(views.len() == rows@.len());
        assert(views[0] == rows@[0]@);
    }
}

/// The first of the rows built for an entry opens its turn and no other does, and all
/// are of that entry.
pub proof fn law_built_rows_open_one_turn(
    entry: &SessionMessageEntry,
    pending: bool,
    body: &UserBody,
    trees: &Vec<Arc<BlockTree>>,
    rows: Vec<Row>,
    i: int,
)
    requires
        call_ensures(crate::rows::rows_for_entry, (entry, pending, body, trees), rows),
        0 <= i < rows@.len(),
    ensures
        rows@[i]@.turn_start <==> i == 0,
        rows@[i]@.entry_id == entry.id@,
{
    let views = crate::rows::row_views(rows@);
    assert(views[i] == rows@[i]@);
    crate::row_laws::law_rows_of_an_entry(*entry, pending, *body, trees@, i);
}

/// Two row sets are the same exactly where they have the same rows, by id and by
/// version, in the same order.
pub proof fn law_a_new_version_is_a_change(
    old: &Vec<Row>,
    new: &Vec<Row>,
    change: Option<(Range<usize>, usize)>,
)
    requires
        call_ensures(crate::rowset::diff_rows, (old, new), change),
    ensures
        change is None <==> old@.len() == new@.len() && forall|i: int|
            0 <= i < old@.len() ==> (#[trigger] old@[i])@.id == new@[i]@.id && old@[i]@.version
                == new@[i]@.version,
{
    let x = crate::rows::row_views(old@);
    let y = crate::rows::row_views(new@);
    let a = crate::rowset::row_keys(x);
    let b = crate::rowset::row_keys(y);
    if a == b {
        assert(a.len() == old@.len() && b.len() == new@.len());
        assert forall|i: int| 0 <= i < old@.len() implies (#[trigger] old@[i])@.id == new@[i]@.id
            && old@[i]@.version == new@[i]@.version by {
            assert(a[i] == b[i]);
            assert(x[i] == old@[i]@ && y[i] == new@[i]@);
        }
    } else if old@.len() == new@.len() && forall|i: int|
        0 <= i < old@.len() ==> (#[trigger] old@[i])@.id == new@[i]@.id && old@[i]@.version
            == new@[i]@.version {
        assert forall|i: int| 0 <= i < a.len() implies a[i] == b[i] by {
            assert(old@[i]@.id == new@[i]@.id);
            assert(x[i] == old@[i]@ && y[i] == new@[i]@);
        }
        assert(a =~= b);
    }
}

// ---------------------------------------------------------------------------
// Chips
// ---------------------------------------------------------------------------

/// A group that is laid out has a chip for each tool, with the tool's own invocation
/// unless it leads away. It folds unless all its tools spawn subagents; then it is
/// always open and still. Shut it has no height.
pub proof fn law_a_group_lays_out_every_tool(
    store: &BlobStore,
    folds: &Folds,
    row: &str,
    tools: &Vec<ToolItem>,
    auto_open: bool,
    bodies: &Vec<u64>,
    now: u64,
    group: GroupLayout,
    i: int,
)
    requires
        call_ensures(
            crate::chips::group_layout,
            (store, folds, row, tools, auto_open, bodies, now),
            group,
        ),
        0 <= i < tools@.len(),
    ensures
        group.chips@.len() == tools@.len(),
        !crate::chip_laws::leads_away(tools@[i]@) ==> group.chips@[i]@.invocation
            == tools@[i]@.invocation,
        crate::chip_laws::leads_away(tools@[i]@) ==> group.chips@[i]@.kind
            == crate::chips::ChipKind::Link,
        !tools@[i]@.facts.spawn ==> group.collapses,
        (forall|k: int| 0 <= k < tools@.len() ==> (#[trigger] tools@[k])@.facts.spawn)
            ==> !group.collapses,
        !group.collapses ==> group.open && !group.moving,
        group.open ==> group.height == group.open_height,
        !group.open ==> group.height == 0,
        group.collapses ==> (folds@.groups.contains_key(row@) && folds@.groups[row@].open is Some
            ==> group.open == folds@.groups[row@].open->0),
        group.collapses && !folds@.groups.contains_key(row@) ==> group.open == auto_open,
{
    let views = crate::tools::item_views(tools@);
    assert(views[i] == tools@[i]@);
    let chips = crate::chips::chip_views(group.chips@);
    assert(chips.len() == tools@.len());
    assert(chips[i] == group.chips@[i]@);
    if forall|k: int| 0 <= k < tools@.len() ==> (#[trigger] tools@[k])@.facts.spawn {
        if crate::tools::collapses(views) {
            let k = choose|k: int| 0 <= k < views.len() && !(#[trigger] views[k]).facts.spawn;
            assert(views[k] == tools@[k]@);
            assert(tools@[k]@.facts.spawn);
        }
    }
}

/// What a tool part opens to shows the first 24 lines of its output where it carries
/// nothing better.
pub proof fn law_a_tools_output_is_shown(output: &str, detail: Option<ToolDetail>)
    requires
        call_ensures(crate::tools::tool_detail, (Some(output), None, None), detail),
    ensures
        crate::tool_laws::shows_first(
            crate::tools::detail_view(detail),
            crate::text::lines(output@),
            24,
        ),
{
    crate::tool_laws::law_a_block_shows_the_first_lines(
        crate::text::lines(output@),
        crate::tools::OUTPUT_DETAIL_MAX_LINES,
    );
}

/// What was fetched in full shows its first 400 lines.
pub proof fn law_a_fetched_output_is_shown(output: &str, detail: Option<ToolDetail>)
    requires
        call_ensures(crate::tools::output_blob_detail, (output,), detail),
    ensures
        crate::tool_laws::shows_first(
            crate::tools::detail_view(detail),
            crate::text::lines(output@),
            400,
        ),
{
    crate::tool_laws::law_a_full_output_shows_its_first_lines(output@);
}

/// The block of a call tells all of it.
pub proof fn law_a_call_block_tells_the_call(call: &ToolCall, detail: Option<ToolDetail>)
    requires
        call_ensures(crate::tools::call_block, (call,), detail),
    ensures
        exists|text: Seq<char>, pieces: Seq<Seq<char>>, cuts: Seq<int>|
            crate::tool_laws::tells_call(text, call@) && #[trigger] crate::tool_laws::shows_text(
                crate::tools::detail_view(detail),
                text,
                pieces,
                cuts,
            ),
{
    crate::tool_laws::law_an_invocation_tells_the_whole_call(call@);
}

/// The chip of a thought tells the lines that the thought flattens to.
pub proof fn law_a_thought_item_tells_its_lines(
    tree: &BlockTree,
    live: bool,
    item: ToolItem,
    lines: Vec<Vec<InlineRun>>,
)
    requires
        call_ensures(crate::tools::thought_item, (tree, live), item),
        call_ensures(crate::thoughts::thought_lines, (tree,), lines),
    ensures
        crate::tool_laws::tells_thought(item@, crate::markdown::line_views(lines@), live),
        crate::thought_laws::ink(crate::markdown::line_views(lines@))
            == crate::thought_laws::ink_of_tops(tree.blocks@),
{
    crate::tool_laws::law_a_thought_chip_shows_its_lines(*tree, live);
    crate::thought_laws::law_a_thought_shows_its_text(*tree);
}

/// The lines of a block come behind the lines that are there, which stay as they are,
/// and show the block's text.
pub proof fn law_a_blocks_lines_come_last(block: &Block, indent: usize)
    ensures
        forall|out: &mut Vec<Vec<InlineRun>>| #[trigger]
            call_ensures(crate::thoughts::thought_block_lines, (block, indent, out), ()) ==> {
                let before = crate::markdown::line_views((*out)@);
                let after = crate::markdown::line_views(final(out)@);
                &&& before.len() <= after.len()
                &&& after.take(before.len() as int) == before
                &&& crate::thought_laws::ink(after.skip(before.len() as int))
                    == crate::thought_laws::ink_of_block(*block)
            },
{
    assert forall|out: &mut Vec<Vec<InlineRun>>| #[trigger]
        call_ensures(crate::thoughts::thought_block_lines, (block, indent, out), ()) implies {
        let before = crate::markdown::line_views((*out)@);
        let after = crate::markdown::line_views(final(out)@);
        &&& before.len() <= after.len()
        &&& after.take(before.len() as int) == before
        &&& crate::thought_laws::ink(after.skip(before.len() as int))
            == crate::thought_laws::ink_of_block(*block)
    } by {
        let before = crate::markdown::line_views((*out)@);
        let after = crate::markdown::line_views(final(out)@);
        let own = crate::thoughts::block_lines(*block, indent as nat);
        assert(after == before + own);
        assert(after.take(before.len() as int) =~= before);
        assert(after.skip(before.len() as int) =~= own);
        crate::thought_laws::law_a_block_shows_its_text(*block, indent as nat);
    }
}

/// The lines of a block of code hold its source lines, character for character.
pub proof fn law_a_code_blocks_lines_are_verbatim(
    language: Option<String>,
    code: String,
    block: &Block,
    indent: usize,
)
    requires
        *block == (Block::CodeBlock { language, code }),
    ensures
        forall|out: &mut Vec<Vec<InlineRun>>| #[trigger]
            call_ensures(crate::thoughts::thought_block_lines, (block, indent, out), ()) ==> {
                let before = crate::markdown::line_views((*out)@);
                let after = crate::markdown::line_views(final(out)@);
                exists|cuts: Seq<int>| #[trigger]
                    crate::thought_laws::lays_out(
                        after.skip(before.len() as int),
                        crate::text::lines(code@),
                        indent as nat,
                        cuts,
                    )
            },
{
    crate::thought_laws::law_code_is_shown_verbatim(language, code, indent as nat);
    let own = crate::thoughts::block_lines(*block, indent as nat);
    assert forall|out: &mut Vec<Vec<InlineRun>>| #[trigger]
        call_ensures(crate::thoughts::thought_block_lines, (block, indent, out), ()) implies {
        let before = crate::markdown::line_views((*out)@);
        let after = crate::markdown::line_views(final(out)@);
        exists|cuts: Seq<int>| #[trigger]
            crate::thought_laws::lays_out(
                after.skip(before.len() as int),
                crate::text::lines(code@),
                indent as nat,
                cuts,
            )
    } by {
        let before = crate::markdown::line_views((*out)@);
        let after = crate::markdown::line_views(final(out)@);
        assert(after == before + own);
        assert(after.skip(before.len() as int) =~= own);
    }
}

// ---------------------------------------------------------------------------
// Diffs
// ---------------------------------------------------------------------------

/// A hunk of a diff shows each change of its group of operations, with the numbers
/// that its line has on each side.
pub proof fn law_a_diffs_hunks_show_their_changes(
    path: &str,
    created: bool,
    groups: &Vec<Vec<LineOp>>,
    file: FileDiff,
    k: int,
)
    requires
        call_ensures(crate::diff::file_of_groups, (path, created, groups), file),
        0 <= k < groups@.len(),
        groups@[k]@.len() > 0,
    ensures
        ({
            let views = crate::diff::group_views(groups@);
            let hunks = file@.hunks;
            let hunk = hunks[crate::diff_laws::filled(views.take(k)) as int];
            let changes = crate::diff_laws::all_changes(views[k]);
            &&& file@.path == path@
            &&& hunks.len() == crate::diff_laws::filled(views)
            &&& hunk.lines.len() == changes.len()
            &&& forall|i: int|
                0 <= i < changes.len() ==> crate::diff_laws::shows_change(
                    #[trigger] hunk.lines[i],
                    changes[i],
                )
        }),
{
    let views = crate::diff::group_views(groups@);
    assert(views[k].len() == groups@[k]@.len());
    crate::diff_laws::law_hunks_show_their_changes(path@, created, views, k);
    crate::diff_laws::law_a_file_counts_its_lines(path@, created, views);
}

// ---------------------------------------------------------------------------
// Scrolling
// ---------------------------------------------------------------------------

/// A user's scroll back to the end takes hold of the turn that has its space there.
pub proof fn law_a_scroll_back_takes_hold(rows: &Vec<Row>, distance: Px, receded: bool, step: WheelStep)
    requires
        crate::scroll_laws::is_length(distance),
        !crate::scroll_laws::escapes(distance, receded),
    ensures
        forall|t: &mut Transcript| #[trigger]
            call_ensures(Transcript::handle_scroll, (t, rows, distance, receded), step)
                && (*t)@.own_turn is Some && crate::scroll_laws::is_length((*t)@.last_distance)
                && crate::scroll_laws::comes_back(distance, (*t)@.last_distance) ==> {
                &&& final(t)@.held()
                &&& final(t)@.own_turn->0.runway == (*t)@.own_turn->0.runway
                &&& final(t)@.last_distance == distance
                &&& !(*t)@.held() ==> final(t)@.turn_kick && !final(t)@.own_turn->0.positioned
            },
{
    assert forall|t: &mut Transcript| #[trigger]
        call_ensures(Transcript::handle_scroll, (t, rows, distance, receded), step)
            && (*t)@.own_turn is Some && crate::scroll_laws::is_length((*t)@.last_distance)
            && crate::scroll_laws::comes_back(distance, (*t)@.last_distance) implies {
        &&& final(t)@.held()
        &&& final(t)@.own_turn->0.runway == (*t)@.own_turn->0.runway
        &&& final(t)@.last_distance == distance
        &&& !(*t)@.held() ==> final(t)@.turn_kick && !final(t)@.own_turn->0.positioned
    } by {
        crate::scroll_laws::law_returning_takes_hold_of_the_turn(
            (*t)@,
            crate::rows::row_views(rows@),
            distance,
            receded,
        );
    }
}

/// A user's scroll away from the end lets go of the turn and of the end.
pub proof fn law_a_scroll_away_lets_go(rows: &Vec<Row>, distance: Px, step: WheelStep)
    requires
        crate::scroll_laws::is_length(distance),
        crate::scroll_laws::escapes(distance, true),
    ensures
        forall|t: &mut Transcript| #[trigger]
            call_ensures(Transcript::handle_scroll, (t, rows, distance, true), step) ==> {
                &&& !final(t)@.held() && !final(t)@.pinned
                &&& final(t)@.pending is None
                &&& final(t)@.last_distance == distance
                &&& (*t)@.own_turn is Some <==> final(t)@.own_turn is Some
            },
{
}

} // verus!
