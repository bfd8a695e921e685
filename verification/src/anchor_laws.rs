//! What holds of remembered viewports, of live rows and of what is measured after
//! a layout.
use vstd::prelude::*;

use crate::geometry::TurnBounds;
use crate::message::SessionMessageEntry;
use crate::rows::RowView;
use crate::sync::VeilStart;
use crate::viewport::{AnchorView, CacheView, ListOffset, Px, SavedView, TurnView};

verus! {

// ---------------------------------------------------------------------------
// Anchors
// ---------------------------------------------------------------------------

/// How far apart two places are.
pub open spec fn between(a: int, b: int) -> int {
    if a < b {
        b - a
    } else {
        a - b
    }
}

proof fn lemma_no_nearer(rows: Seq<RowView>, entry_id: Seq<char>, at: usize)
    ensures
        crate::viewport::nearest_of(rows, entry_id, at) matches Some(i) ==> i < rows.len()
            && rows[i as int].entry_id == entry_id && forall|j: int|
            0 <= j < rows.len() && (#[trigger] rows[j]).entry_id == entry_id ==> between(
                i as int,
                at as int,
            ) < between(j, at as int) || (between(i as int, at as int) == between(j, at as int)
                && i <= j),
    decreases rows.len(),
{
    crate::viewport::lemma_nearest(rows, entry_id, at);
    if rows.len() > 0 {
        let d = rows.drop_last();
        lemma_no_nearer(d, entry_id, at);
        crate::viewport::lemma_nearest(d, entry_id, at);
        if let Some(i) = crate::viewport::nearest_of(rows, entry_id, at) {
            assert forall|j: int|
                0 <= j < rows.len() && (#[trigger] rows[j]).entry_id == entry_id implies between(
                i as int,
                at as int,
            ) < between(j, at as int) || (between(i as int, at as int) == between(j, at as int)
                && i <= j) by {
                if j < d.len() {
                    assert(d[j].entry_id == entry_id);
                }
            }
        }
    }
}

/// An anchor whose row is gone goes to the top of its entry's row that lies
/// nearest to where it was, the upper of two as near.
pub proof fn law_an_anchor_goes_to_the_nearest_row(a: AnchorView, rows: Seq<RowView>, j: int)
    requires
        0 <= j < rows.len() <= usize::MAX,
        forall|k: int| 0 <= k < rows.len() ==> (#[trigger] rows[k]).id != a.row_id,
        rows[j].entry_id == a.entry_id,
    ensures
        ({
            let at = a.fallback_ix as int;
            let o = crate::viewport::found(a, rows)->0;
            &&& crate::viewport::found(a, rows) is Some
            &&& o.item_ix < rows.len() && rows[o.item_ix as int].entry_id == a.entry_id
            &&& o.offset_in_item == (Px { bits: 0 })
            &&& between(o.item_ix as int, at) <= between(j, at)
            &&& between(o.item_ix as int, at) == between(j, at) ==> o.item_ix <= j
        }),
{
    crate::viewport::lemma_position(rows, a.row_id);
    crate::viewport::lemma_nearest(rows, a.entry_id, a.fallback_ix);
    lemma_no_nearer(rows, a.entry_id, a.fallback_ix);
}

/// An anchor whose entry is gone goes to the top of the row at its old place, or
/// of the last one where there are fewer; without rows it goes nowhere.
pub proof fn law_an_anchor_without_an_entry_keeps_its_place(a: AnchorView, rows: Seq<RowView>)
    requires
        rows.len() <= usize::MAX,
        forall|k: int| 0 <= k < rows.len() ==> (#[trigger] rows[k]).id != a.row_id,
        forall|k: int| 0 <= k < rows.len() ==> (#[trigger] rows[k]).entry_id != a.entry_id,
    ensures
        rows.len() == 0 ==> crate::viewport::found(a, rows) is None,
        0 < rows.len() <= a.fallback_ix ==> crate::viewport::found(a, rows) == Some(
            ListOffset { item_ix: (rows.len() - 1) as usize, offset_in_item: Px { bits: 0 } },
        ),
        a.fallback_ix < rows.len() ==> crate::viewport::found(a, rows) == Some(
            ListOffset { item_ix: a.fallback_ix, offset_in_item: Px { bits: 0 } },
        ),
        crate::viewport::found_exact(a, rows) is None,
{
    crate::viewport::lemma_position(rows, a.row_id);
    crate::viewport::lemma_nearest(rows, a.entry_id, a.fallback_ix);
}

/// An anchor names the row that stands at the top, and how far into it; past the
/// last row it names the last.
pub proof fn law_an_anchor_names_the_row_at_the_top(rows: Seq<RowView>, at: ListOffset)
    requires
        0 < rows.len() <= usize::MAX,
    ensures
        crate::viewport::anchored(rows, at) matches Some(a) && a.fallback_ix < rows.len()
            && a.row_id == rows[a.fallback_ix as int].id && a.entry_id
            == rows[a.fallback_ix as int].entry_id && a.offset_in_row == at.offset_in_item && (
        at.item_ix < rows.len() ==> a.fallback_ix == at.item_ix) && (at.item_ix >= rows.len()
            ==> a.fallback_ix == rows.len() - 1),
        crate::viewport::anchored(Seq::empty(), at) is None,
{
}

/// What is remembered of a chat: nothing without rows; of one that follows its
/// end only that; else its place, its distance from the end and its turn.
pub proof fn law_a_followed_end_is_remembered_as_such(
    rows: Seq<RowView>,
    at: ListOffset,
    distance: Px,
    turn: Option<TurnView>,
)
    requires
        rows.len() > 0,
    ensures
        crate::viewport::saved(rows, at, true, distance, turn) == Some(SavedView::FollowTail),
        crate::viewport::saved(rows, at, false, distance, turn) matches Some(
            SavedView::Anchored { anchor, distance_from_bottom, own_turn },
        ) && crate::viewport::anchored(rows, at) == Some(anchor) && distance_from_bottom
            == distance && own_turn == turn,
        crate::viewport::saved(Seq::empty(), at, true, distance, turn) is None,
        crate::viewport::saved(Seq::empty(), at, false, distance, turn) is None,
{
}

/// A remembered viewport comes back with its distance, and with its turn where
/// the turn's prompt is there: the turn has its space, and lets go of the view.
/// Where no other row may stand in for its own, it waits for that.
pub proof fn law_a_viewport_comes_back_whole(
    anchor: AnchorView,
    distance: Px,
    turn: TurnView,
    rows: Seq<RowView>,
    fallback: bool,
)
    requires
        rows.len() <= usize::MAX,
    ensures
        ({
            let v = SavedView::Anchored {
                anchor,
                distance_from_bottom: distance,
                own_turn: Some(turn),
            };
            let there = exists|i: int| 0 <= i < rows.len() && (#[trigger] rows[i]).id == anchor.row_id;
            let prompt = exists|i: int|
                0 <= i < rows.len() && (#[trigger] rows[i]).turn_start && rows[i].entry_id
                    == turn.message_id;
            let r = crate::viewport::restored(v, rows, fallback);
            &&& r is Some <==> there || (fallback && rows.len() > 0)
            &&& r is Some ==> r->0.distance_from_bottom == distance
            &&& r is Some && there ==> rows[r->0.offset.item_ix as int].id == anchor.row_id
                && r->0.offset.offset_in_item == anchor.offset_in_row
            &&& r is Some && !prompt ==> r->0.own_turn is None
            &&& r is Some && prompt ==> r->0.own_turn == Some(
                TurnView {
                    chat_id: turn.chat_id,
                    message_id: turn.message_id,
                    runway: turn.runway,
                    held: false,
                    positioned: false,
                    seen_prompt: true,
                },
            )
        }),
        crate::viewport::restored(SavedView::FollowTail, rows, fallback) is None,
{
    crate::viewport::lemma_position(rows, anchor.row_id);
    if let Some(i) = crate::viewport::position_of(rows, anchor.row_id) {
        assert(rows[i as int].id == anchor.row_id);
    }
}

/// Up to 256 chats are remembered: one more is taken in without forgetting any
/// as long as there are fewer, or as it is among them.
pub proof fn law_a_cache_with_room_forgets_none(
    c: CacheView,
    key: Seq<char>,
    v: SavedView,
    other: Seq<char>,
)
    requires
        c.wf(),
        c.recency.len() < 256 || c.by_chat.contains_key(key),
        c.by_chat.contains_key(other),
        other != key,
    ensures
        c.inserted(key, v).by_chat.contains_key(other),
        c.inserted(key, v).by_chat[other] == c.by_chat[other],
        c.inserted(key, v).recency.last() == key,
        c.inserted(key, v).recency.len() <= 256,
{
    crate::viewport::lemma_without(c.recency, key);
}

/// Using a chat's viewport puts it last in line to be forgotten; asking for one
/// that is not there changes nothing.
pub proof fn law_a_used_viewport_is_the_last_to_go(c: CacheView, key: Seq<char>)
    requires
        c.wf(),
    ensures
        c.by_chat.contains_key(key) ==> c.touched(key).recency.last() == key
            && c.touched(key).recency.len() == c.recency.len(),
        !c.by_chat.contains_key(key) ==> c.touched(key) == c,
{
    crate::viewport::lemma_without(c.recency, key);
}

/// Lengths compare as floats do: of two that are numbers one is less, or they
/// are equal; what is no number is neither less nor at most anything; and both
/// zeros are the same.
pub proof fn law_lengths_compare_as_floats(a: Px, b: Px)
    ensures
        a.bits <= 0x7f80_0000 && b.bits <= 0x7f80_0000 ==> (a.less(b) <==> a.bits < b.bits),
        0x8000_0000 <= a.bits <= 0xff80_0000 && 0x8000_0000 <= b.bits <= 0xff80_0000 ==> (a.less(b)
            <==> a.bits > b.bits),
        0x8000_0000 < a.bits <= 0xff80_0000 && b.bits <= 0x7f80_0000 ==> a.less(b),
        0x7f80_0000 < a.bits < 0x8000_0000 || a.bits > 0xff80_0000 ==> !a.less(b) && !b.less(a)
            && !a.at_most(b) && !b.at_most(a),
        !a.is_nan() && !b.is_nan() ==> (a.at_most(b) <==> !b.less(a)),
        (Px { bits: 0 }).at_most(Px { bits: 0x8000_0000 }),
        (Px { bits: 0x8000_0000 }).at_most(Px { bits: 0 }),
{
}

// ---------------------------------------------------------------------------
// Live rows
// ---------------------------------------------------------------------------

/// Whether a live row has this id.
pub open spec fn live_row(rows: Seq<RowView>, id: Seq<char>) -> bool {
    exists|i: int|
        0 <= i < rows.len() && (#[trigger] rows[i]).kind is LiveMarkdown && rows[i].id == id
}

/// The live ids are those of the rows that are being written, and no others.
pub proof fn law_live_ids_are_those_of_live_rows(rows: Seq<RowView>, id: Seq<char>)
    ensures
        crate::sync::live_ids(rows).contains(id) <==> live_row(rows, id),
    decreases rows.len(),
{
    let ids = crate::sync::live_ids(rows);
    if rows.len() > 0 {
        let init = rows.drop_last();
        law_live_ids_are_those_of_live_rows(init, id);
        let before = crate::sync::live_ids(init);
        if before.contains(id) {
            let i = choose|i: int| 0 <= i < before.len() && before[i] == id;
            assert(ids[i] == id);
            let k = choose|k: int|
                0 <= k < init.len() && (#[trigger] init[k]).kind is LiveMarkdown && init[k].id
                    == id;
            assert(rows[k].kind is LiveMarkdown && rows[k].id == id);
        }
        if rows.last().kind is LiveMarkdown && rows.last().id == id {
            assert(rows[rows.len() - 1].kind is LiveMarkdown);
            assert(ids[before.len() as int] == id);
        }
        if ids.contains(id) {
            let i = choose|i: int| 0 <= i < ids.len() && ids[i] == id;
            if i < before.len() {
                assert(before[i] == id);
            }
        }
        if live_row(rows, id) {
            let k = choose|k: int|
                0 <= k < rows.len() && (#[trigger] rows[k]).kind is LiveMarkdown && rows[k].id
                    == id;
            if k < init.len() {
                assert(init[k].kind is LiveMarkdown && init[k].id == id);
            }
        }
    }
}

proof fn lemma_still_live(ids: Seq<Seq<char>>, live: Seq<Seq<char>>, id: Seq<char>)
    ensures
        crate::sync::still_live(ids, live).contains(id) == (ids.contains(id) && live.contains(id)),
    decreases ids.len(),
{
    let r = crate::sync::still_live(ids, live);
    if ids.len() > 0 {
        let init = ids.drop_last();
        lemma_still_live(init, live, id);
        let before = crate::sync::still_live(init, live);
        if before.contains(id) {
            let i = choose|i: int| 0 <= i < before.len() && before[i] == id;
            assert(r[i] == id);
        }
        if init.contains(id) {
            let i = choose|i: int| 0 <= i < init.len() && init[i] == id;
            assert(ids[i] == id);
        }
        if ids.last() == id {
            assert(ids[ids.len() - 1] == id);
            if live.contains(id) {
                assert(r[before.len() as int] == id);
            }
        }
        if ids.contains(id) {
            let i = choose|i: int| 0 <= i < ids.len() && ids[i] == id;
            if i < init.len() {
                assert(init[i] == id);
            }
        }
        if r.contains(id) {
            let i = choose|i: int| 0 <= i < r.len() && r[i] == id;
            if i < before.len() {
                assert(before[i] == id);
            }
        }
    }
}

/// The first rows of a chat that was just opened make up the baseline, however
/// late they come. From there on it only loses the rows that live no more: a row
/// that goes live later is never of it.
pub proof fn law_the_baseline_is_what_was_there(
    ids: Seq<Seq<char>>,
    live: Seq<Seq<char>>,
    pending: bool,
    id: Seq<char>,
)
    ensures
        crate::sync::baseline_after(ids, pending, true, true, live) == (live, false),
        crate::sync::baseline_after(ids, true, false, true, live) == (live, false),
        crate::sync::baseline_after(ids, pending, true, false, live).1,
        !crate::sync::baseline_after(ids, pending, true, false, live).0.contains(id),
        crate::sync::baseline_after(ids, true, false, false, live).1,
        forall|entries: bool| #[trigger]
            crate::sync::baseline_after(ids, false, false, entries, live).0.contains(id) == (
            ids.contains(id) && live.contains(id)),
        forall|entries: bool|
            !(#[trigger] crate::sync::baseline_after(ids, false, false, entries, live)).1,
{
    lemma_still_live(ids, live, id);
    lemma_still_live(Seq::empty(), live, id);
}

/// Text that was there when its chat was opened does not fade in, text that came
/// later does; a veil that is there stays; and under reduced motion there is none.
pub proof fn law_only_new_text_fades_in(ids: Seq<Seq<char>>, id: Seq<char>, has: bool)
    ensures
        crate::sync::veil_start(ids, id, has, true) is None,
        crate::sync::veil_start(ids, id, true, false) == Some(VeilStart::Kept),
        ids.contains(id) ==> crate::sync::veil_start(ids, id, false, false) == Some(
            VeilStart::Seeded,
        ),
        !ids.contains(id) ==> crate::sync::veil_start(ids, id, false, false) == Some(
            VeilStart::Fresh,
        ),
{
}

/// Rows are at hand only of an entry that has settled, and only as long as its
/// fingerprint is the one they were built at.
pub proof fn law_changed_entries_are_built_anew(
    cache: Map<Seq<char>, (u64, Seq<RowView>)>,
    entry: SessionMessageEntry,
    fingerprint: u64,
    other: u64,
    rows: Seq<RowView>,
)
    ensures
        entry.status == Some(crate::message::MessageStatus::Streaming)
            ==> !crate::sync::rows_at_hand(cache, entry, fingerprint),
        !cache.contains_key(entry.id@) ==> !crate::sync::rows_at_hand(cache, entry, fingerprint),
        other != fingerprint ==> !crate::sync::rows_at_hand(
            cache.insert(entry.id@, (fingerprint, rows)),
            entry,
            other,
        ),
{
}

// ---------------------------------------------------------------------------
// The room of a turn
// ---------------------------------------------------------------------------

/// A turn measured in a layout that stands elsewhere on the screen comes to the
/// same lengths.
pub proof fn law_lengths_do_not_depend_on_the_place(b: TurnBounds, c: TurnBounds, by: int)
    requires
        c.viewport_top == b.viewport_top + by,
        b.prompt_top is Some && c.prompt_top is Some,
        c.prompt_top->0 == b.prompt_top->0 + by,
        b.last_bottom is Some && c.last_bottom is Some,
        c.last_bottom->0 == b.last_bottom->0 + by,
        c.viewport_height == b.viewport_height,
        c.inset == b.inset,
        c.base_pad == b.base_pad,
        c.distance == b.distance,
        c.runway == b.runway,
        c.positioned == b.positioned,
    ensures
        crate::geometry::lengths_of(c) == crate::geometry::lengths_of(b),
{
}

/// A prompt goes to its place, the inset below the viewport's top: what is left
/// to go is how far it is from there. A glide skips what is beyond two viewports
/// and a half, and only then; a prompt that was at its place skips nothing.
pub proof fn law_a_prompt_goes_to_its_place(b: TurnBounds, top: i32)
    requires
        b.prompt_top == Some(top),
        b.viewport_height >= 0,
    ensures
        ({
            let l = crate::geometry::lengths_of(b);
            let off = top - b.viewport_top - b.inset;
            &&& l.anchored
            &&& l.error + l.skipped == off
            &&& l.skipped >= 0
            &&& b.positioned ==> l.skipped == 0
            &&& 2 * l.error > 5 * b.viewport_height ==> b.positioned
            &&& l.skipped > 0 ==> 5 * b.viewport_height - 2 < 2 * l.error <= 5 * b.viewport_height
            &&& l.near <==> -64 <= l.error <= 64
            &&& l.below <==> l.error > 32
            &&& l.drifted <==> l.error > 32 || l.error < -256
            &&& l.in_band <==> -256 <= l.error <= 64
        }),
{
}

/// Where the prompt is not measured, the end stands in for it: what is left to go
/// is the distance from the end, and no room is wanted.
pub proof fn law_an_unmeasured_prompt_goes_by_the_end(b: TurnBounds)
    requires
        b.prompt_top is None,
        b.viewport_height >= 0,
    ensures
        ({
            let l = crate::geometry::lengths_of(b);
            &&& !l.anchored && l.wanted is None && !l.resized
            &&& l.error + l.skipped == b.distance
            &&& l.near <==> l.error <= 64
            &&& l.drifted <==> b.distance > 128 + 512
        }),
{
}

/// A turn that rests at the end has room for the viewport to fill: the turn's own
/// height and its room come to the viewport's height without the inset and the
/// padding, and two pixels more; a taller turn keeps the room it has and asks for
/// none. It is resized where that is more than half a pixel off.
pub proof fn law_a_turn_and_its_room_fill_the_viewport(b: TurnBounds, top: i32, bottom: i32)
    requires
        b.prompt_top == Some(top),
        b.last_bottom == Some(bottom),
    ensures
        ({
            let l = crate::geometry::lengths_of(b);
            let tall = bottom - top - b.runway - b.base_pad;
            let full = b.viewport_height - b.inset - b.base_pad + 128;
            let w = l.wanted->0;
            &&& l.wanted is Some
            &&& l.laid_out <==> b.viewport_height > 0
            &&& l.usable == if full > 0 {
                full
            } else {
                0
            }
            &&& tall <= full ==> tall + w >= full
            &&& b.distance <= 128 ==> w >= b.runway
            &&& b.distance > 128 ==> w >= b.runway - (b.distance - 128)
            &&& w == 0 || tall + w == full || w == b.runway || w == b.runway - (b.distance - 128)
            &&& b.runway <= 0 && b.distance <= 128 && tall <= full ==> tall + w == full
            &&& l.resized <==> !(-32 <= w - b.runway <= 32)
        }),
{
}

/// An edge is 36 pixels wide, or a third of a viewport that is lower than three
/// of them.
pub proof fn law_an_edge_is_a_third_at_most(height: int)
    ensures
        crate::geometry::edge_thrice(height) <= height,
        crate::geometry::edge_thrice(height) <= 3 * 36 * 64,
        height >= 3 * 36 * 64 ==> crate::geometry::edge_thrice(height) == 3 * 36 * 64,
        height <= 3 * 36 * 64 ==> crate::geometry::edge_thrice(height) == height,
{
}

/// Both edges pull alike: a pointer as far from the bottom as another from the
/// top scrolls as far, the other way. Half an edge deep it scrolls a quarter as
/// far as at the end of the edge, which is 24 pixels.
pub proof fn law_edges_pull_alike(top: int, height: int, y: int)
    requires
        height > 0,
        2 * (y - top) < height,
    ensures
        crate::geometry::edge_step(top, height, top + height - (y - top))
            == -crate::geometry::edge_step(top, height, y),
        crate::geometry::edge_step(top, height, top) == -24 * crate::geometry::step_den(height),
        6 * (y - top) == crate::geometry::edge_thrice(height) ==> 4
            * crate::geometry::edge_step(top, height, y) == -24 * crate::geometry::step_den(height),
{
    let edge = crate::geometry::edge_thrice(height);
    let d = edge - 3 * (y - top);
    if 6 * (y - top) == edge {
        assert(4 * (24 * (d * d)) == 24 * (edge * edge)) by (nonlinear_arith)
            requires
                2 * d == edge,
        ;
    }
}

} // verus!
