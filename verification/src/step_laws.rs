//! What holds of every single step: what a call leaves behind and what it says.
use vstd::prelude::*;

use crate::attach::RetrySet;
use crate::chips::{BlobStore, ChipIcon, FetchStep, FetchView, Folds};
use crate::frames::{FrameReport, FrameStats};
use crate::highlights::{HighlightStep, HighlightStore, SourceKey};
use crate::panes::{RightPane, RightTabDrag};
use crate::rowview::{BottomPad, Hover, MetaStrip, TopGap};
use crate::rows::Row;
use crate::scroll::Transcript;
use crate::selection::{DragPoint, SelectionScroll, SelectionStep};
use crate::tools::{SubagentStatus, ToolDetail, ToolItem};
use crate::viewport::{Px, SavedView};

verus! {

// ---------------------------------------------------------------------------
// The transcript
// ---------------------------------------------------------------------------

/// A transcript opens at its end where it follows it. That of one document shows
/// no other, has no rail, and shows a finished document from its end once.
pub proof fn law_a_transcript_opens_at_its_end(doc: Seq<char>, follow: bool)
    ensures
        ({
            let chats = crate::scroll::opened(None, true);
            let one = crate::scroll::opened(Some(doc), follow);
            &&& chats.pinned && chats.chat_id is None && chats.place.rail_enabled
            &&& !chats.land_end_pending && !chats.place.doc_live
            &&& one.chat_id == Some(doc) && one.place.doc_override == Some(doc)
            &&& one.pinned == follow && one.place.doc_live == follow
            &&& one.land_end_pending == !follow
            &&& !one.place.rail_enabled
            &&& chats.own_turn is None && one.own_turn is None
            &&& chats.pending is None && one.pending is None
            &&& !chats.show_jump_button && !one.show_jump_button
            &&& !chats.turn_kick && !one.turn_kick && !chats.turn_ticking && !one.turn_ticking
            &&& !chats.finalize_pending && !one.finalize_pending
            &&& chats.place.bottom_clearance == 0 && one.place.bottom_clearance == 0
            &&& !one.spring.kick && !one.spring.ticking && !one.spring.settled
            &&& chats.spring == one.spring && chats.last_distance == (Px { bits: 0 })
        }),
{
}

/// A navigation takes the viewport: nothing is pinned, held, waited for or
/// gliding any more, while a turn keeps its space.
pub proof fn law_a_navigation_takes_the_viewport()
    ensures
        forall|t: &mut Transcript| #[trigger]
            call_ensures(Transcript::begin_scroll_navigation, (t,), ()) ==> {
                let was = (*t)@;
                let now = final(t)@;
                &&& !now.pinned && !now.held() && now.pending is None
                &&& now.spring == crate::scroll::parked()
                &&& now.chat_id == was.chat_id && now.place == was.place
                &&& now.own_turn is Some <==> was.own_turn is Some
                &&& was.own_turn is Some ==> now.own_turn->0.runway == was.own_turn->0.runway
                    && now.own_turn->0.message_id == was.own_turn->0.message_id
            },
        forall|t: &mut Transcript| #[trigger]
            call_ensures(Transcript::begin_selection_scroll, (t,), ()) ==> {
                let was = (*t)@;
                let now = final(t)@;
                &&& !now.pinned && !now.held() && now.pending is None && !now.spring.ticking
                &&& now.chat_id == was.chat_id && now.place == was.place
                &&& now.own_turn is Some <==> was.own_turn is Some
            },
{
}

/// A viewport that is given up while it waits is not waited for again: its chat
/// counts as one that follows its end. Where none waits nothing changes.
pub proof fn law_a_viewport_given_up_is_forgotten(v: crate::scroll::TranscriptView, chat: Seq<char>)
    requires
        v.wf(),
        v.chat_id == Some(chat),
    ensures
        v.pending is None ==> v.discarded() == v,
        v.pending is Some ==> {
            let now = v.discarded();
            &&& now.pending is None
            &&& now.saved.by_chat.contains_key(chat)
            &&& now.saved.by_chat[chat] == SavedView::FollowTail
            &&& now.pinned == v.pinned && now.own_turn == v.own_turn
            &&& now.last_distance == v.last_distance
        },
{
    crate::viewport::law_insert_then_get(v.saved, chat, SavedView::FollowTail);
}

/// The button back to the end goes to the held prompt while a turn has its space,
/// and pins the end else; it is gone either way. Motion is called for unless it is
/// reduced.
pub proof fn law_the_button_goes_back_to_the_end(reduced: bool, pinned: bool)
    ensures
        forall|t: &mut Transcript| #[trigger]
            call_ensures(Transcript::jump_to_bottom, (t, reduced), pinned) ==> {
                let was = (*t)@;
                let now = final(t)@;
                &&& pinned <==> was.own_turn is None
                &&& !now.show_jump_button && now.pending is None
                &&& was.own_turn is None ==> now.pinned
                &&& was.own_turn is None && !reduced ==> now.spring.kick && !now.spring.settled
                &&& was.own_turn is None && reduced ==> now.spring == was.spring
                &&& was.own_turn is Some ==> now.held() && !now.own_turn->0.positioned
                    && now.turn_kick && now.pinned == was.pinned
            },
        forall|t: &mut Transcript| #[trigger]
            call_ensures(Transcript::engage_pin, (t, reduced), ()) ==> {
                let was = (*t)@;
                let now = final(t)@;
                &&& now.pinned && !now.show_jump_button
                &&& !reduced ==> now.spring.kick && !now.spring.settled
                &&& reduced ==> now.spring == was.spring
                &&& now.own_turn == was.own_turn && now.pending == was.pending
            },
{
}

/// After a scroll of its own the transcript knows its distance, and offers the
/// way back to the end beyond 320 pixels.
pub proof fn law_a_scroll_of_its_own_is_noted(distance: Px)
    requires
        distance.bits <= 0x7f80_0000,
    ensures
        forall|t: &mut Transcript| #[trigger]
            call_ensures(Transcript::note_scrolled, (t, distance), ()) ==> {
                &&& final(t)@.last_distance == distance
                &&& final(t)@.show_jump_button <==> distance.bits > 0x43a0_0000
                &&& final(t)@.pinned == (*t)@.pinned && final(t)@.own_turn == (*t)@.own_turn
            },
        forall|t: &mut Transcript| #[trigger]
            call_ensures(Transcript::note_distance, (t, distance), ()) ==> {
                &&& final(t)@.last_distance == distance
                &&& final(t)@.show_jump_button == (*t)@.show_jump_button
                &&& final(t)@.pinned == (*t)@.pinned
            },
{
}

/// What covers the end changes by more than half a pixel or not at all. A turn's
/// space is then measured anew, and nobody lets go of the viewport.
pub proof fn law_a_clearance_moves_by_half_a_pixel(height: i32, rows: usize, changed: bool)
    ensures
        forall|t: &mut Transcript| #[trigger]
            call_ensures(Transcript::set_bottom_clearance, (t, height, rows), changed) ==> {
                let was = (*t)@;
                let now = final(t)@;
                let by = height - was.place.bottom_clearance;
                &&& changed <==> !(-32 <= by <= 32)
                &&& !changed ==> now == was
                &&& changed ==> now.place.bottom_clearance == height
                &&& changed && was.own_turn is Some ==> now.turn_kick
                &&& changed && was.own_turn is Some && rows > 0 ==> now.layout_revision
                    == was.layout_revision.wrapping_add(1)
                &&& changed && was.own_turn is None ==> now.turn_kick == was.turn_kick
                    && now.layout_revision == was.layout_revision
                &&& now.pinned == was.pinned && now.own_turn == was.own_turn
            },
{
}

/// The rail gets its room or loses it, and nothing else changes.
pub proof fn law_the_rail_is_as_it_was_set(enabled: bool, changed: bool)
    ensures
        forall|t: &mut Transcript| #[trigger]
            call_ensures(Transcript::set_rail_enabled, (t, enabled), changed) ==> {
                &&& final(t)@.place.rail_enabled == enabled
                &&& changed <==> (*t)@.place.rail_enabled != enabled
                &&& final(t)@.place.bottom_clearance == (*t)@.place.bottom_clearance
                &&& final(t)@.pinned == (*t)@.pinned
            },
{
}

/// A streaming reply keeps the end in place only where the view is pinned and
/// rests within two pixels of it.
pub proof fn law_only_a_rested_end_is_kept(pinned: bool, distance: Px, streaming: bool, r: bool)
    requires
        call_ensures(
            crate::scroll::should_anchor_live_stream,
            (pinned, distance, streaming),
            r,
        ),
        distance.bits <= 0x7f80_0000,
    ensures
        r <==> pinned && streaming && distance.bits <= 0x4000_0000,
{
}

/// A layout after a restored viewport counts only for the chat that it was
/// restored for: then the distance is fresh, and the waiting ends with a layout
/// after which none was asked for.
pub proof fn law_a_late_layout_is_for_its_own_chat(
    token: crate::viewport::ViewportFinalizeToken,
    distance: Px,
    r: bool,
)
    requires
        distance.bits <= 0x7f80_0000,
    ensures
        forall|t: &mut Transcript| #[trigger]
            call_ensures(Transcript::finalize_viewport, (t, token, distance), r) ==> {
                let was = (*t)@;
                let now = final(t)@;
                let mine = token.generation == was.generation;
                &&& !mine ==> now == was && r == was.finalize_pending
                &&& mine ==> r && now.last_distance == distance
                &&& mine && token.layout_revision == was.layout_revision ==> !now.finalize_pending
                &&& mine && token.layout_revision != was.layout_revision ==> now.finalize_pending
                    == was.finalize_pending
                &&& mine ==> (now.show_jump_button <==> distance.bits > 0x43a0_0000 && !was.pinned
                    && !was.held())
                &&& now.pinned == was.pinned && now.own_turn == was.own_turn
            },
{
}

// ---------------------------------------------------------------------------
// A selection that is dragged
// ---------------------------------------------------------------------------

/// A pointer that drags is followed, one that does not ends the drag; a step is
/// asked for once, and only by a pointer that drags at an edge; and a step that is
/// due scrolls only then.
pub proof fn law_a_drag_scrolls_at_an_edge(
    dragging: bool,
    at_edge: bool,
    at: DragPoint,
    follows: bool,
    waits: bool,
    step: SelectionStep,
)
    ensures
        forall|s: &mut SelectionScroll| #[trigger]
            call_ensures(SelectionScroll::moved, (s, dragging, at), follows) ==> {
                &&& follows == dragging
                &&& dragging ==> final(s).position == Some(at) && final(s).ticking == (*s).ticking
                &&& !dragging ==> final(s).position is None && !final(s).ticking
            },
        forall|s: &mut SelectionScroll| #[trigger]
            call_ensures(SelectionScroll::schedule, (s, dragging, at_edge), waits) ==> {
                &&& waits <==> !(*s).ticking && final(s).ticking
                &&& waits ==> dragging && at_edge && (*s).position is Some
                &&& dragging && at_edge && (*s).position is Some ==> final(s).ticking
                &&& final(s).position == (*s).position
            },
        forall|s: &mut SelectionScroll| #[trigger]
            call_ensures(SelectionScroll::tick, (s, dragging, at_edge), step) ==> {
                &&& !final(s).ticking
                &&& step == SelectionStep::Scroll <==> dragging && at_edge && (*s).position is Some
                &&& dragging ==> final(s).position == (*s).position
                &&& !dragging ==> final(s).position is None
            },
        forall|s: &mut SelectionScroll| #[trigger]
            call_ensures(SelectionScroll::stop, (s,), ()) ==> final(s).position is None
                && !final(s).ticking,
{
}

/// A window takes in every sample and reports once it is full, of 240; then it
/// starts anew.
pub proof fn law_a_full_window_reports(us: u64, r: Option<FrameReport>)
    ensures
        forall|s: &mut FrameStats| #[trigger]
            call_ensures(FrameStats::record, (s, us), r) && (*s)@.len() < 240 ==> {
                &&& r is Some <==> (*s)@.len() == 239
                &&& r is Some ==> final(s)@.len() == 0 && r->0.n == 240
                &&& r is None ==> final(s)@.len() == (*s)@.len() + 1 && final(s)@.contains(us)
            },
{
    assert forall|s: &mut FrameStats| #[trigger]
        call_ensures(FrameStats::record, (s, us), r) && (*s)@.len() < 240 implies {
        &&& r is Some <==> (*s)@.len() == 239
        &&& r is Some ==> final(s)@.len() == 0 && r->0.n == 240
        &&& r is None ==> final(s)@.len() == (*s)@.len() + 1 && final(s)@.contains(us)
    } by {
        let before = (*s)@;
        let p = crate::frames::place(before, us);
        crate::frames::lemma_place_len(before, us);
        assert(crate::frames::with_sample(before, us)[p as int] == us);
    }
}

// ---------------------------------------------------------------------------
// Folds and what is fetched
// ---------------------------------------------------------------------------

/// What was never touched is as its rule says; a click on a group's header turns
/// that group and no other, and no detail.
pub proof fn law_a_click_turns_its_own_group(
    row: &str,
    other: Seq<char>,
    height: u64,
    rule: bool,
    now: u64,
)
    ensures
        forall|f: &mut Folds| #[trigger]
            call_ensures(Folds::toggle_fold, (f, row, height, rule, now), ()) ==> {
                let was = crate::chips::fold_for((*f)@.groups, row@);
                let is = crate::chips::fold_for(final(f)@.groups, row@);
                &&& crate::chips::fold_open(is, rule) == !crate::chips::fold_open(was, rule)
                &&& is.from == if crate::chips::fold_open(was, rule) {
                    height
                } else {
                    0
                }
                &&& other != row@ ==> crate::chips::fold_for(final(f)@.groups, other)
                    == crate::chips::fold_for((*f)@.groups, other)
                &&& final(f)@.details == (*f)@.details
            },
        !crate::chips::fold_open(crate::chips::fold_for(Map::empty(), other), false),
        crate::chips::fold_open(crate::chips::fold_for(Map::empty(), other), true),
{
}

/// A click on a chip's header turns that chip's detail and no other; its group
/// stays open or closed as it is, and moves from the height that it had.
pub proof fn law_a_click_turns_its_own_detail(
    row: &str,
    ix: usize,
    rule: bool,
    card: u64,
    group: u64,
    now: u64,
    other: nat,
)
    requires
        other != ix,
    ensures
        forall|f: &mut Folds| #[trigger]
            call_ensures(Folds::toggle_detail, (f, row, ix, rule, card, group, now), ()) ==> {
                let key = crate::chips::detail_key(row@, ix as nat);
                let was = crate::chips::fold_for((*f)@.details, key);
                let is = crate::chips::fold_for(final(f)@.details, key);
                let before = crate::chips::fold_for((*f)@.groups, row@);
                let after = crate::chips::fold_for(final(f)@.groups, row@);
                let near = crate::chips::detail_key(row@, other);
                &&& crate::chips::fold_open(is, rule) == !crate::chips::fold_open(was, rule)
                &&& crate::chips::fold_open(was, rule) ==> is.from == card
                &&& !crate::chips::fold_open(was, rule) ==> is.from == 30
                &&& after.open == before.open && after.from == group
                &&& after.toggled_at == Some(now) && after.epoch == before.epoch.wrapping_add(1)
                &&& crate::chips::fold_for(final(f)@.details, near) == crate::chips::fold_for(
                    (*f)@.details,
                    near,
                )
            },
        forall|f: &mut Folds| #[trigger]
            call_ensures(Folds::clear_groups, (f,), ()) ==> final(f)@.groups == Map::<
                Seq<char>,
                crate::chips::FoldState,
            >::empty() && final(f)@.details == (*f)@.details,
{
    crate::chip_laws::law_chips_have_their_own_folds(row@, ix as nat, other);
}

/// What is asked for is fetched unless it is there or on its way, what failed
/// again; and what was asked for last is known to be.
pub proof fn law_what_is_missing_is_fetched(key: &str, step: FetchStep)
    ensures
        forall|s: &mut BlobStore| #[trigger]
            call_ensures(BlobStore::request, (s, key), step) ==> {
                let there = (*s)@.fetches.contains_key(key@);
                &&& step is Fetch <==> !there || (*s)@.fetches[key@] == FetchView::Failed
                &&& step is Wait <==> there && (*s)@.fetches[key@] == FetchView::Loading
                &&& step is Repaint <==> there && (*s)@.fetches[key@] is Ready
                &&& step matches FetchStep::Fetch { is_diff } ==> is_diff
                    == crate::chips::diff_key(key@)
                &&& final(s)@.fetches == (*s)@.fetches
                &&& final(s)@.order.contains_key(key@) && final(s)@.order[key@]
                    == final(s)@.counter
                &&& final(s)@.counter == (*s)@.counter.wrapping_add(1)
            },
        forall|s: &mut BlobStore| #[trigger]
            call_ensures(BlobStore::start, (s, key), ()) ==> final(s)@.fetches.contains_key(key@)
                && final(s)@.fetches[key@] == FetchView::Loading && final(s)@.order == (*s)@.order,
{
}

/// A fetch ends with its contents or in failure, and leaves the others alone.
pub proof fn law_a_fetch_ends_with_its_contents(key: &str, detail: Option<ToolDetail>, other: Seq<char>)
    ensures
        forall|s: &mut BlobStore| #[trigger]
            call_ensures(BlobStore::finish, (s, key, detail), ()) ==> {
                &&& final(s)@.fetches.contains_key(key@)
                &&& detail matches Some(d) ==> final(s)@.fetches[key@] == FetchView::Ready(d@)
                &&& detail is None ==> final(s)@.fetches[key@] == FetchView::Failed
                &&& other != key@ ==> final(s)@.fetches.contains_key(other)
                    == (*s)@.fetches.contains_key(other) && final(s)@.fetches[other]
                    == (*s)@.fetches[other]
                &&& final(s)@.order == (*s)@.order && final(s)@.counter == (*s)@.counter
            },
{
}

/// A diff's key is one that ends in `.diff`.
pub proof fn law_a_diffs_key_ends_so(head: Seq<char>, c: char)
    ensures
        crate::chips::diff_key(head + ".diff"@),
        c != 'f' ==> !crate::chips::diff_key(head.push(c)),
{
    reveal_strlit(".diff");
    let key = head + ".diff"@;
    assert(key.skip(key.len() - 5) =~= ".diff"@);
    let odd = head.push(c);
    if odd.len() >= 5 {
        assert(odd.skip(odd.len() - 5)[4] == c);
    }
}

// ---------------------------------------------------------------------------
// Highlights
// ---------------------------------------------------------------------------

/// A request takes what its place holds for the same source as long as it is
/// held, waits for what is being made for it, takes what the cache has, and else
/// has it made; its place is then for that source. Other places stay.
pub proof fn law_a_place_serves_one_source(
    row: &str,
    ix: usize,
    key: SourceKey,
    alive: bool,
    cached: Option<u64>,
    step: HighlightStep,
    other: Seq<char>,
)
    ensures
        forall|s: &mut HighlightStore| #[trigger]
            call_ensures(HighlightStore::request, (s, row, ix, key, alive, cached), step) ==> {
                let at = crate::highlights::slot_key(row@, ix as nat);
                let same = (*s)@.contains_key(at) && (*s)@[at].key == key;
                &&& step is Pending <==> same && (*s)@[at].document is None
                &&& same && alive && (*s)@[at].document is Some ==> step == (HighlightStep::Ready {
                    document: (*s)@[at].document->0,
                })
                &&& !same && cached is Some ==> step == (HighlightStep::Ready {
                    document: cached->0,
                })
                &&& step is Start <==> cached is None && !(same && ((*s)@[at].document is None
                    || alive))
                &&& final(s)@.contains_key(at) && final(s)@[at].key == key
                &&& step matches HighlightStep::Ready { document } ==> final(s)@[at].document
                    == Some(document)
                &&& other != at ==> final(s)@.contains_key(other) == (*s)@.contains_key(other)
                    && final(s)@[other] == (*s)@[other]
            },
{
}

/// Highlights that come late are taken only where their place still asks for
/// them.
pub proof fn law_late_highlights_are_dropped(
    row: &str,
    ix: usize,
    key: SourceKey,
    document: u64,
    retained: bool,
    taken: bool,
)
    ensures
        forall|s: &mut HighlightStore| #[trigger]
            call_ensures(HighlightStore::finish, (s, row, ix, key, document, retained), taken)
                ==> {
                let at = crate::highlights::slot_key(row@, ix as nat);
                &&& taken <==> (*s)@.contains_key(at) && (*s)@[at].key == key
                &&& !taken ==> final(s)@ == (*s)@
                &&& taken && retained ==> final(s)@[at].document == Some(document)
                &&& taken && !retained ==> final(s)@[at].document is None
                &&& taken ==> final(s)@[at].key == key
            },
{
}

/// The blocks to highlight are those that are code in a named language, of all or
/// of the one that is asked for, in their order.
pub proof fn law_named_code_is_highlighted(
    tree: crate::markdown::BlockTree,
    only: Option<usize>,
    n: nat,
    ix: usize,
)
    requires
        n <= tree.blocks@.len() <= usize::MAX,
    ensures
        crate::highlights::code_at(tree, only, n).contains(ix) <==> ix < n && (only is None || only
            == Some(ix)) && (tree.blocks@[ix as int].block matches crate::markdown::Block::CodeBlock {
            language,
            ..
        } && language is Some),
    decreases n,
{
    let all = crate::highlights::code_at(tree, only, n);
    if n > 0 {
        law_named_code_is_highlighted(tree, only, (n - 1) as nat, ix);
        let before = crate::highlights::code_at(tree, only, (n - 1) as nat);
        if before.contains(ix) {
            let i = choose|i: int| 0 <= i < before.len() && before[i] == ix;
            assert(all[i] == ix);
        }
        if all.contains(ix) {
            let i = choose|i: int| 0 <= i < all.len() && all[i] == ix;
            if i < before.len() {
                assert(before[i] == ix);
            }
        }
        if ix == n - 1 && crate::highlights::wants_highlight(
            tree.blocks@[n - 1].block,
            n - 1,
            only,
        ) {
            assert(all[before.len() as int] == ix);
        }
    }
}

// ---------------------------------------------------------------------------
// Retries
// ---------------------------------------------------------------------------

/// A next try is asked for once until it is made: it comes sixty milliseconds
/// after its time, and no other image's is touched.
pub proof fn law_a_try_is_asked_for_once(
    device: &str,
    path: &str,
    retry_in: u64,
    wait: Option<u64>,
    other: (Seq<char>, Seq<char>),
)
    requires
        retry_in <= u64::MAX - 60,
    ensures
        forall|s: &mut RetrySet| #[trigger]
            call_ensures(RetrySet::schedule, (s, device, path, retry_in), wait) ==> {
                let mine = (device@, path@);
                &&& (*s)@.contains(mine) ==> wait is None
                &&& !(*s)@.contains(mine) ==> wait is Some && wait->0 == retry_in + 60
                &&& final(s)@.contains(mine)
                &&& other != mine ==> final(s)@.contains(other) == (*s)@.contains(other)
            },
        forall|s: &mut RetrySet| #[trigger]
            call_ensures(RetrySet::wake, (s, device, path), ()) ==> {
                let mine = (device@, path@);
                &&& !final(s)@.contains(mine)
                &&& other != mine ==> final(s)@.contains(other) == (*s)@.contains(other)
            },
{
}

// ---------------------------------------------------------------------------
// Rows under the pointer
// ---------------------------------------------------------------------------

/// The pointer's row is the one it came onto last: a late leave of another row
/// takes nothing away, and moving within one entry moves no strip.
pub proof fn law_a_late_leave_takes_nothing(row: &str, entry: &str, moved: bool, left: bool)
    ensures
        forall|h: &mut Option<Hover>| #[trigger]
            call_ensures(crate::rowview::hover_row, (h, row, entry), moved) ==> {
                &&& *final(h) matches Some(now) && now.row@ == row@ && now.entry@ == entry@
                &&& moved <==> !(*h matches Some(was) && was.entry@ == entry@)
            },
        forall|h: &mut Option<Hover>| #[trigger]
            call_ensures(crate::rowview::leave_row, (h, row), left) ==> {
                &&& left <==> (*h matches Some(was) && was.row@ == row@)
                &&& left ==> *final(h) is None
                &&& !left ==> crate::rowview::opt_hover(*final(h)) == crate::rowview::opt_hover(*h)
            },
{
}

/// The strip under a row stands where the row has a time; it shows while the
/// pointer is on its entry, at the right under a prompt, copies what the row
/// copies, and tells of a copy of its own entry only.
pub proof fn law_a_strip_is_for_its_entry(
    row: &Row,
    hover: &Option<Hover>,
    copied: &Option<String>,
    strip: Option<MetaStrip>,
)
    requires
        call_ensures(crate::rowview::meta_strip, (row, hover, copied), strip),
    ensures
        strip is Some <==> row@.timestamp is Some,
        strip matches Some(s) ==> {
            &&& row@.timestamp == Some(s.ms)
            &&& s.at_end <==> row@.kind is User
            &&& s.shown <==> (*hover matches Some(h) && h.entry@ == row@.entry_id)
            &&& s.copied <==> (*copied matches Some(c) && c@ == row@.entry_id)
            &&& s.copy matches Some(c) ==> row@.copy_text == Some(c@)
            &&& s.copy is None ==> row@.copy_text is None
        },
{
}

/// Only the last row clears what the transcript scrolls under, and it keeps a
/// reply's space exactly while a row of its prompt's message is there; a row that
/// is not there has no frame.
pub proof fn law_the_last_row_keeps_the_space(
    rows: &Vec<Row>,
    ix: usize,
    in_pane: bool,
    turn: &Option<String>,
    frame: Option<(TopGap, BottomPad)>,
)
    requires
        call_ensures(crate::rowview::row_frame, (rows, ix, in_pane, turn), frame),
    ensures
        frame is Some <==> ix < rows@.len(),
        ix < rows@.len() - 1 ==> (frame matches Some((_, pad)) && pad == BottomPad::Nothing),
        ix == rows@.len() - 1 ==> (frame matches Some((_, pad)) && pad == BottomPad::Clearance {
            runway: *turn matches Some(m) && exists|i: int|
                0 <= i < rows@.len() && (#[trigger] rows@[i])@.entry_id == m@,
        }),
{
    let views = crate::rows::row_views(rows@);
    if let Some(m) = *turn {
        if crate::rowview::has_entry(views, Some(m@)) {
            let i = choose|i: int| 0 <= i < views.len() && (#[trigger] views[i]).entry_id == m@;
            assert(rows@[i]@.entry_id == m@);
        }
        if exists|i: int| 0 <= i < rows@.len() && (#[trigger] rows@[i])@.entry_id == m@ {
            let i = choose|i: int|
                0 <= i < rows@.len() && (#[trigger] rows@[i])@.entry_id == m@;
            assert(views[i].entry_id == m@);
        }
    }
}

// ---------------------------------------------------------------------------
// Tabs of the pane
// ---------------------------------------------------------------------------

/// Every diff gets a tab and a handle of its own, next to the last; a terminal
/// gets one where it was opened.
pub proof fn law_every_diff_has_its_own_tab(key: &str, id: u64, opened: Option<u64>)
    ensures
        forall|p: &mut RightPane| #[trigger]
            call_ensures(RightPane::register_diff_surface, (p, key), id) ==> {
                &&& id == (*p)@.diff_seq.wrapping_add(1) && final(p)@.diff_seq == id
                &&& final(p)@.tabs_for(key@) == (*p)@.tabs_for(key@).push(
                    crate::nav::RightSurface::Diff(id),
                )
                &&& final(p)@.panels_for(key@).right_active == crate::nav::RightSurface::Diff(id)
            },
        forall|p: &mut RightPane| #[trigger]
            call_ensures(RightPane::add_terminal_surface, (p, key, opened), ()) ==> {
                &&& opened is None ==> final(p)@ == (*p)@
                &&& opened matches Some(t) ==> final(p)@.tabs_for(key@) == (*p)@.tabs_for(
                    key@,
                ).push(crate::nav::RightSurface::Terminal(t)) && final(p)@.panels_for(
                    key@,
                ).right_active == crate::nav::RightSurface::Terminal(t)
            },
{
}

/// A dropped tab goes to the place that it was last over, in its own strip only;
/// the drag is over by it, as by letting go elsewhere.
pub proof fn law_a_dropped_tab_goes_where_it_was_over(
    same: bool,
    from: usize,
    to: Option<usize>,
    active: bool,
)
    ensures
        forall|d: &mut Option<RightTabDrag>| #[trigger]
            call_ensures(crate::panes::drop_right_tab, (d, same, from), to) ==> {
                &&& *final(d) is None
                &&& !same ==> to is None
                &&& same ==> (*d matches Some(drag) ==> to == Some(drag.over))
                &&& same && *d is None ==> to == Some(from)
            },
        forall|d: &mut Option<RightTabDrag>| #[trigger]
            call_ensures(crate::panes::heal_drag, (d, active), ()) ==> {
                &&& active ==> *final(d) == *d
                &&& !active ==> *final(d) is None
            },
{
}

// ---------------------------------------------------------------------------
// Chips
// ---------------------------------------------------------------------------

/// A chip's header shows its label, its detail and its model; a thought's shows
/// that it is one. It spins exactly while its subagent works, and is marked where
/// it or its subagent failed.
pub proof fn law_a_header_tells_its_chip(tool: &ToolItem, h: crate::chips::ChipHeader)
    requires
        call_ensures(crate::chips::chip_header_row, (tool,), h),
    ensures
        !tool@.is_thought ==> h.label@ == tool@.facts.label && h.detail@ == tool@.facts.detail,
        tool@.is_thought ==> h.label@ == "Thought process"@ && h.detail@.len() == 0 && h.icon
            == ChipIcon::Chat,
        h.model matches Some(m) ==> tool@.facts.model == Some(m@),
        h.model is None ==> tool@.facts.model is None,
        h.running <==> tool@.subagent_ref is Some && tool@.subagent_status == Some(
            SubagentStatus::Running,
        ),
        h.failed <==> tool@.is_error || (tool@.subagent_ref is Some && tool@.subagent_status
            == Some(SubagentStatus::Failed)),
        !tool@.is_thought && h.icon == ChipIcon::Bot ==> tool@.facts.spawn,
        !tool@.is_thought ==> h.icon != ChipIcon::Chat,
{
}

/// Each kind of call has its glyph: a command, documents that are read, written
/// or edited, a search, the web, a list; a tool of another kind has a bot's where
/// it spawns one.
pub proof fn law_each_call_has_its_glyph(call: crate::tools::CallView, spawn: bool)
    ensures
        ({
            let icon = crate::chips::call_icon(call, spawn);
            &&& call is Exec <==> icon == ChipIcon::Command
            &&& call is ReadFile || call is ApplyPatch <==> icon == ChipIcon::Document
            &&& call is WriteFile <==> icon == ChipIcon::DocumentAdd
            &&& call is EditFile <==> icon == ChipIcon::Pen
            &&& call is Search <==> icon == ChipIcon::Magnifier
            &&& call is Glob <==> icon == ChipIcon::Folder
            &&& call is WebFetch || call is WebSearch <==> icon == ChipIcon::Globe
            &&& call is Todo <==> icon == ChipIcon::Checklist
            &&& (call is Mcp || call is Unknown) && spawn <==> icon == ChipIcon::Bot
            &&& (call is Mcp || call is Unknown) && !spawn <==> icon == ChipIcon::Widget
        }),
{
}

/// A size below a kilobyte is told in bytes; a larger one in kilobytes, as many
/// as it takes to hold it and no more.
pub proof fn law_sizes_are_rounded_up(bytes: u64, kb: nat)
    ensures
        bytes < 1024 ==> crate::chips::kb_text(bytes) == crate::text::decimal(bytes as nat)
            + " B"@,
        bytes >= 1024 && (kb - 1) * 1024 < bytes <= kb * 1024 ==> crate::chips::kb_text(bytes)
            == crate::text::decimal(kb) + " KB"@,
{
    if (kb - 1) * 1024 < bytes <= kb * 1024 {
        assert((bytes as nat + 1023) / 1024 == kb);
    }
}

/// A group of tools and thoughts names its thoughts first, how many where there
/// are more than one, and then its tools.
pub proof fn law_thoughts_are_named_first(
    tools: Seq<crate::tools::ItemView>,
    shared: Seq<char>,
    n: nat,
)
    requires
        crate::chips::thoughts_in(tools) == n,
        0 < n < tools.len(),
        shared.len() > 0,
    ensures
        n == 1 ==> crate::chips::summary_of(tools, shared) == "Thought · "@ + shared,
        n > 1 ==> crate::chips::summary_of(tools, shared) == "Thought "@ + crate::text::decimal(n)
            + " times · "@ + shared,
{
}

/// The thoughts of a group are counted one by one.
pub proof fn law_each_thought_counts(
    tools: Seq<crate::tools::ItemView>,
    chip: crate::tools::ItemView,
)
    ensures
        crate::chips::thoughts_in(Seq::empty()) == 0,
        crate::chips::thoughts_in(tools.push(chip)) == crate::chips::thoughts_in(tools)
            + if chip.is_thought {
            1nat
        } else {
            0
        },
{
    assert(tools.push(chip).drop_last() =~= tools);
}

/// The summary of a group's tools is about all its chips that are no thoughts, in
/// their order, each with whether it failed.
pub proof fn law_every_tool_is_summed_up(tools: Seq<ToolItem>, last: ToolItem)
    ensures
        crate::chips::plain_calls(Seq::empty()).len() == 0,
        ({
            let before = crate::chips::plain_calls(tools);
            let all = crate::chips::plain_calls(tools.push(last));
            &&& last.is_thought ==> all == before
            &&& !last.is_thought ==> all.len() == before.len() + 1 && all.drop_last() == before
                && all.last() == (last.call, last.is_error)
        }),
{
    assert(tools.push(last).drop_last() =~= tools);
    let before = crate::chips::plain_calls(tools);
    if !last.is_thought {
        assert(crate::chips::plain_calls(tools.push(last)).drop_last() =~= before);
    }
}

/// A line of a thought shows the text of its runs on end, and each run that has
/// any sets as many bytes of it with its marks; a blank line shows nothing.
pub proof fn law_a_line_shows_its_runs(
    runs: Seq<crate::markdown::RunView>,
    last: crate::markdown::RunView,
)
    ensures
        crate::chips::runs_text(runs.push(last)) == crate::chips::runs_text(runs) + last.text,
        crate::chips::runs_text(Seq::empty()).len() == 0,
        last.text.len() == 0 ==> crate::chips::text_runs(runs.push(last))
            == crate::chips::text_runs(runs),
        last.text.len() > 0 ==> {
            let set = crate::chips::text_runs(runs.push(last));
            let run = set.last();
            &&& set.len() == crate::chips::text_runs(runs).len() + 1
            &&& set.drop_last() == crate::chips::text_runs(runs)
            &&& run.len == vstd::utf8::encode_utf8(last.text).len() as usize
            &&& run.bold == last.style.bold && run.italic == last.style.italic
            &&& run.code == last.style.code && run.strikethrough == last.style.strikethrough
            &&& run.link <==> last.style.link is Some
        },
{
    assert(runs.push(last).drop_last() =~= runs);
    if last.text.len() > 0 {
        assert(crate::chips::text_runs(runs.push(last)).drop_last() =~= crate::chips::text_runs(
            runs,
        ));
    }
}

/// A click on a chip that links to its subagent opens that subagent's transcript
/// in its chat, as one that goes on while it runs and as a finished one after.
pub proof fn law_a_link_opens_its_subagent(
    tool: &ToolItem,
    chat: &Option<String>,
    event: Option<crate::chips::TranscriptEvent>,
)
    requires
        call_ensures(crate::chips::open_subagent, (tool, chat), event),
    ensures
        event is Some <==> crate::chips::links_out(tool@),
        event matches Some(
            crate::chips::TranscriptEvent::OpenSubagent { chat_id, doc_id, title, frozen },
        ) ==> {
            &&& tool@.subagent_ref == Some(doc_id@)
            &&& *chat matches Some(c) ==> chat_id@ == c@
            &&& *chat is None ==> chat_id@.len() == 0
            &&& title@ == crate::titles::tab_title(tool@.call)
            &&& tool@.subagent_status == Some(SubagentStatus::Running) ==> !frozen
            &&& tool@.subagent_status == Some(SubagentStatus::Done) ==> frozen
            &&& tool@.subagent_status == Some(SubagentStatus::Failed) ==> frozen
            &&& tool@.subagent_status is None ==> !frozen
        },
{
}

/// The labels of a chip tell their numbers: how many lines are cut, how many are
/// added and deleted; and a question tells its header only once it is answered.
pub proof fn law_labels_tell_their_numbers(
    n: usize,
    a: u32,
    d: u32,
    header: &str,
    more: String,
    stats: (String, String),
    answered: String,
    open: String,
)
    requires
        call_ensures(crate::chips::more_lines_label, (n,), more),
        call_ensures(crate::chips::stat_labels, (a, d), stats),
        call_ensures(crate::chips::input_chip_value, (header, true), answered),
        call_ensures(crate::chips::input_chip_value, (header, false), open),
    ensures
        more@ == "… "@ + crate::text::decimal(n as nat) + " more lines"@,
        stats.0@ == "+"@ + crate::text::decimal(a as nat),
        stats.1@ == "−"@ + crate::text::decimal(d as nat),
        answered@ == header@,
        open@ == "Awaiting your answer…"@,
{
}

} // verus!
