//! What holds of every question that is asked of the state, and of its answer.
use std::ops::Range;

use vstd::prelude::*;

use crate::chips::FoldState;
use crate::clock::Moment;
use crate::highlights::Source;
use crate::message::{MessagePart, MessageStatus, SessionMessageEntry};
use crate::nav::{ChatPanels, NavEntry, NavHistory, RightSurface, SessionPanels};
use crate::panes::{RightPane, SurfaceOffer, ToggleStep};
use crate::rows::{Row, RowKind};
use crate::rowview::UserSections;
use crate::scroll::Transcript;
use crate::sync::{ListChange, RowCache, VeilBaseline};
use crate::titlebar::ClusterControls;
use crate::tools::{ToolDetail, ToolItem};
use crate::viewport::{
    OwnTurnAnchor, Px, SavedViewport, SavedViewportCache, TranscriptReplayState,
};

verus! {

// ---------------------------------------------------------------------------
// The transcript
// ---------------------------------------------------------------------------

/// Rows are built anew where another chat is selected or the state moved on, and only
/// then.
pub proof fn law_rows_are_built_anew_for_a_change(
    selected: &Option<String>,
    shown: &Option<String>,
    revision: u64,
    synced: u64,
    needed: bool,
)
    requires
        call_ensures(crate::sync::sync_needed, (selected, shown, revision, synced), needed),
    ensures
        revision != synced ==> needed,
        *selected is Some && *shown is None ==> needed,
        *selected is None && *shown is Some ==> needed,
        *selected is Some && *shown is Some && selected->0@ != shown->0@ ==> needed,
        *selected is Some && *shown is Some && selected->0@ == shown->0@ && revision == synced
            ==> !needed,
        *selected is None && *shown is None && revision == synced ==> !needed,
{
}

/// A chat counts as empty or as filled only once its history has arrived.
pub proof fn law_a_history_counts_once_it_arrived(
    replayed: bool,
    empty: bool,
    state: TranscriptReplayState,
    known_empty: bool,
    guesses: bool,
)
    requires
        call_ensures(crate::sync::replay_state, (replayed, empty), state),
        call_ensures(TranscriptReplayState::authoritative_empty, (state,), known_empty),
        call_ensures(TranscriptReplayState::allows_fallback, (state,), guesses),
    ensures
        known_empty <==> replayed && empty,
        guesses <==> replayed && !empty,
        !replayed ==> state == TranscriptReplayState::Pending,
{
}

/// A list that keeps its number of rows is measured anew in place; else rows take the
/// place of others.
pub proof fn law_equal_numbers_are_measured_in_place(
    range: Range<usize>,
    count: usize,
    change: ListChange,
)
    requires
        call_ensures(crate::sync::list_change, (range, count), change),
    ensures
        change is Remeasure <==> range.end - range.start == count,
        change matches ListChange::Remeasure(at) ==> at == range,
        change matches ListChange::Splice(at, n) ==> at == range && n == count,
{
}

/// A frame is asked for once, and only where something is to move: for the turn while
/// there is one, for the spring while the view is pinned and motion is wanted.
pub proof fn law_frames_are_asked_for_once(
    t: &Transcript,
    reduced: bool,
    distance: Px,
    idle: bool,
    turn: bool,
    turn_again: bool,
    spring: bool,
    spring_again: bool,
)
    requires
        call_ensures(Transcript::turn_frame_wanted, (t, false), turn),
        call_ensures(Transcript::turn_frame_wanted, (t, true), turn_again),
        call_ensures(Transcript::spring_frame_wanted, (t, false, reduced, distance, idle), spring),
        call_ensures(
            Transcript::spring_frame_wanted,
            (t, true, reduced, distance, idle),
            spring_again,
        ),
        distance.bits <= 0x7f80_0000,
    ensures
        !turn_again && !spring_again,
        turn <==> t@.own_turn is Some || t@.turn_kick,
        spring ==> t@.pinned && !reduced,
        t@.pinned && !reduced && (t@.spring.kick || t@.spring.settled || !idle || distance.bits
            > 0x3f00_0000) ==> spring,
        !t@.spring.kick && !t@.spring.settled && idle && distance.bits <= 0x3f00_0000 ==> !spring,
{
}

/// A scroll pins to the end again within 70 pixels of it, and only if it came nearer.
pub proof fn law_coming_nearer_pins_again(distance: Px, previous: Px, r: bool)
    requires
        call_ensures(Transcript::should_restick, (distance, previous), r),
        distance.bits <= 0x7f80_0000,
        previous.bits <= 0x7f80_0000,
    ensures
        r <==> distance.bits <= 0x428c_0000 && distance.bits < previous.bits,
{
}

/// A turn waits for its prompt, and ends when the prompt that was seen is gone.
pub proof fn law_a_turn_ends_with_its_prompt(present: bool, lives: bool)
    ensures
        forall|t: &mut OwnTurnAnchor| #[trigger]
            call_ensures(OwnTurnAnchor::observe_prompt, (t, present), lives) ==> {
                &&& lives <==> present || !(*t)@.seen_prompt
                &&& final(t)@.seen_prompt <==> present || (*t)@.seen_prompt
                &&& final(t)@.held == (*t)@.held && final(t)@.runway == (*t)@.runway
            },
{
}

/// What is remembered of a chat is given back, and stays remembered.
pub proof fn law_a_remembered_viewport_is_given_back(
    chat: &str,
    key: String,
    viewport: SavedViewport,
    r: Option<SavedViewport>,
)
    ensures
        forall|c: &mut SavedViewportCache| #[trigger]
            call_ensures(SavedViewportCache::get_cloned_and_touch, (c, chat), r) ==> {
                &&& r is Some <==> (*c)@.by_chat.contains_key(chat@)
                &&& r matches Some(v) ==> (*c)@.by_chat[chat@] == v@
                &&& final(c)@.by_chat == (*c)@.by_chat
            },
        forall|c: &mut SavedViewportCache| #[trigger]
            call_ensures(SavedViewportCache::insert, (c, key, viewport), ()) && (*c)@.wf() ==> {
                &&& final(c)@.by_chat.contains_key(key@)
                &&& final(c)@.by_chat[key@] == viewport@
                &&& final(c)@.recency.len() <= 256
            },
{
    assert forall|c: &mut SavedViewportCache| #[trigger]
        call_ensures(SavedViewportCache::insert, (c, key, viewport), ()) && (*c)@.wf() implies {
        &&& final(c)@.by_chat.contains_key(key@)
        &&& final(c)@.by_chat[key@] == viewport@
        &&& final(c)@.recency.len() <= 256
    } by {
        crate::viewport::law_insert_then_get((*c)@, key@, viewport@);
    }
}

/// Rows are kept of settled entries, and given back for the same fingerprint.
pub proof fn law_rows_are_kept_for_their_print(
    entry: &SessionMessageEntry,
    print: u64,
    rows: &Vec<Row>,
    cache: &RowCache,
    got: Option<Vec<Row>>,
)
    requires
        call_ensures(RowCache::get, (cache, entry, print), got),
    ensures
        got is Some <==> entry.status != Some(MessageStatus::Streaming) && cache@.contains_key(
            entry.id@,
        ) && cache@[entry.id@].0 == print,
        got matches Some(r) ==> crate::rows::row_views(r@) == cache@[entry.id@].1,
        forall|c: &mut RowCache| #[trigger]
            call_ensures(RowCache::keep, (c, entry, print, rows), ()) ==> {
                &&& entry.status == Some(MessageStatus::Streaming) ==> final(c)@ == (*c)@
                &&& entry.status != Some(MessageStatus::Streaming) ==> final(c)@.contains_key(
                    entry.id@,
                ) && final(c)@[entry.id@] == (print, crate::rows::row_views(rows@))
            },
{
}

/// The rows that were live when a chat was opened make up its baseline.
pub proof fn law_the_baseline_takes_the_first_rows(rows: &Vec<Row>)
    ensures
        forall|b: &mut VeilBaseline| #[trigger]
            call_ensures(VeilBaseline::update, (b, true, true, rows), ()) ==> {
                &&& !final(b).attach_pending
                &&& crate::text::texts(final(b).ids@) == crate::sync::live_ids(
                    crate::rows::row_views(rows@),
                )
            },
        forall|b: &mut VeilBaseline| #[trigger]
            call_ensures(VeilBaseline::update, (b, true, false, rows), ()) ==> {
                &&& final(b).attach_pending
                &&& final(b).ids@.len() == 0
            },
{
    assert forall|b: &mut VeilBaseline| #[trigger]
        call_ensures(VeilBaseline::update, (b, true, false, rows), ()) implies {
        &&& final(b).attach_pending
        &&& final(b).ids@.len() == 0
    } by {
        let ids = crate::text::texts(final(b).ids@);
        assert(ids.len() == final(b).ids@.len());
        assert(ids =~= Seq::<Seq<char>>::empty());
    }
}

/// A list glued to its end stands at the first row that reaches more than half a pixel
/// below the viewport's top, as far into it as lies above.
pub proof fn law_a_glued_list_stands_at_its_first_row(
    bounds: &Vec<Option<(i32, i32)>>,
    top: i32,
    at: Option<(usize, i64)>,
    i: int,
    from: i32,
    to: i32,
)
    requires
        call_ensures(crate::layout::materialize_scroll_anchor, (bounds, top), at),
        0 <= i < bounds@.len(),
        bounds@[i] == Some((from, to)),
    ensures
        to > top + 32 ==> (at matches Some((ix, _)) && ix <= i),
        to <= top + 32 ==> (at matches Some((ix, _)) ==> ix != i),
        at matches Some((ix, offset)) ==> (ix == i ==> offset == top - from),
{
}

/// There is no space above a prompt in the first row.
pub proof fn law_the_first_prompt_has_no_space_above(ix: usize, inset: i32, r: i32)
    requires
        call_ensures(crate::layout::own_send_inset, (ix, inset), r),
    ensures
        ix == 0 ==> r == 0,
        ix > 0 ==> r == inset,
{
}

/// A message on its way bridges to its turn: as long as the turn is not newer than it.
pub proof fn law_a_send_bridges_to_its_turn(send: Option<Moment>, turn: Option<Moment>, r: bool)
    requires
        call_ensures(crate::clock::sending_bridge, (send, turn), r),
    ensures
        send is None ==> !r,
        send is Some && turn is None ==> r,
        send is Some && turn is Some ==> (r <==> turn->0.secs < send->0.secs || (turn->0.secs
            == send->0.secs && turn->0.nanos <= send->0.nanos)),
{
}

// ---------------------------------------------------------------------------
// Messages
// ---------------------------------------------------------------------------

/// The raw text of a prompt holds all its text parts, the blank ones too, with an
/// empty line between each two; other parts add nothing.
pub proof fn law_raw_text_holds_every_text(
    entry: SessionMessageEntry,
    longer: SessionMessageEntry,
    id: String,
    text: String,
)
    requires
        longer.parts@ == entry.parts@.push(MessagePart::Text { id, text }),
    ensures
        ({
            let before = crate::message::text_parts(entry.parts@, true);
            let raw = crate::message::joined_text(entry.parts@, true);
            let after = crate::message::joined_text(longer.parts@, true);
            &&& before.len() == 0 ==> after == text@
            &&& before.len() > 0 ==> after == raw + "\n\n"@ + text@
        }),
        forall|e: &SessionMessageEntry, r: String| #[trigger]
            call_ensures(crate::message::raw_text, (e,), r) ==> r@ == crate::message::joined_text(
                e.parts@,
                true,
            ),
{
    assert(longer.parts@.drop_last() =~= entry.parts@);
    let before = crate::message::text_parts(entry.parts@, true);
    let after = crate::message::text_parts(longer.parts@, true);
    assert(after == before.push(text@));
    if before.len() > 0 {
        assert(after.drop_last() =~= before);
    }
}

/// The texts of a list are those of its items that are texts, in order.
pub proof fn law_texts_among_items_keep_their_order(
    items: Seq<serde_json::Value>,
    last: serde_json::Value,
)
    ensures
        crate::json::json_text(last) is None ==> crate::json::texts_among(items.push(last))
            == crate::json::texts_among(items),
        crate::json::json_text(last) matches Some(t) ==> crate::json::texts_among(items.push(last))
            == crate::json::texts_among(items).push(t),
        crate::json::texts_among(Seq::empty()).len() == 0,
{
    assert(items.push(last).drop_last() =~= items);
}

/// A field that is missing, or is of another kind, gives no text, no texts and a zero.
pub proof fn law_a_missing_field_gives_nothing(v: serde_json::Value, key: Seq<char>)
    requires
        !crate::json::json_fields(v).contains_key(key),
    ensures
        crate::json::text_field(v, key) is None,
        crate::json::count_field(v, key) == 0,
        crate::json::text_items(v, key).len() == 0,
{
}

/// A field that is there gives its text, its number or its texts.
pub proof fn law_a_field_gives_what_it_holds(v: serde_json::Value, key: Seq<char>, n: u64)
    requires
        crate::json::json_fields(v).contains_key(key),
    ensures
        crate::json::text_field(v, key) == crate::json::json_text(crate::json::json_fields(v)[key]),
        crate::json::json_count(crate::json::json_fields(v)[key]) == Some(n)
            ==> crate::json::count_field(v, key) == n,
        crate::json::json_items(crate::json::json_fields(v)[key]) matches Some(items)
            ==> crate::json::text_items(v, key) == crate::json::texts_among(items),
{
}

// ---------------------------------------------------------------------------
// Rows
// ---------------------------------------------------------------------------

/// A prompt shows its images, its badges and its bubble, each where it has any; a row
/// that is no prompt shows none of them.
pub proof fn law_a_prompt_shows_what_it_has(kind: &RowKind, r: Option<UserSections>)
    requires
        call_ensures(crate::rowview::user_sections, (kind,), r),
    ensures
        r is Some <==> kind@ is User,
        kind@ matches crate::rows::KindView::User { text, attachments, badges, pending, .. }
            ==> (r matches Some(s) && (s.bubble <==> text.len() > 0) && (s.attachments
            <==> attachments@.len() > 0) && (s.badges <==> badges@.len() > 0) && s.faint
            == pending),
{
}

/// The block that was copied shows so in its own row only.
pub proof fn law_a_copied_block_shows_in_its_row(
    copied: &Option<(String, usize)>,
    row: &str,
    r: Option<usize>,
)
    requires
        call_ensures(crate::rowview::copied_block, (copied, row), r),
    ensures
        *copied is None ==> r is None,
        *copied matches Some(c) ==> (c.0@ == row@ ==> r == Some(c.1)) && (c.0@ != row@
            ==> r is None),
{
}

/// An image is fetched by relay from any device but this one.
pub proof fn law_no_relay_to_this_device(local: &Option<String>, device: &str, r: Option<String>)
    requires
        call_ensures(crate::attach::relay_target, (local, device), r),
    ensures
        r is None <==> (*local matches Some(l) && l@ == device@),
        r matches Some(d) ==> d@ == device@,
{
}

/// A diff is highlighted on both sides, each by the text and the path that it has
/// there; no other detail is.
pub proof fn law_both_sides_of_a_diff_are_highlighted(
    detail: &ToolDetail,
    r: Option<(Option<Source>, Option<Source>)>,
)
    requires
        call_ensures(crate::highlights::diff_sources, (detail,), r),
    ensures
        r is Some <==> detail@ is Diff,
        detail@ matches crate::tools::DetailView::Diff { file, old_text, new_text } ==> (
        r matches Some((old, new)) && (old is Some <==> old_text is Some) && (new is Some
            <==> new_text is Some) && (old matches Some(s) ==> Some(s.text@) == old_text && (
        file.old_path is None ==> s.path@ == file.path) && (file.old_path is Some ==> Some(s.path@)
            == file.old_path)) && (new matches Some(s) ==> Some(s.text@) == new_text && s.path@
            == file.path)),
{
}

/// A chip links to its subagent where it spawned one whose document is known.
pub proof fn law_a_spawn_links_once_its_document_is_known(item: &ToolItem, link: bool, agent: bool)
    requires
        call_ensures(crate::tools::is_spawn_link, (item,), link),
        call_ensures(crate::tools::is_agent_tool, (item,), agent),
    ensures
        link <==> agent && item@.subagent_ref is Some,
        agent <==> item@.facts.spawn,
{
}

/// A streaming thought is open by its rule, and no other chip is.
pub proof fn law_only_a_streaming_thought_opens_itself(item: &ToolItem, r: bool, f: FoldState)
    requires
        call_ensures(crate::chips::chip_rule, (item,), r),
        f.open is None,
    ensures
        r <==> item@.is_thought && !item@.resolved,
        crate::chips::fold_open(f, r) == r,
{
}

// ---------------------------------------------------------------------------
// Panes and routes
// ---------------------------------------------------------------------------

/// A transcript runs while its last entry streams.
pub proof fn law_a_transcript_runs_by_its_last_entry(entries: &Vec<SessionMessageEntry>, r: bool)
    requires
        call_ensures(crate::panes::is_running, (entries,), r),
    ensures
        entries@.len() == 0 ==> !r,
        entries@.len() > 0 ==> (r <==> entries@[entries@.len() - 1].status == Some(
            MessageStatus::Streaming,
        )),
{
}

/// The pane offers a terminal always and a diff where there is a repository; it adds
/// by a button only behind a tab.
pub proof fn law_the_pane_offers_what_can_open(
    git: bool,
    offers: Vec<SurfaceOffer>,
    rows: &Vec<(RightSurface, String)>,
    add: bool,
)
    requires
        call_ensures(crate::panes::surface_offers, (git,), offers),
        call_ensures(crate::panes::shows_add, (rows,), add),
    ensures
        offers@.contains(SurfaceOffer::Terminal),
        offers@.contains(SurfaceOffer::Git) <==> git,
        offers@.len() == if git {
            2nat
        } else {
            1
        },
        offers@[0] == SurfaceOffer::Terminal,
        add <==> rows@.len() > 0,
{
    assert(offers@[0] == SurfaceOffer::Terminal);
    if git {
        assert(offers@[1] == SurfaceOffer::Git);
    }
}

/// A shut pane shows nothing; an open one shows the tab that is resolved for its chat.
pub proof fn law_a_shut_pane_shows_nothing(
    p: &RightPane,
    key: &str,
    in_chat: bool,
    diffs: &Vec<(u64, String)>,
    terminals: &Vec<(u64, String)>,
    shown: Option<RightSurface>,
    tab: RightSurface,
)
    requires
        call_ensures(RightPane::shown_surface, (p, key, in_chat, diffs, terminals), shown),
        call_ensures(RightPane::resolved_right_active, (p, key, diffs, terminals), tab),
    ensures
        shown is Some <==> in_chat && p@.panels_for(key@).changes_open,
        shown is Some ==> shown == Some(tab),
{
}

/// A tab moves to another place where both places are there and differ; it is then
/// at that place, and nothing else of the pane changes.
pub proof fn law_a_tab_moves_to_its_place(key: &str, from: usize, to: usize, moved: bool)
    ensures
        forall|p: &mut RightPane| #[trigger]
            call_ensures(RightPane::reorder_right_tabs, (p, key, from, to), moved) ==> {
                let was = (*p)@.tabs_for(key@);
                let now = final(p)@.tabs_for(key@);
                &&& moved <==> from < was.len() && to < was.len() && from != to
                &&& moved ==> now.len() == was.len() && now[to as int] == was[from as int]
                &&& moved ==> now.to_multiset() == was.to_multiset()
                &&& !moved ==> final(p)@ == (*p)@
                &&& final(p)@.panels == (*p)@.panels && final(p)@.subagents == (*p)@.subagents
            },
{
    assert forall|p: &mut RightPane| #[trigger]
        call_ensures(RightPane::reorder_right_tabs, (p, key, from, to), moved) implies {
        let was = (*p)@.tabs_for(key@);
        let now = final(p)@.tabs_for(key@);
        &&& moved <==> from < was.len() && to < was.len() && from != to
        &&& moved ==> now.len() == was.len() && now[to as int] == was[from as int]
        &&& moved ==> now.to_multiset() == was.to_multiset()
        &&& !moved ==> final(p)@ == (*p)@
        &&& final(p)@.panels == (*p)@.panels && final(p)@.subagents == (*p)@.subagents
    } by {
        let was = (*p)@.tabs_for(key@);
        if moved {
            crate::panes::law_reorder_keeps_the_tabs(was, from as int, to as int);
        }
    }
}

/// Toggling the pane says whether it is open now and whether it was expanded; toggling
/// its expansion turns that and nothing else.
pub proof fn law_a_toggle_says_how_it_is(key: &str, step: ToggleStep, expanded: bool, open: bool)
    ensures
        forall|p: &mut RightPane| #[trigger]
            call_ensures(RightPane::toggle_right_pane, (p, key), step) ==> {
                &&& step.open == !(*p)@.panels_for(key@).changes_open
                &&& step.was_expanded == (*p)@.expanded
                &&& final(p)@.panels_for(key@).changes_open == step.open
                &&& !step.open ==> !final(p)@.expanded
            },
        forall|p: &mut RightPane| #[trigger]
            call_ensures(RightPane::toggle_right_pane_expand, (p,), expanded) ==> {
                &&& expanded == !(*p)@.expanded && final(p)@.expanded == expanded
                &&& final(p)@.panels == (*p)@.panels && final(p)@.tabs == (*p)@.tabs
            },
        forall|p: &mut RightPane| #[trigger]
            call_ensures(RightPane::toggle_terminal, (p, key), open) ==> {
                &&& open == !(*p)@.panels_for(key@).terminal_open
                &&& final(p)@.panels_for(key@).terminal_open == open
                &&& final(p)@.panels_for(key@).changes_open == (*p)@.panels_for(key@).changes_open
                &&& final(p)@.tabs == (*p)@.tabs && final(p)@.expanded == (*p)@.expanded
            },
{
}

/// Panels that are set are those of their chat, and of no other.
pub proof fn law_panels_are_set_for_their_chat(key: &str, panels: ChatPanels, other: Seq<char>)
    ensures
        forall|p: &mut SessionPanels| #[trigger]
            call_ensures(SessionPanels::set, (p, key, panels), ()) ==> {
                &&& crate::nav::panels_for(final(p)@, key@) == panels
                &&& other != key@ ==> crate::nav::panels_for(final(p)@, other)
                    == crate::nav::panels_for((*p)@, other)
            },
{
}

/// A step through the history gives the route it came to, which is the one shown then,
/// and nothing where there is none to go to.
pub proof fn law_a_step_gives_its_route(r: Option<NavEntry>)
    ensures
        forall|h: &mut NavHistory| #[trigger]
            call_ensures(NavHistory::back, (h,), r) && (*h)@.wf() ==> {
                &&& r is Some <==> (*h)@.index > 0
                &&& r matches Some(e) ==> e@ == (*h)@.entries[(*h)@.index - 1] && final(h)@.index
                    == (*h)@.index - 1
                &&& r is None ==> final(h)@ == (*h)@
                &&& final(h)@.entries == (*h)@.entries
            },
        forall|h: &mut NavHistory| #[trigger]
            call_ensures(NavHistory::forward, (h,), r) && (*h)@.wf() ==> {
                &&& r is Some <==> (*h)@.index + 1 < (*h)@.entries.len()
                &&& r matches Some(e) ==> e@ == (*h)@.entries[(*h)@.index as int + 1]
                    && final(h)@.index == (*h)@.index + 1
                &&& r is None ==> final(h)@ == (*h)@
                &&& final(h)@.entries == (*h)@.entries
            },
{
}

/// The titlebar's arrows answer where there is a route to go to, and it offers a new
/// session beside a selected one only.
pub proof fn law_arrows_answer_where_they_lead(
    nav: &NavHistory,
    chats: bool,
    selected: bool,
    r: ClusterControls,
    back: bool,
    forward: bool,
)
    requires
        call_ensures(crate::titlebar::cluster_controls, (nav, chats, selected), r),
        call_ensures(NavHistory::can_back, (nav,), back),
        call_ensures(NavHistory::can_forward, (nav,), forward),
    ensures
        r.back == back && r.forward == forward,
        r.back <==> nav@.index > 0,
        r.forward <==> nav@.index + 1 < nav@.entries.len(),
        r.new_session <==> chats && selected,
{
}

} // verus!
