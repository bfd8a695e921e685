//! What holds of the panes around a conversation, of their widths and of the
//! history of routes.
use vstd::prelude::*;

use crate::layout::DrawerStep;
use crate::nav::{ChatPanels, EntryView, NavView, RightSurface};
use crate::panes::{
    Indicator, PaneView, RightTabDrag, StatusLine, SubagentView, TabChip, TabIcon,
};

verus! {

// ---------------------------------------------------------------------------
// Tabs
// ---------------------------------------------------------------------------

/// Whether `k` is the first place of a list at which a handle stands.
pub open spec fn first_listed(list: Seq<(u64, String)>, id: u64, k: int) -> bool {
    &&& 0 <= k < list.len()
    &&& list[k].0 == id
    &&& forall|j: int| 0 <= j < k ==> (#[trigger] list[j]).0 != id
}

proof fn lemma_titled(list: Seq<(u64, String)>, id: u64)
    ensures
        match crate::panes::titled(list, id) {
            Some(t) => exists|k: int| #[trigger] first_listed(list, id, k) && list[k].1@ == t,
            None => forall|k: int| 0 <= k < list.len() ==> (#[trigger] list[k]).0 != id,
        },
    decreases list.len(),
{
    if list.len() > 0 {
        let rest = list.drop_last();
        lemma_titled(rest, id);
        match crate::panes::titled(rest, id) {
            Some(t) => {
                let k = choose|k: int| #[trigger] first_listed(rest, id, k) && rest[k].1@ == t;
                assert forall|j: int| 0 <= j < k implies (#[trigger] list[j]).0 != id by {
                    assert(rest[j].0 != id);
                }
                assert(first_listed(list, id, k));
            },
            None => {
                assert forall|j: int| 0 <= j < list.len() - 1 implies (#[trigger] list[j]).0
                    != id by {
                    assert(rest[j].0 != id);
                }
                if list.last().0 == id {
                    assert(first_listed(list, id, list.len() - 1));
                }
            },
        }
    }
}

/// A diff's tab bears the title that is listed for it first, and has none where
/// it is listed nowhere; so a terminal's, by the list of terminals. The picker
/// has no title.
pub proof fn law_a_tab_bears_its_title(
    id: u64,
    diffs: Seq<(u64, String)>,
    terminals: Seq<(u64, String)>,
    subagents: Seq<SubagentView>,
)
    ensures
        match crate::panes::surface_title(RightSurface::Diff(id), diffs, terminals, subagents) {
            Some(t) => exists|k: int| #[trigger] first_listed(diffs, id, k) && diffs[k].1@ == t,
            None => forall|k: int| 0 <= k < diffs.len() ==> (#[trigger] diffs[k]).0 != id,
        },
        match crate::panes::surface_title(RightSurface::Terminal(id), diffs, terminals, subagents) {
            Some(t) => exists|k: int| #[trigger]
                first_listed(terminals, id, k) && terminals[k].1@ == t,
            None => forall|k: int| 0 <= k < terminals.len() ==> (#[trigger] terminals[k]).0 != id,
        },
        crate::panes::surface_title(RightSurface::Picker, diffs, terminals, subagents) is None,
{
    lemma_titled(diffs, id);
    lemma_titled(terminals, id);
}

/// A subagent's tab bears the title of the first subagent with its handle.
pub proof fn law_a_subagents_tab_bears_its_title(
    subagents: Seq<SubagentView>,
    k: int,
    diffs: Seq<(u64, String)>,
    terminals: Seq<(u64, String)>,
)
    requires
        0 <= k < subagents.len(),
        forall|j: int| 0 <= j < k ==> (#[trigger] subagents[j]).id != subagents[k].id,
    ensures
        crate::panes::surface_title(
            RightSurface::Subagent(subagents[k].id),
            diffs,
            terminals,
            subagents,
        ) == Some(subagents[k].title),
{
    let p = crate::panes::has_id(subagents[k].id);
    crate::panes::lemma_first_where(subagents, p);
    assert(p(subagents[k]));
    let i = crate::panes::first_where(subagents, p)->0;
    if i < k {
        assert(subagents[i].id != subagents[k].id);
    }
}

/// A tab of a chat shows with its title as soon as its content is there; one
/// more tab changes nothing of those before it.
pub proof fn law_a_tab_with_content_shows(
    stored: Seq<RightSurface>,
    last: RightSurface,
    diffs: Seq<(u64, String)>,
    terminals: Seq<(u64, String)>,
    subagents: Seq<SubagentView>,
)
    ensures
        ({
            let before = crate::panes::surface_rows(stored, diffs, terminals, subagents);
            let rows = crate::panes::surface_rows(stored.push(last), diffs, terminals, subagents);
            match crate::panes::surface_title(last, diffs, terminals, subagents) {
                Some(t) => rows.len() == before.len() + 1 && rows.last() == (last, t)
                    && rows.drop_last() == before,
                None => rows == before,
            }
        }),
{
    assert(stored.push(last).drop_last() =~= stored);
    let before = crate::panes::surface_rows(stored, diffs, terminals, subagents);
    let rows = crate::panes::surface_rows(stored.push(last), diffs, terminals, subagents);
    if crate::panes::surface_title(last, diffs, terminals, subagents) is Some {
        assert(rows.drop_last() =~= before);
    }
}

/// The tab that was picked shows while it is among the tabs; else the first one
/// does; and with no tab the picker.
pub proof fn law_the_picked_tab_shows(
    rows: Seq<(RightSurface, Seq<char>)>,
    i: int,
    picked: RightSurface,
)
    requires
        0 <= i < rows.len(),
        forall|j: int| 0 <= j < rows.len() ==> (#[trigger] rows[j]).0 != RightSurface::Picker,
    ensures
        crate::panes::resolved(rows[i].0, rows) == rows[i].0,
        (forall|j: int| 0 <= j < rows.len() ==> (#[trigger] rows[j]).0 != picked)
            ==> crate::panes::resolved(picked, rows) == rows[0].0,
        crate::panes::resolved(picked, Seq::empty()) == RightSurface::Picker,
{
    assert(crate::panes::shows(rows, rows[i].0));
}

/// A new tab comes last among its chat's tabs and is the one that is picked. The
/// tabs of other chats stay, and so do all panels but for the pick.
pub proof fn law_a_new_tab_comes_last(
    s: PaneView,
    key: Seq<char>,
    other: Seq<char>,
    surface: RightSurface,
)
    ensures
        s.with_tab(key, surface).tabs_for(key) == s.tabs_for(key).push(surface),
        s.with_tab(key, surface).panels_for(key).right_active == surface,
        s.with_tab(key, surface).panels_for(key).changes_open == s.panels_for(key).changes_open,
        s.with_tab(key, surface).panels_for(key).terminal_open == s.panels_for(key).terminal_open,
        s.with_tab(key, surface).subagents == s.subagents,
        s.with_tab(key, surface).expanded == s.expanded,
        other != key ==> s.with_tab(key, surface).tabs_for(other) == s.tabs_for(other)
            && s.with_tab(key, surface).panels_for(other) == s.panels_for(other),
{
}

/// Picking a tab changes no tab and no other panel.
pub proof fn law_a_pick_changes_only_the_pick(
    s: PaneView,
    key: Seq<char>,
    other: Seq<char>,
    surface: RightSurface,
)
    ensures
        s.activated(key, surface).panels_for(key) == (ChatPanels {
            terminal_open: s.panels_for(key).terminal_open,
            changes_open: s.panels_for(key).changes_open,
            right_active: surface,
        }),
        s.activated(key, surface).tabs_for(other) == s.tabs_for(other),
        other != key ==> s.activated(key, surface).panels_for(other) == s.panels_for(other),
        s.activated(key, surface).subagents == s.subagents,
        s.activated(key, surface).expanded == s.expanded,
{
}

/// The subagent of a transcript that is opened shows: the pane is open, and what
/// is picked is a tab of that document. A document without one gets it under its
/// title, with a handle that follows the last; one that has it adds none.
pub proof fn law_an_opened_transcript_shows(
    s: PaneView,
    key: Seq<char>,
    doc: Seq<char>,
    title: Seq<char>,
)
    requires
        s.wf(),
    ensures
        ({
            let r = s.with_subagent(key, true, doc, title);
            let known = exists|i: int| 0 <= i < s.subagents.len() && (#[trigger] s.subagents[i]).doc_id == doc;
            &&& r.open(key, true)
            &&& r.panels_for(key).terminal_open == s.panels_for(key).terminal_open
            &&& known ==> r.subagents == s.subagents && r.tabs == s.tabs && exists|i: int|
                0 <= i < s.subagents.len() && (#[trigger] s.subagents[i]).doc_id == doc
                    && r.panels_for(key).right_active == RightSurface::Subagent(s.subagents[i].id)
            &&& !known ==> {
                let id = s.subagent_seq.wrapping_add(1);
                &&& r.subagents == s.subagents.push(SubagentView { id, doc_id: doc, title })
                &&& r.tabs_for(key) == s.tabs_for(key).push(RightSurface::Subagent(id))
                &&& r.panels_for(key).right_active == RightSurface::Subagent(id)
                &&& r.subagent_seq == id
            }
        }),
{
    let p = crate::panes::has_doc(doc);
    let o = s.opened(key, true);
    assert(o.subagents == s.subagents && o.tabs == s.tabs && o.subagent_seq == s.subagent_seq);
    crate::panes::lemma_first_where(s.subagents, p);
    match crate::panes::first_where(s.subagents, p) {
        Some(i) => {
            assert(s.subagents[i].doc_id == doc);
        },
        None => {
            assert forall|i: int| 0 <= i < s.subagents.len() implies (
            #[trigger] s.subagents[i]).doc_id != doc by {
                assert(!p(s.subagents[i]));
            }
        },
    }
}

/// Closing a tab keeps its chat's other tabs, and the panels of every chat but
/// for the pick of the closed one.
pub proof fn law_closing_keeps_the_rest(
    s: PaneView,
    key: Seq<char>,
    surface: RightSurface,
    stays: RightSurface,
    other: Seq<char>,
)
    requires
        stays != surface,
    ensures
        ({
            let r = s.without(key, surface);
            &&& r.tabs_for(key).contains(stays) == s.tabs_for(key).contains(stays)
            &&& r.panels_for(key).changes_open == s.panels_for(key).changes_open
            &&& r.panels_for(key).terminal_open == s.panels_for(key).terminal_open
            &&& s.panels_for(key).right_active == stays ==> r.panels_for(key).right_active == stays
            &&& s.panels_for(key).right_active == surface ==> r.panels_for(key).right_active
                == RightSurface::Picker
            &&& other != key ==> r.panels_for(other) == s.panels_for(other)
            &&& r.expanded == s.expanded
        }),
{
    broadcast use vstd::seq_lib::group_filter_ensures;

    let keep = crate::panes::other_than(surface);
    let tabs = s.tabs_for(key);
    if s.tabs.contains_key(key) {
        let left = tabs.filter(keep);
        if tabs.contains(stays) {
            let i = choose|i: int| 0 <= i < tabs.len() && tabs[i] == stays;
            assert(keep(tabs[i]));
            tabs.lemma_filter_contains(keep, i);
        }
        if left.contains(stays) {
            tabs.lemma_filter_contains_rev(keep, stays);
        }
    }
}

/// A subagent whose tab is closed is forgotten, and no other one is.
pub proof fn law_a_closed_subagent_is_forgotten(s: PaneView, key: Seq<char>, k: int)
    requires
        0 <= k < s.subagents.len(),
        forall|i: int, j: int|
            0 <= i < j < s.subagents.len() ==> (#[trigger] s.subagents[i]).id != (
            #[trigger] s.subagents[j]).id,
    ensures
        ({
            let r = s.without(key, RightSurface::Subagent(s.subagents[k].id)).subagents;
            &&& r == s.subagents.take(k) + s.subagents.skip(k + 1)
            &&& !r.contains(s.subagents[k])
        }),
        forall|surface: RightSurface| surface !is Subagent ==> (#[trigger] s.without(
            key,
            surface,
        )).subagents == s.subagents,
{
    let id = s.subagents[k].id;
    let p = crate::panes::has_id(id);
    crate::panes::lemma_first_where(s.subagents, p);
    assert(p(s.subagents[k]));
    let i = crate::panes::first_where(s.subagents, p)->0;
    if i < k {
        assert(s.subagents[i].id != s.subagents[k].id);
    }
    let r = s.without(key, RightSurface::Subagent(id)).subagents;
    assert(r =~= s.subagents.take(k) + s.subagents.skip(k + 1));
    if r.contains(s.subagents[k]) {
        let j = choose|j: int| 0 <= j < r.len() && r[j] == s.subagents[k];
        if j < k {
            assert(s.subagents[j].id != s.subagents[k].id);
        } else {
            assert(s.subagents[j + 1].id != s.subagents[k].id);
        }
    }
}

/// Toggling the pane opens it where it is closed and closes it where it is open,
/// in its chat alone; it moves no tab, and no takeover begins by it.
pub proof fn law_a_toggle_turns_the_pane(s: PaneView, key: Seq<char>, other: Seq<char>)
    ensures
        s.toggled(key).panels_for(key).changes_open == !s.panels_for(key).changes_open,
        s.toggled(key).panels_for(key).terminal_open == s.panels_for(key).terminal_open,
        s.toggled(key).panels_for(key).right_active == s.panels_for(key).right_active,
        s.toggled(key).tabs_for(other) == s.tabs_for(other),
        s.toggled(key).subagents == s.subagents,
        other != key ==> s.toggled(key).panels_for(other) == s.panels_for(other),
        !s.panels_for(key).changes_open ==> s.toggled(key).expanded == s.expanded,
        !s.open(key, false),
{
}

/// Dragging a tab keeps where it came from and shows where it is now, with the
/// place it was over before; the count goes up by every move and only by moves.
pub proof fn law_a_drag_keeps_its_start(d: RightTabDrag, from: usize, over: usize, next: usize)
    ensures
        crate::panes::dragged_over(None, from, over) == (RightTabDrag {
            from,
            over,
            epoch: 0,
            prev_over: from,
        }),
        ({
            let r = crate::panes::dragged_over(Some(d), from, over);
            &&& r.from == d.from
            &&& r.over == over
            &&& d.over == over ==> r == d
            &&& d.over != over ==> r.prev_over == d.over && r.epoch == d.epoch.wrapping_add(1)
        }),
        crate::panes::dragged_over(
            Some(crate::panes::dragged_over(Some(d), from, over)),
            from,
            over,
        ) == crate::panes::dragged_over(Some(d), from, over),
{
}

/// A chip of the strip tells its tab's title, whether it is the one that shows,
/// and of a subagent whether it is at work; diffs show a branch, subagents a bot
/// and terminals a terminal.
pub proof fn law_a_chip_tells_its_tab(
    chip: TabChip,
    surface: RightSurface,
    title: Seq<char>,
    active: RightSurface,
    running: Seq<u64>,
    id: u64,
)
    requires
        crate::panes::chip_for(chip, (surface, title), active, running),
    ensures
        chip.surface == surface,
        chip.title@ == title,
        chip.active <==> surface == active,
        surface == RightSurface::Subagent(id) ==> (chip.running <==> running.contains(id)),
        surface !is Subagent ==> !chip.running,
        surface is Diff <==> chip.icon == TabIcon::GitBranch,
        surface is Subagent <==> chip.icon == TabIcon::Bot,
        surface is Terminal ==> chip.icon == TabIcon::Terminal,
{
}

/// The strip over the composer speaks only for the selected chat: of every run
/// that failed, and of a message on its way only while nothing is known of its
/// run.
pub proof fn law_the_strip_speaks_of_failures(
    selected: bool,
    indicator: Indicator,
    sending: bool,
    said: StatusLine,
)
    requires
        call_ensures(crate::panes::status_strip, (selected, indicator, sending), said),
    ensures
        said == StatusLine::RunFailed <==> selected && indicator == Indicator::Errored,
        said == StatusLine::Sending <==> selected && indicator == Indicator::Idle && sending,
{
}

// ---------------------------------------------------------------------------
// Widths
// ---------------------------------------------------------------------------

/// While a pane moves, its content keeps the wider end of the move; at rest it
/// has the pane's width; and a takeover gives the content its own width.
pub proof fn law_content_keeps_the_wider_end(
    target: i32,
    from: i32,
    to: i32,
    takeover: i32,
    moving: i32,
    resting: i32,
    taken: i32,
)
    requires
        call_ensures(
            crate::layout::right_panel_content_width,
            (target, Some((from, to)), None),
            moving,
        ),
        call_ensures(crate::layout::right_panel_content_width, (target, None, None), resting),
        call_ensures(
            crate::layout::right_panel_content_width,
            (target, Some((from, to)), Some(takeover)),
            taken,
        ),
    ensures
        moving >= from && moving >= to && (moving == from || moving == to),
        resting == target,
        taken == takeover,
{
}

/// The panes and the conversation fill the window where it holds the panes; else
/// nothing is left to the conversation.
pub proof fn law_widths_fill_the_window(viewport: i32, sidebar: i32, right: i32, width: i64)
    requires
        call_ensures(crate::layout::conversation_width, (viewport, sidebar, right), width),
    ensures
        viewport >= sidebar + right ==> sidebar + right + width == viewport,
        viewport < sidebar + right ==> width == 0,
{
}

/// The right pane goes to no width while it is closed, to all that the sidebar
/// leaves in a takeover, and else to the width it was given, as far as 300 pixels
/// are left to the conversation.
pub proof fn law_the_pane_goes_to_its_width(
    expanded: bool,
    saved: i64,
    viewport: i32,
    sidebar: i32,
)
    requires
        sidebar <= viewport,
        0 <= saved,
    ensures
        crate::layout::right_goal(false, expanded, saved, viewport, sidebar) == 0,
        crate::layout::right_goal(true, true, saved, viewport, sidebar) == viewport - sidebar,
        crate::layout::right_goal(true, false, saved, viewport, sidebar) <= saved,
        saved <= viewport - sidebar - 300 * 64 ==> crate::layout::right_goal(
            true,
            false,
            saved,
            viewport,
            sidebar,
        ) == saved,
        0 <= viewport - sidebar - 300 * 64 < saved ==> crate::layout::right_goal(
            true,
            false,
            saved,
            viewport,
            sidebar,
        ) == viewport - sidebar - 300 * 64,
        viewport - sidebar < 300 * 64 ==> crate::layout::right_goal(
            true,
            false,
            saved,
            viewport,
            sidebar,
        ) == 0,
{
}

/// A drag of the pane's edge gives it the width from the pointer to the window's
/// edge, never more than the most, and never less than the least where the most
/// allows for it.
pub proof fn law_a_dragged_edge_stays_in_bounds(width: i64, least: i64, most: i64)
    ensures
        crate::layout::dragged(width, least, most) <= most,
        least <= most ==> crate::layout::dragged(width, least, most) >= least,
        least <= width <= most ==> crate::layout::dragged(width, least, most) == width,
        ({
            let r = crate::layout::dragged(width, least, most);
            r == width || r == least || r == most
        }),
        most < least ==> crate::layout::dragged(width, least, most) == most,
        width < least <= most ==> crate::layout::dragged(width, least, most) == least,
{
}

/// The drawer's edge follows the pointer: as much as it rises, as much taller
/// the drawer gets.
pub proof fn law_the_drawers_edge_follows(from: i32, height: i32, y: i32, z: i32, a: Option<i64>, b: Option<i64>)
    requires
        call_ensures(crate::layout::terminal_drag_height, (Some((from, height)), y), a),
        call_ensures(crate::layout::terminal_drag_height, (Some((from, height)), z), b),
    ensures
        a is Some && b is Some,
        y == from ==> a == Some(height as i64),
        b->0 - a->0 == y - z,
{
}

/// The drawer shows nothing while it is shut and at rest; with a height or on
/// its way it shows its terminal, and one that is open gets a terminal where it
/// has none.
pub proof fn law_an_open_drawer_has_a_terminal(
    open: bool,
    target: i64,
    moving: bool,
    has: bool,
    step: DrawerStep,
)
    requires
        call_ensures(crate::layout::drawer_step, (open, target, moving, has), step),
    ensures
        target <= 0 && !moving ==> step == DrawerStep::Hidden,
        target > 0 || moving ==> (step == DrawerStep::Show <==> has),
        target > 0 || moving ==> (step == DrawerStep::Create <==> open && !has),
{
}

/// Rows stand under each other: each starts under the one before it, a gap below
/// its end.
pub proof fn law_rows_stand_under_each_other(rows: Seq<(String, i32)>, gap: i32, ix: nat)
    requires
        ix < rows.len(),
    ensures
        crate::layout::top_of(rows, gap, 0) == 0,
        crate::layout::top_of(rows, gap, ix + 1) == crate::layout::top_of(rows, gap, ix)
            + rows[ix as int].1 + gap,
{
}

/// A list that kept its rows and their heights glides nowhere, and a move glides
/// exactly where it is longer than half a pixel either way.
pub proof fn law_half_a_pixel_does_not_glide(dy: int)
    ensures
        crate::layout::glides(dy) <==> !(-32 <= dy <= 32),
        crate::layout::glides(dy) == crate::layout::glides(-dy),
{
}

/// Whether keys and their order changed is told by the keys alone: the heights
/// do not matter, and a list never changed from itself.
pub proof fn law_order_is_told_by_the_keys(
    old: Seq<(String, i32)>,
    new: Seq<(String, i32)>,
    i: int,
)
    ensures
        crate::layout::same_order(old, old),
        crate::layout::same_order(old, new) == crate::layout::same_order(new, old),
        old.len() != new.len() ==> !crate::layout::same_order(old, new),
        0 <= i < old.len() && i < new.len() && old[i].0@ != new[i].0@
            ==> !crate::layout::same_order(old, new),
        (old.len() == new.len() && forall|k: int|
            0 <= k < old.len() ==> (#[trigger] old[k]).0 == new[k].0) ==> crate::layout::same_order(
            old,
            new,
        ),
{
    if crate::layout::same_order(old, new) {
        assert forall|k: int| 0 <= k < new.len() implies (#[trigger] new[k]).0@ == old[k].0@ by {
            assert(old[k].0@ == new[k].0@);
        }
    }
    if crate::layout::same_order(new, old) {
        assert forall|k: int| 0 <= k < old.len() implies (#[trigger] old[k]).0@ == new[k].0@ by {
            assert(new[k].0@ == old[k].0@);
        }
    }
}

// ---------------------------------------------------------------------------
// The history of routes
// ---------------------------------------------------------------------------

/// Going to the route that shows changes nothing; going to another forgets what
/// lay ahead, keeps all that was visited up to here, and can be taken back.
pub proof fn law_going_nowhere_changes_nothing(h: NavView, entry: EntryView)
    requires
        h.wf(),
    ensures
        h.current() == entry ==> h.pushed(entry) == h,
        h.current() != entry ==> h.pushed(entry).entries.len() == h.index + 2
            && h.pushed(entry).has_back() && h.pushed(entry).index == h.index + 1,
        h.pushed(entry).wf(),
        h.pushed(entry).pushed(entry) == h.pushed(entry),
{
    if h.current() != entry {
        assert(h.pushed(entry).current() == entry);
    }
}

/// There is a way back exactly past the first route, and a way on exactly before
/// the last; each step goes to the neighbour, and without one stays.
pub proof fn law_steps_go_to_the_neighbour(h: NavView)
    requires
        h.wf(),
    ensures
        h.has_back() <==> h.index != 0,
        h.has_forward() <==> h.index != h.entries.len() - 1,
        h.has_back() ==> h.stepped_back().current() == h.entries[h.index - 1],
        h.has_forward() ==> h.stepped_forward().current() == h.entries[h.index as int + 1],
        !h.has_back() ==> h.stepped_back() == h,
        !h.has_forward() ==> h.stepped_forward() == h,
{
}

/// Showing a route in place of another changes none of the others.
pub proof fn law_replacing_keeps_the_others(h: NavView, entry: EntryView, i: int)
    requires
        h.wf(),
        0 <= i < h.entries.len(),
        i != h.index,
    ensures
        h.replaced(entry).entries[i] == h.entries[i],
        h.replaced(entry).index == h.index,
{
}

/// A chat that was never touched has everything closed; toggling its terminal
/// opens the terminal and nothing else.
pub proof fn law_a_new_chat_has_all_closed(m: Map<Seq<char>, ChatPanels>, key: Seq<char>)
    ensures
        !m.contains_key(key) ==> {
            let p = crate::nav::panels_for(m, key);
            !p.terminal_open && !p.changes_open && p.right_active == RightSurface::Picker
        },
        crate::nav::panels_for(crate::nav::terminal_toggled(m, key), key).terminal_open
            == !crate::nav::panels_for(m, key).terminal_open,
        crate::nav::panels_for(crate::nav::changes_toggled(m, key), key).changes_open
            == !crate::nav::panels_for(m, key).changes_open,
        crate::nav::panels_for(crate::nav::terminal_toggled(m, key), key).right_active
            == crate::nav::panels_for(m, key).right_active,
        crate::nav::panels_for(crate::nav::changes_toggled(m, key), key).right_active
            == crate::nav::panels_for(m, key).right_active,
{
}

} // verus!
