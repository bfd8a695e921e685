use zeron_ui::frames::{knob_on, FrameReport, FrameStats, FRAME_STATS_WINDOW};
use zeron_ui::layout::{
    conversation_width, drawer_step, materialize_scroll_anchor, own_send_inset, resort_offsets,
    right_pane_drag_width, right_pane_max_width, right_pane_takeover_width,
    right_panel_content_width, right_target, sidebar_key_order_changed,
    stable_panel_content_width, terminal_drag_height, terminal_target, DrawerStep,
    CHAT_PANEL_MIN,
};
use zeron_ui::message::{MessageRole, MessageStatus, SessionMessageEntry};
use zeron_ui::nav::{
    ChatPanels, NavEntry, NavHistory, RightSurface, Route, SessionPanels, SettingsSection,
};
use zeron_ui::panes::{
    drop_right_tab, heal_drag, is_running, resolve_surface, shows_add, snapshot_ref,
    status_strip, surface_offers, tab_icon, tab_strip, update_right_tab_drag_over, Indicator, RightPane, RightTabDrag,
    StatusLine, SubagentStep, SurfaceOffer, TabIcon,
};
use zeron_ui::selection::{DragPoint, SelectionScroll, SelectionStep};
use zeron_ui::titlebar::{
    caption_buttons_width, cluster_buttons_start, cluster_clearance, cluster_controls,
    resolve_linux_captions, title_bar_content_start, titlebar_cluster_start,
    titlebar_new_session_shown, titlebar_right_padding, titlebar_spacer_width, ButtonLayout,
    WindowButton,
};

const PX: i32 = 64;

// ---- navigation ----

fn chat(id: &str) -> NavEntry {
    NavEntry::Chat(id.into())
}

#[test]
fn history_goes_back_and_forth() {
    let mut nav = NavHistory::new(chat("a"));
    assert!(!nav.can_back() && !nav.can_forward());
    assert!(nav.back().is_none() && nav.forward().is_none());
    nav.push(chat("b"));
    nav.push(chat("b"));
    assert_eq!(nav.len(), 2, "a visit to the same place is none");
    nav.push(NavEntry::Settings(SettingsSection::Appearance));
    assert_eq!(nav.len(), 3);
    assert!(nav.back().unwrap().same(&chat("b")));
    assert!(nav.back().unwrap().same(&chat("a")));
    assert!(nav.forward().unwrap().same(&chat("b")));
    nav.push(chat("c"));
    assert_eq!(nav.len(), 3, "what lay ahead is gone");
    assert!(!nav.can_forward());
    nav.replace(chat("d"));
    assert!(nav.current().same(&chat("d")));
    assert_eq!(nav.len(), 3);
    assert!(nav.back().unwrap().same(&chat("b")));
}

#[test]
fn sections_have_their_labels() {
    assert_eq!(SettingsSection::Devices.label(), "Devices");
    assert_eq!(SettingsSection::Harnesses.label(), "Agents");
    assert_eq!(SettingsSection::Agents.label(), "Accounts");
    assert_eq!(SettingsSection::Archived.label(), "Archived sessions");
    assert_eq!(SettingsSection::ALL.len(), 7);
    assert_ne!(Route::Chat, Route::Settings(SettingsSection::Devices));
}

#[test]
fn panels_are_kept_per_chat() {
    let mut p = SessionPanels::default();
    assert_eq!(p.get("a"), ChatPanels::default());
    assert!(p.toggle_terminal("a"));
    assert!(!p.toggle_terminal("a"));
    assert!(p.toggle_changes("a"));
    assert!(p.get("a").changes_open && !p.get("a").terminal_open);
    assert_eq!(p.get("b"), ChatPanels::default());
    p.update("b", |c| ChatPanels { right_active: RightSurface::Diff(3), ..c });
    assert_eq!(p.get("b").right_active, RightSurface::Diff(3));
    p.set("b", ChatPanels::default());
    assert_eq!(p.get("b").right_active, RightSurface::Picker);
}

// ---- the right pane ----

fn diffs() -> Vec<(u64, String)> {
    vec![(1, "Changes".to_string()), (2, "Commit".to_string())]
}

fn terminals() -> Vec<(u64, String)> {
    vec![(7, "zsh".to_string())]
}

#[test]
fn tabs_are_opened_and_closed() {
    let mut pane = RightPane::new();
    assert!(!pane.is_open("k", true));
    assert_eq!(pane.resolved_right_active("k", &diffs(), &terminals()), RightSurface::Picker);
    assert_eq!(pane.register_diff_surface("k"), 1);
    pane.add_terminal_surface("k", Some(7));
    pane.add_terminal_surface("k", None);
    let rows = pane.right_surface_rows("k", &diffs(), &terminals());
    let titles: Vec<&str> = rows.iter().map(|r| r.1.as_str()).collect();
    assert_eq!(titles, ["Changes", "zsh"]);
    assert_eq!(
        pane.resolved_right_active("k", &diffs(), &terminals()),
        RightSurface::Terminal(7)
    );
    // A tab whose content is gone does not show.
    assert_eq!(
        pane.resolved_right_active("k", &diffs(), &Vec::new()),
        RightSurface::Diff(1)
    );
    assert!(pane.close_right_surface("k", RightSurface::Terminal(7)).is_none());
    let rows = pane.right_surface_rows("k", &diffs(), &terminals());
    assert_eq!(rows.len(), 1);
    assert_eq!(rows[0].0, RightSurface::Diff(1));
    assert!(pane.right_surface_rows("other", &diffs(), &terminals()).is_empty());
}

#[test]
fn tabs_move_within_their_strip() {
    let mut pane = RightPane::new();
    pane.register_diff_surface("k");
    pane.register_diff_surface("k");
    pane.add_terminal_surface("k", Some(7));
    assert!(pane.reorder_right_tabs("k", 2, 0));
    let order: Vec<RightSurface> = pane
        .right_surface_rows("k", &diffs(), &terminals())
        .into_iter()
        .map(|r| r.0)
        .collect();
    assert_eq!(
        order,
        [RightSurface::Terminal(7), RightSurface::Diff(1), RightSurface::Diff(2)]
    );
    assert!(pane.reorder_right_tabs("k", 0, 2), "and back");
    let rows = pane.right_surface_rows("k", &diffs(), &terminals());
    assert_eq!(rows[2].0, RightSurface::Terminal(7));
    assert!(!pane.reorder_right_tabs("k", 3, 0));
    assert!(!pane.reorder_right_tabs("none", 0, 0));
}

#[test]
fn a_closed_pane_is_never_expanded() {
    let mut pane = RightPane::new();
    let step = pane.toggle_right_pane("k");
    assert!(step.open && !step.was_expanded);
    assert!(pane.is_open("k", true) && !pane.is_open("k", false));
    assert!(pane.toggle_right_pane_expand());
    assert!(pane.is_expanded());
    let step = pane.toggle_right_pane("k");
    assert!(!step.open && step.was_expanded);
    assert!(!pane.is_expanded());
    assert!(pane.toggle_terminal("k"));
    assert!(pane.terminal_open("k") && !pane.terminal_open("j"));
}

#[test]
fn a_document_opens_one_tab() {
    let mut pane = RightPane::new();
    let first = pane.add_subagent_surface("k", true, "doc", "Scan", false);
    let SubagentStep::Watch { id } = first else {
        panic!("a live document is watched");
    };
    assert!(pane.is_open("k", true));
    assert_eq!(
        pane.resolved_right_active("k", &Vec::new(), &Vec::new()),
        RightSurface::Subagent(id)
    );
    assert_eq!(
        pane.shown_surface("k", true, &Vec::new(), &Vec::new()),
        Some(RightSurface::Subagent(id))
    );
    assert_eq!(pane.shown_surface("k", false, &Vec::new(), &Vec::new()), None);
    assert_eq!(
        pane.add_subagent_surface("k", true, "doc", "Scan", false),
        SubagentStep::Focus { id }
    );
    assert!(matches!(
        pane.add_subagent_surface("k", true, "other", "Frozen", true),
        SubagentStep::Fetch { .. }
    ));
    let rows = pane.right_surface_rows("k", &Vec::new(), &Vec::new());
    assert_eq!(rows.len(), 2);
    assert_eq!(rows[0].1, "Scan");
    assert_eq!(
        pane.close_right_surface("k", RightSurface::Subagent(id)).as_deref(),
        Some("doc")
    );
    assert_eq!(pane.right_surface_rows("k", &Vec::new(), &Vec::new()).len(), 1);
    // It can be opened anew.
    assert!(matches!(
        pane.add_subagent_surface("k", true, "doc", "Scan", false),
        SubagentStep::Watch { .. }
    ));
}

#[test]
fn the_picked_tab_shows_while_it_lives() {
    let rows = vec![
        (RightSurface::Diff(1), "a".to_string()),
        (RightSurface::Terminal(7), "b".to_string()),
    ];
    assert_eq!(resolve_surface(RightSurface::Terminal(7), &rows), RightSurface::Terminal(7));
    assert_eq!(resolve_surface(RightSurface::Terminal(8), &rows), RightSurface::Diff(1));
    assert_eq!(resolve_surface(RightSurface::Picker, &rows), RightSurface::Diff(1));
    assert_eq!(resolve_surface(RightSurface::Diff(1), &Vec::new()), RightSurface::Picker);
    let mut pane = RightPane::new();
    pane.register_diff_surface("k");
    pane.register_diff_surface("k");
    pane.set_right_active("k", RightSurface::Diff(1));
    assert_eq!(
        pane.resolved_right_active("k", &diffs(), &terminals()),
        RightSurface::Diff(1)
    );
}

#[test]
fn a_dragged_tab_slides_the_others() {
    let mut drag = None;
    assert!(update_right_tab_drag_over(&mut drag, 0, 2));
    assert_eq!(drag, Some(RightTabDrag { from: 0, over: 2, epoch: 0, prev_over: 0 }));
    assert!(!update_right_tab_drag_over(&mut drag, 0, 2));
    assert!(update_right_tab_drag_over(&mut drag, 0, 1));
    assert_eq!(drag, Some(RightTabDrag { from: 0, over: 1, epoch: 1, prev_over: 2 }));
    let mut other = drag;
    assert_eq!(drop_right_tab(&mut other, false, 0), None);
    assert!(other.is_none());
    assert_eq!(drop_right_tab(&mut drag, true, 0), Some(1));
    assert!(drag.is_none());
}

#[test]
fn a_drag_that_is_over_is_forgotten() {
    let held = Some(RightTabDrag { from: 0, over: 2, epoch: 0, prev_over: 0 });
    let mut drag = held;
    heal_drag(&mut drag, true);
    assert_eq!(drag, held);
    heal_drag(&mut drag, false);
    assert_eq!(drag, None);
    heal_drag(&mut drag, true);
    assert_eq!(drag, None);
}

#[test]
fn only_a_strip_with_tabs_offers_another() {
    assert!(!shows_add(&Vec::new()));
    assert!(shows_add(&vec![(RightSurface::Diff(1), "Changes".to_string())]));
}

#[test]
fn the_strip_marks_its_tabs() {
    let rows = vec![
        (RightSurface::Diff(1), "Changes".to_string()),
        (RightSurface::Subagent(4), "Scan".to_string()),
    ];
    let strip = tab_strip(&rows, RightSurface::Subagent(4), &vec![4]);
    assert_eq!(strip.len(), 2);
    assert!(!strip[0].active && !strip[0].running);
    assert!(strip[1].active && strip[1].running);
    assert_eq!(strip[1].title, "Scan");
    assert_eq!(strip[0].icon, TabIcon::GitBranch);
    assert_eq!(strip[1].icon, TabIcon::Bot);
    assert_eq!(tab_icon(RightSurface::Terminal(1)), TabIcon::Terminal);
    assert_eq!(surface_offers(false), [SurfaceOffer::Terminal]);
    assert_eq!(surface_offers(true), [SurfaceOffer::Terminal, SurfaceOffer::Git]);
}

fn reply(status: MessageStatus) -> SessionMessageEntry {
    SessionMessageEntry {
        id: "m".into(),
        role: MessageRole::Assistant,
        parts: Vec::new(),
        created_at: 0,
        device_id: "d".into(),
        status: Some(status),
        continuation_of: None,
    }
}

#[test]
fn a_document_runs_while_its_last_entry_streams() {
    assert!(is_running(&vec![reply(MessageStatus::Complete), reply(MessageStatus::Streaming)]));
    assert!(!is_running(&vec![reply(MessageStatus::Streaming), reply(MessageStatus::Complete)]));
    assert!(!is_running(&Vec::new()));
    assert_eq!(snapshot_ref("chat", "doc"), "chat/doc");
}

#[test]
fn the_status_strip_says_one_thing() {
    assert_eq!(status_strip(false, Indicator::Errored, true), StatusLine::Empty);
    assert_eq!(status_strip(true, Indicator::Errored, true), StatusLine::RunFailed);
    assert_eq!(status_strip(true, Indicator::Idle, true), StatusLine::Sending);
    assert_eq!(status_strip(true, Indicator::Working, false), StatusLine::Empty);
}

// ---- layout ----

#[test]
fn the_conversation_keeps_its_width() {
    let (viewport, sidebar) = (1200 * PX, 240 * PX);
    assert_eq!(conversation_width(viewport, sidebar, 400 * PX), 560 * PX as i64);
    assert_eq!(conversation_width(100 * PX, sidebar, 0), 0);
    assert_eq!(right_pane_max_width(viewport, sidebar), 660 * PX as i64);
    assert_eq!(right_pane_takeover_width(viewport, sidebar), 960 * PX as i64);
    let max = right_pane_max_width(viewport, sidebar);
    assert_eq!(conversation_width(viewport, sidebar, max as i32), CHAT_PANEL_MIN);
    // Dragging stops at both ends.
    let least = 320 * PX as i64;
    assert_eq!(right_pane_drag_width(viewport, sidebar, 0, least), max);
    assert_eq!(right_pane_drag_width(viewport, sidebar, 1100 * PX, least), least);
    assert_eq!(right_pane_drag_width(viewport, sidebar, 700 * PX, least), 500 * PX as i64);
    // A small window has no room for the least width.
    assert_eq!(right_pane_drag_width(700 * PX, sidebar, 0, least), 160 * PX as i64);
}

#[test]
fn the_right_pane_goes_to_its_width() {
    let (viewport, sidebar) = (1200 * PX, 240 * PX);
    assert_eq!(right_target(false, true, 900, viewport, sidebar), 0);
    assert_eq!(right_target(true, true, 900, viewport, sidebar), 960 * PX as i64);
    assert_eq!(right_target(true, false, 900, viewport, sidebar), 900);
    assert_eq!(right_target(true, false, i64::MAX, viewport, sidebar), 660 * PX as i64);
    assert_eq!(stable_panel_content_width(100, None), 100);
    assert_eq!(stable_panel_content_width(0, Some((300, 0))), 300);
    assert_eq!(right_panel_content_width(0, Some((300, 0)), Some(200)), 200);
    assert_eq!(right_panel_content_width(0, Some((300, 0)), None), 300);
}

#[test]
fn the_drawer_follows_the_pointer() {
    assert_eq!(terminal_target(true, 280), 280);
    assert_eq!(terminal_target(false, 280), 0);
    assert_eq!(terminal_drag_height(None, 5), None);
    assert_eq!(terminal_drag_height(Some((500, 280)), 460), Some(320));
    assert_eq!(terminal_drag_height(Some((i32::MAX, i32::MAX)), i32::MIN), Some(6442450942));
    assert_eq!(drawer_step(false, 0, false, true), DrawerStep::Hidden);
    assert_eq!(drawer_step(false, 0, true, true), DrawerStep::Show);
    assert_eq!(drawer_step(false, 0, true, false), DrawerStep::Hidden);
    assert_eq!(drawer_step(true, 280, false, false), DrawerStep::Create);
    assert_eq!(drawer_step(true, 280, false, true), DrawerStep::Show);
}

#[test]
fn a_glued_list_stands_at_its_first_visible_row() {
    let bounds = vec![None, Some((-200, -100)), Some((-100, 32)), Some((33, 100))];
    assert_eq!(materialize_scroll_anchor(&bounds, 0), Some((3, -33)));
    assert_eq!(materialize_scroll_anchor(&bounds, -1), Some((2, 99)));
    assert_eq!(materialize_scroll_anchor(&bounds, 100), None);
    assert_eq!(own_send_inset(0, 50), 0);
    assert_eq!(own_send_inset(3, 50), 50);
}

fn heights(keys: &[(&str, i32)]) -> Vec<(String, i32)> {
    keys.iter().map(|(k, h)| (k.to_string(), *h * PX)).collect()
}

#[test]
fn rows_glide_from_their_old_places() {
    let old = heights(&[("a", 30), ("b", 40), ("c", 20)]);
    let new = heights(&[("c", 20), ("a", 30), ("x", 10), ("b", 40)]);
    let moved = resort_offsets(&old, &new, 2 * PX);
    // Old tops: a 0, b 32, c 74. New tops: c 0, a 22, x 54, b 66.
    assert_eq!(moved.get("c"), Some(&(74 * 64)));
    assert_eq!(moved.get("a"), Some(&(-22 * 64)));
    assert_eq!(moved.get("b"), Some(&(-34 * 64)));
    assert_eq!(moved.get("x"), None);
    let same = resort_offsets(&old, &old, 2 * PX);
    assert_eq!(same.get("a"), None);
    // Half a pixel is no move.
    let old = vec![("p".to_string(), 32), ("q".to_string(), 64)];
    let new = vec![("q".to_string(), 64), ("p".to_string(), 32)];
    let slight = resort_offsets(&old, &new, 0);
    assert_eq!(slight.get("q"), None);
    assert_eq!(slight.get("p"), Some(&-64));
    assert!(sidebar_key_order_changed(&old, &new));
    assert!(!sidebar_key_order_changed(&old, &heights(&[("p", 1), ("q", 2)])));
}

// ---- the titlebar ----

#[test]
fn controls_stand_past_the_captions() {
    assert_eq!(titlebar_cluster_start(false), 88);
    assert_eq!(titlebar_cluster_start(true), 12);
    assert_eq!(titlebar_spacer_width(true, false, 10), 78);
    assert_eq!(titlebar_spacer_width(true, true, 20), 0);
    assert_eq!(titlebar_spacer_width(false, false, 10), 0);
    assert_eq!(caption_buttons_width(0), 0);
    assert_eq!(caption_buttons_width(1), 24);
    assert_eq!(caption_buttons_width(3), 76);
    assert_eq!(cluster_buttons_start(true, false, 3), 88);
    assert_eq!(cluster_buttons_start(false, false, 0), 10);
    assert_eq!(cluster_buttons_start(false, false, 3), 10 + 76 + 2);
    assert_eq!(cluster_clearance(false, false, 0, 10), 10 + 82 + 8 - 10);
    assert_eq!(cluster_clearance(false, false, 0, 500), 0);
    assert_eq!(title_bar_content_start(false, false, 0, 12), 10 + 82 + 12);
    assert_eq!(titlebar_right_padding(true, 0, 8), 116);
    assert_eq!(titlebar_right_padding(false, 2, 8), 8 + 10 + 50);
    assert_eq!(titlebar_right_padding(false, 0, 8), 8);
}

#[test]
fn controls_answer_where_they_lead_somewhere() {
    let mut nav = NavHistory::new(chat("a"));
    let c = cluster_controls(&nav, true, false);
    assert!(!c.back && !c.forward && !c.new_session);
    nav.push(chat("b"));
    let c = cluster_controls(&nav, true, true);
    assert!(c.back && !c.forward && c.new_session);
    nav.back();
    assert!(cluster_controls(&nav, false, true).forward);
    assert!(!titlebar_new_session_shown(false, true));
}

#[test]
fn a_desktop_keeps_its_close_button() {
    let layout = ButtonLayout {
        left: vec![WindowButton::Close],
        right: vec![WindowButton::Minimize, WindowButton::Maximize],
    };
    assert!(resolve_linux_captions(false, &layout, true, true).is_none());
    let all = resolve_linux_captions(true, &layout, true, true).unwrap();
    assert_eq!(all.left, [WindowButton::Close]);
    assert_eq!(all.right, [WindowButton::Minimize, WindowButton::Maximize]);
    let few = resolve_linux_captions(true, &layout, false, true).unwrap();
    assert_eq!(few.right, [WindowButton::Maximize]);
    assert_eq!(few.left, [WindowButton::Close]);
    let bare = resolve_linux_captions(true, &layout, false, false).unwrap();
    assert!(bare.right.is_empty());
}

// ---- small machines ----

#[test]
fn a_switch_is_on_unless_it_is_nothing_or_zero() {
    assert!(!knob_on(&None));
    assert!(!knob_on(&Some(String::new())));
    assert!(!knob_on(&Some("0".into())));
    assert!(knob_on(&Some("1".into())));
    assert!(knob_on(&Some("00".into())));
}

#[test]
fn a_full_window_is_reported_in_order() {
    let mut stats = FrameStats::new();
    for i in 0..FRAME_STATS_WINDOW as u64 - 1 {
        assert!(stats.record(1000 - i).is_none());
    }
    let report = stats.record(5000).expect("a report");
    // 762..=1000, then 5000.
    assert_eq!(
        report,
        FrameReport { n: 240, p50: 762 + 120, p95: 762 + 228, max: 5000 }
    );
    assert!(stats.record(1).is_none(), "the next window starts empty");
}

#[test]
fn a_selection_scrolls_while_it_drags_at_an_edge() {
    let at = DragPoint { x: 1, y: 2 };
    let mut s = SelectionScroll::new();
    assert!(!s.schedule(true, true), "no pointer yet");
    assert!(s.moved(true, at));
    assert!(!s.schedule(true, false));
    assert!(s.schedule(true, true));
    assert!(!s.schedule(true, true), "one step at a time");
    assert_eq!(s.tick(true, true), SelectionStep::Scroll);
    assert!(s.schedule(true, true));
    assert_eq!(s.tick(true, false), SelectionStep::Rest);
    assert_eq!(s.position, Some(at));
    assert!(s.schedule(true, true));
    assert_eq!(s.tick(false, true), SelectionStep::Rest);
    assert_eq!(s, SelectionScroll::new());
    s.moved(true, at);
    assert!(!s.moved(false, at));
    assert_eq!(s.position, None);
    s.moved(true, at);
    s.stop();
    assert_eq!(s, SelectionScroll::new());
}
