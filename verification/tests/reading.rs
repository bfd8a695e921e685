use std::sync::Arc;

use zeron_ui::attach::{
    attachment_device_ids, attachment_state, is_sending, protected_attachments, relay_target,
    upload_id, upload_percent, RetrySet, Snapshot, Thumb,
};
use zeron_ui::clock::{flavour_seed, flavour_word, format_timestamp, timestamp_label, Moment};
use zeron_ui::geometry::{selection_scroll_step, turn_lengths, Fraction, TurnBounds};
use zeron_ui::highlights::{
    code_blocks, diff_row, diff_sources, fence_tag, HighlightStep, HighlightStore, Lang,
    SourceKey,
};
use zeron_ui::diff::{diff_to_file, ToolDiff};
use zeron_ui::markdown::{Block, BlockTree, InlineRun, InlineStyle, TopBlock};
use zeron_ui::message::{
    raw_text, MentionSpan, MessagePart, MessageRole, MessageStatus, Question,
    SessionMessageEntry, UserBody, UserImageAttachment,
};
use zeron_ui::own_turn::{TurnMeasure, TurnMotion};
use zeron_ui::parsing::{parse_for_row, parse_outcome, ParseCaches, ParseOutcome, ParseStep};
use zeron_ui::rows::{check_trees, parse_requests, rows_for_entry, Row, RowKind};
use zeron_ui::rowset::{part_prefix, RowGap};
use zeron_ui::rowview::{
    bubble_runs, copied_block, hover_row, leave_row, meta_strip, row_frame, user_sections,
    BottomPad, BubbleRun, TopGap,
};
use zeron_ui::scroll::{is_glued, RestoreStep, SpringStep, Transcript, WheelStep};
use zeron_ui::sync::{
    list_change, live_row_ids, replay_state, sync_needed, FollowStep, ListChange, RowCache,
    VeilBaseline, VeilStart,
};
use zeron_ui::tools::ToolDetail;
use zeron_ui::trailer::{chat_trailer, subagent_trailer, undelivered_label, Trailer};
use zeron_ui::viewport::{ListOffset, Px, SavedViewport, TranscriptReplayState};

fn px(v: f32) -> Px {
    Px { bits: v.to_bits() }
}

fn at(item_ix: usize, offset: f32) -> ListOffset {
    ListOffset { item_ix, offset_in_item: px(offset) }
}

fn row(id: &str, entry: &str, turn_start: bool) -> Row {
    Row {
        id: id.into(),
        version: 0,
        turn_start,
        kind: RowKind::ErrorChip { message: String::new() },
        entry_id: entry.into(),
        timestamp: None,
        copy_text: None,
    }
}

fn rows() -> Vec<Row> {
    vec![row("a", "ea", true), row("b", "eb", true), row("b1", "eb", false)]
}

fn prompt_rows() -> Vec<Row> {
    vec![row("a", "ea", true), row("p", "prompt", true)]
}

fn paragraph(text: &str) -> Block {
    Block::Paragraph {
        runs: vec![InlineRun { text: text.into(), style: InlineStyle::default() }],
    }
}

fn tree(text: &str) -> Arc<BlockTree> {
    let blocks = vec![TopBlock { block: paragraph(text), range: 0..text.len() }];
    Arc::new(BlockTree { blocks })
}

fn entry(role: MessageRole, status: Option<MessageStatus>, parts: Vec<MessagePart>) -> SessionMessageEntry {
    SessionMessageEntry {
        id: "m".into(),
        role,
        parts,
        created_at: 5_000,
        device_id: "dev".into(),
        status,
        continuation_of: None,
    }
}

fn text(t: &str) -> MessagePart {
    MessagePart::Text { id: "t0".into(), text: t.into() }
}

fn body(t: &str) -> UserBody {
    UserBody {
        text: t.into(),
        mentions: Arc::new(Vec::new()),
        attachments: Arc::new(Vec::new()),
        badges: Arc::new(Vec::new()),
    }
}

// ---- scrolling ----

#[test]
fn a_transcript_opens_where_it_should() {
    let main = Transcript::new();
    assert!(main.is_pinned() && main.rail_enabled() && !main.land_end_pending);
    let live = Transcript::for_doc("doc".into(), true);
    assert!(live.is_pinned() && !live.rail_enabled() && live.place.doc_live);
    assert_eq!(live.chat_id.as_deref(), Some("doc"));
    let frozen = Transcript::for_doc("doc".into(), false);
    assert!(!frozen.is_pinned() && frozen.land_end_pending && !frozen.place.doc_live);
}

#[test]
fn room_changes_are_noticed_once() {
    let mut t = Transcript::new();
    assert!(!t.set_rail_enabled(true));
    assert!(t.set_rail_enabled(false) && !t.rail_enabled());
    assert!(!t.set_bottom_clearance(32, 2), "half a pixel is passed over");
    assert!(t.set_bottom_clearance(33, 2));
    assert!(!t.turn_kick);
    t.on_own_send(&rows(), "chat".into(), "prompt".into());
    t.turn_kick = false;
    let revision = t.layout_revision;
    assert!(t.set_bottom_clearance(-100, 2));
    assert!(t.turn_kick);
    assert_eq!(t.layout_revision, revision + 1);
}

#[test]
fn the_wheel_breaks_and_makes_the_pin() {
    let rows = rows();
    let mut t = Transcript::new();
    // Away from the end.
    t.handle_scroll(&rows, px(400.0), true);
    assert!(!t.is_pinned() && t.jump_button_shown());
    // A notch away inside the band never pins.
    t.note_distance(px(10.0));
    t.handle_scroll(&rows, px(60.0), true);
    assert!(!t.is_pinned() && !t.jump_button_shown());
    // Toward the end inside the band does.
    t.handle_scroll(&rows, px(50.0), false);
    assert!(t.is_pinned());
}

#[test]
fn a_sent_prompt_is_held_until_it_goes() {
    let rows = prompt_rows();
    let mut t = Transcript::new();
    t.on_own_send(&rows, "chat".into(), "prompt".into());
    assert!(t.is_held() && !t.is_pinned());
    assert_eq!(t.own_turn_anchor_ix(&rows), Some(1));
    assert!(!t.reconcile_own_turn_prompt(&rows, px(5.0)), "the prompt is there");
    t.begin_scroll_navigation();
    assert!(!t.is_held());
    assert!(t.reconcile_own_turn_prompt(&vec![row("a", "ea", true)], px(5.0)));
    assert!(t.own_turn.is_none());
    t.on_own_send(&rows, "chat".into(), "prompt".into());
    t.release_own_turn_hold();
    assert!(!t.is_held() && t.own_turn.is_some());
}

fn measure() -> TurnMeasure {
    TurnMeasure {
        distance: px(0.0),
        laid_out: true,
        usable: px(640.0),
        wanted: Some(px(300.0)),
        resized: false,
        anchored: true,
        drifted: false,
        near: false,
        in_band: false,
        below: true,
        reduced_motion: false,
    }
}

#[test]
fn a_turn_glides_holds_and_hands_off() {
    let rows = prompt_rows();
    let mut t = Transcript::new();
    t.on_own_send(&rows, "chat".into(), "prompt".into());
    let step = t.step_own_turn(&rows, TurnMeasure { laid_out: false, ..measure() });
    assert!(step.notify && t.turn_kick && t.turn_frame_wanted(false));
    // It takes all the space there is.
    let step = t.step_own_turn(&rows, measure());
    assert!(step.remeasure_last);
    assert_eq!(t.own_turn.as_ref().unwrap().runway, px(640.0));
    // It glides, then arrives.
    let step = t.step_own_turn(&rows, measure());
    assert_eq!(step.motion, TurnMotion::Ease);
    let step = t.step_own_turn(&rows, TurnMeasure { in_band: true, ..measure() });
    assert_eq!(step.motion, TurnMotion::Land);
    assert!(t.own_turn.as_ref().unwrap().positioned);
    // A held prompt that drifted is eased back.
    let step = t.step_own_turn(&rows, TurnMeasure { drifted: true, ..measure() });
    assert_eq!(step.motion, TurnMotion::Ease);
    let step = t.step_own_turn(&rows, TurnMeasure { drifted: true, near: true, ..measure() });
    assert_eq!(step.motion, TurnMotion::Finish);
    let step =
        t.step_own_turn(&rows, TurnMeasure { drifted: true, anchored: false, ..measure() });
    assert_eq!(step.motion, TurnMotion::Land);
    // The reply outgrew its space.
    let step = t.step_own_turn(&rows, TurnMeasure { wanted: Some(px(0.5)), ..measure() });
    assert!(step.handed_off && t.own_turn.is_none() && t.is_pinned());
}

fn bounds() -> TurnBounds {
    TurnBounds {
        viewport_top: 0,
        viewport_height: 800 * 64,
        inset: 50 * 64,
        base_pad: 100 * 64,
        distance: 0,
        runway: 500 * 64,
        prompt_top: Some(50 * 64),
        last_bottom: Some(800 * 64),
        positioned: true,
    }
}

#[test]
fn a_turn_is_measured_against_its_viewport() {
    // The turn is 150 px tall, of 652 px.
    let l = turn_lengths(bounds());
    assert_eq!(l.usable, 652 * 64);
    assert_eq!(l.wanted, Some(502 * 64));
    assert!(l.laid_out && l.resized && l.anchored && l.near && l.in_band);
    assert!(!l.drifted && !l.below);
    assert_eq!((l.error, l.skipped), (0, 0));
    // A reply that grew wants less room, but the end does not rise.
    let grown = TurnBounds { last_bottom: Some(1000 * 64), ..bounds() };
    assert_eq!(turn_lengths(grown).wanted, Some(500 * 64));
    let far = TurnBounds { distance: 102 * 64, ..grown };
    assert_eq!(turn_lengths(far).wanted, Some(400 * 64));
    let further = TurnBounds { distance: 1000 * 64, ..grown };
    assert_eq!(turn_lengths(further).wanted, Some(302 * 64));
    // Off its place.
    let above = TurnBounds { prompt_top: Some(51 * 64), ..bounds() };
    let l = turn_lengths(above);
    assert!(l.drifted && l.near && l.below);
    let slack = TurnBounds { prompt_top: Some(46 * 64), ..bounds() };
    assert!(!turn_lengths(slack).drifted);
    let sunk = TurnBounds { prompt_top: Some(46 * 64 - 1), ..bounds() };
    assert!(turn_lengths(sunk).drifted && !turn_lengths(sunk).in_band);
    // Not measured.
    let blind = TurnBounds { prompt_top: None, distance: 10 * 64, ..bounds() };
    let l = turn_lengths(blind);
    assert_eq!(l.wanted, None);
    assert!(!l.anchored && !l.drifted && !l.resized && !l.near);
    // A long way is skipped at once.
    let long = TurnBounds {
        prompt_top: Some(5050 * 64),
        positioned: false,
        ..bounds()
    };
    let l = turn_lengths(long);
    assert_eq!((l.error, l.skipped), (2000 * 64, 3000 * 64));
    assert_eq!(turn_lengths(TurnBounds { positioned: true, ..long }).skipped, 0);
}

#[test]
fn a_selection_scrolls_faster_nearer_the_edge() {
    let exact = |height: i32, y: i32| {
        let s = selection_scroll_step(0, height, y);
        s.num as f64 / s.den as f64
    };
    let step = |y: i32| exact(300 * 64, y * 64);
    assert_eq!(step(0), -24.0);
    assert_eq!(step(-50), -24.0);
    assert_eq!(step(18), -6.0);
    assert_eq!(step(36), 0.0);
    assert_eq!(step(264), 0.0);
    // Half a pixel inside the zone scrolls by 24 times the square of 1/72.
    assert_eq!(exact(300 * 64, 36 * 64 - 32), -24.0 / 5184.0);
    assert_eq!(
        selection_scroll_step(0, 300 * 64, 264 * 64 + 1),
        Fraction { num: 24 * 9, den: 6912 * 6912 }
    );
    assert_eq!(step(282), 6.0);
    assert_eq!(step(400), 24.0);
    let steps: Vec<f64> = (-10..320).map(step).collect();
    assert!(steps.windows(2).all(|w| w[0] <= w[1]));
    assert!(steps.iter().all(|s| s.abs() <= 24.0));
    // A small viewport has edges of a third.
    assert_eq!(exact(30 * 64, 5 * 64), -6.0);
    assert_eq!(exact(30 * 64, 15 * 64), 0.0);
    assert_eq!(selection_scroll_step(0, 0, 0), Fraction { num: 0, den: 1 });
}

#[test]
fn a_chat_left_and_reopened_finds_its_place() {
    let mut t = Transcript::new();
    t.attach(Some("a".into()), &Vec::new(), at(0, 0.0), px(0.0));
    assert!(t.is_pinned());
    t.handle_scroll(&rows(), px(400.0), true);
    // Leaving remembers, coming back waits for the rows.
    t.attach(Some("b".into()), &rows(), at(1, 12.0), px(400.0));
    assert!(t.is_pinned() && t.saved.contains("a"));
    t.attach(Some("a".into()), &rows(), at(0, 0.0), px(0.0));
    assert!(!t.is_pinned() && t.jump_button_shown());
    assert!(matches!(t.pending, Some(SavedViewport::Anchored { .. })));
    assert_eq!(
        t.restore_pending_viewport(&vec![row("x", "ex", true)], TranscriptReplayState::Pending),
        RestoreStep::Waiting
    );
    let step = t.settle_changed(
        &rows(),
        0,
        TranscriptReplayState::Populated,
        px(0.0),
        false,
        false,
        true,
    );
    assert_eq!(
        step.restore,
        RestoreStep::Restored { at: at(1, 12.0), remeasure_last: false }
    );
    assert_eq!(step.follow, FollowStep::Stay);
    assert!(t.pending.is_none() && t.finalize_pending);
    let token = t.finalize_token();
    assert!(t.finalize_viewport(token, px(10.0)));
    assert!(!t.finalize_pending && !t.jump_button_shown());
}

#[test]
fn an_empty_chat_gives_its_place_up() {
    let mut t = Transcript::new();
    t.attach(Some("a".into()), &Vec::new(), at(0, 0.0), px(0.0));
    t.handle_scroll(&rows(), px(400.0), true);
    t.attach(Some("b".into()), &rows(), at(1, 12.0), px(400.0));
    t.attach(Some("a".into()), &Vec::new(), at(0, 0.0), px(0.0));
    let step = t.settle_unchanged(&Vec::new(), TranscriptReplayState::Empty, px(0.0));
    assert_eq!(step.restore, RestoreStep::Emptied { scroll_to_end: true });
    assert!(step.notify && t.is_pinned());
    assert!(t.pending.is_none());
    t.discard_pending_viewport();
    assert!(t.is_pinned());
}

#[test]
fn a_pinned_end_is_followed() {
    let rows = rows();
    let follow = |live: bool, old: usize, reduced: bool, glued: bool| {
        let mut t = Transcript::new();
        let s = t.settle_changed(
            &rows,
            old,
            TranscriptReplayState::Populated,
            px(0.0),
            live,
            reduced,
            glued,
        );
        s.follow
    };
    assert_eq!(follow(true, 2, false, true), FollowStep::Anchor);
    assert_eq!(follow(false, 0, false, true), FollowStep::End);
    assert_eq!(follow(false, 2, true, true), FollowStep::End);
    assert_eq!(follow(false, 2, false, true), FollowStep::Nudge);
    assert_eq!(follow(false, 2, false, false), FollowStep::Glide);
    let mut frozen = Transcript::for_doc("d".into(), false);
    let s = frozen.settle_changed(
        &rows,
        0,
        TranscriptReplayState::Populated,
        px(0.0),
        false,
        false,
        false,
    );
    assert!(s.land_end && s.follow == FollowStep::Stay);
    assert!(!frozen.land_end_pending, "it lands once");
}

#[test]
fn the_spring_runs_until_it_rests() {
    let mut t = Transcript::new();
    t.wake_spring();
    assert!(t.spring_frame_wanted(false, false, px(0.0), true));
    assert!(!t.spring_frame_wanted(true, false, px(0.0), true));
    assert!(!t.spring_frame_wanted(false, true, px(0.0), true));
    assert_eq!(t.step_spring(px(100.0), false, false), SpringStep::Run);
    assert!(t.spring.ticking && !t.spring.settled);
    assert_eq!(t.step_spring(px(0.0), false, true), SpringStep::Run);
    assert!(t.spring.settled);
    assert_eq!(t.step_spring(px(0.0), true, true), SpringStep::Park);
    assert!(!t.spring_should_run(px(0.0), true));
    t.handle_scroll(&rows(), px(400.0), true);
    assert_eq!(t.step_spring(px(400.0), false, false), SpringStep::Off);
    t.jump_to_bottom(false);
    assert!(t.is_pinned());
    t.begin_selection_scroll();
    t.note_scrolled(px(0.0));
    t.engage_pin(true);
    assert!(t.is_pinned());
    assert!(is_glued(3, 3) && !is_glued(2, 3));
    assert_eq!(t.handle_scroll(&rows(), px(400.0), true), WheelStep::ResetSpring);
}

// ---- keeping rows in step ----

#[test]
fn rows_are_rebuilt_only_where_something_changed() {
    let a = Some("a".to_string());
    assert!(!sync_needed(&a, &a, 3, 3));
    assert!(sync_needed(&a, &a, 4, 3));
    assert!(sync_needed(&a, &None, 3, 3));
    assert_eq!(replay_state(false, true), TranscriptReplayState::Pending);
    assert_eq!(replay_state(true, true), TranscriptReplayState::Empty);
    assert_eq!(replay_state(true, false), TranscriptReplayState::Populated);
    assert!(matches!(list_change(1..3, 2), ListChange::Remeasure(r) if r == (1..3)));
    assert!(matches!(list_change(1..3, 1), ListChange::Splice(r, 1) if r == (1..3)));
}

#[test]
fn settled_rows_are_kept_by_fingerprint() {
    let e = entry(MessageRole::Assistant, Some(MessageStatus::Complete), vec![text("hi")]);
    let built = rows_for_entry(&e, false, &body(""), &vec![tree("hi")]);
    let mut cache = RowCache::new();
    assert!(cache.get(&e, 9).is_none());
    cache.keep(&e, 9, &built);
    assert_eq!(cache.get(&e, 9).unwrap().len(), built.len());
    assert!(cache.get(&e, 10).is_none());
    let live = SessionMessageEntry { status: Some(MessageStatus::Streaming), ..e };
    cache.keep(&live, 11, &built);
    assert!(cache.get(&live, 11).is_none(), "a streaming reply is built anew");
}

#[test]
fn replayed_text_does_not_fade_in() {
    let live = Row {
        kind: RowKind::LiveMarkdown { tree: tree("x"), block_ix: 0 },
        ..row("m#t0.0", "m", true)
    };
    let rows = vec![row("a", "ea", true), live];
    assert_eq!(live_row_ids(&rows), ["m#t0.0"]);
    let mut veil = VeilBaseline { ids: Vec::new(), attach_pending: false };
    veil.update(true, false, &rows);
    assert!(veil.attach_pending && veil.ids.is_empty());
    veil.update(false, true, &rows);
    assert_eq!(veil.ids, ["m#t0.0"]);
    assert!(!veil.attach_pending);
    let later = vec![
        Row {
            kind: RowKind::LiveMarkdown { tree: tree("y"), block_ix: 1 },
            ..row("m#t0.1", "m", false)
        },
        rows[1].clone(),
    ];
    veil.update(false, true, &later);
    assert_eq!(veil.ids, ["m#t0.0"], "what comes later fades in");
    assert_eq!(veil.start("m#t0.0", false, false), Some(VeilStart::Seeded));
    assert_eq!(veil.start("m#t0.1", false, false), Some(VeilStart::Fresh));
    assert_eq!(veil.start("m#t0.0", true, false), Some(VeilStart::Kept));
    assert_eq!(veil.start("m#t0.1", true, false), Some(VeilStart::Kept));
    assert_eq!(veil.start("m#t0.0", false, true), None, "reduced motion has no veil");
    assert_eq!(veil.start("m#t0.1", true, true), None);
    veil.update(false, true, &vec![row("a", "ea", true)]);
    assert!(veil.ids.is_empty(), "a settled row leaves the baseline");
}

#[test]
fn a_settled_row_adopts_its_live_tree() {
    let mut caches = ParseCaches::new();
    let t = tree("hello");
    assert!(matches!(parse_for_row(true, "k", "hello", &mut caches), ParseStep::Advance));
    caches.keep(&ParseStep::Advance, "k", "hello", &t);
    let step = parse_for_row(false, "k", "hello", &mut caches);
    assert!(matches!(step, ParseStep::Adopt));
    assert_eq!(parse_outcome(&step, 0, 0), ParseOutcome::Handoff);
    caches.keep(&step, "k", "hello", &t);
    let step = parse_for_row(false, "k", "hello", &mut caches);
    assert!(matches!(&step, ParseStep::Reuse(kept) if Arc::ptr_eq(kept, &t)));
    assert_eq!(parse_outcome(&step, 0, 0), ParseOutcome::Cached);
    let step = parse_for_row(false, "k", "hello there", &mut caches);
    assert_eq!(parse_outcome(&step, 0, 0), ParseOutcome::Full);
    assert_eq!(
        parse_outcome(&ParseStep::Advance, 7, 2),
        ParseOutcome::Incremental { parsed_bytes: 7, stable_prefix_blocks: 2 }
    );
    // Text that changed since it streamed is parsed anew.
    parse_for_row(true, "j", "abc", &mut caches);
    assert!(matches!(parse_for_row(false, "j", "abd", &mut caches), ParseStep::Parse));
}

// ---- rows ----

#[test]
fn other_parts_have_their_rows() {
    let parts = vec![
        MessagePart::Input {
            id: "q".into(),
            questions: vec![Question { header: "Pick one".into() }],
            resolved: false,
        },
        MessagePart::Error { id: "e".into(), message: "boom".into() },
    ];
    let e = entry(MessageRole::Assistant, Some(MessageStatus::Complete), parts);
    let empty = Arc::new(BlockTree { blocks: Vec::new() });
    let trees = vec![empty.clone(), empty];
    assert!(check_trees(&e, &trees));
    assert!(!check_trees(&e, &Vec::new()));
    let rows = rows_for_entry(&e, false, &body(""), &trees);
    assert_eq!(rows.len(), 2);
    assert!(matches!(&rows[0].kind, RowKind::InputChip { header, resolved: false } if header == "Pick one"));
    assert!(matches!(&rows[1].kind, RowKind::ErrorChip { message } if message == "boom"));
    assert!(rows[0].turn_start && !rows[1].turn_start);
    assert_eq!(rows[1].timestamp, Some(5_000));
}

#[test]
fn only_text_and_thoughts_are_parsed() {
    let e = entry(
        MessageRole::Assistant,
        Some(MessageStatus::Streaming),
        vec![
            text("hello"),
            MessagePart::Error { id: "e".into(), message: "boom".into() },
            MessagePart::Reasoning { id: "r".into(), text: "why".into() },
            text("  "),
        ],
    );
    let wanted = parse_requests(&e);
    assert_eq!(wanted.iter().map(|r| r.part_ix).collect::<Vec<_>>(), [0, 2]);
    assert_ne!(wanted[0].key, wanted[1].key);
    assert_eq!(part_prefix("m#t0.3"), "m#t0");
    let user = entry(MessageRole::User, None, vec![text("a"), text("b")]);
    assert!(raw_text(&user).starts_with('a'));
}

#[test]
fn rows_stand_apart() {
    let rows = rows();
    assert_eq!(row_frame(&rows, 3, false, &None), None);
    assert_eq!(
        row_frame(&rows, 0, false, &None),
        Some((TopGap::BelowTitlebar, BottomPad::Nothing))
    );
    assert_eq!(row_frame(&rows, 0, true, &None).unwrap().0, TopGap::PaneTop);
    assert_eq!(
        row_frame(&rows, 1, false, &None).unwrap().0,
        TopGap::Between(RowGap::Turn)
    );
    assert_eq!(
        row_frame(&rows, 2, false, &Some("eb".into())).unwrap().1,
        BottomPad::Clearance { runway: true }
    );
    assert_eq!(
        row_frame(&rows, 2, false, &Some("gone".into())).unwrap().1,
        BottomPad::Clearance { runway: false }
    );
}

fn span(start: usize, end: usize) -> MentionSpan {
    MentionSpan { range: start..end, path: "p".into(), is_dir: false }
}

#[test]
fn a_bubble_is_covered_by_its_runs() {
    let runs = bubble_runs(20, &vec![span(3, 7), span(7, 9)]);
    let plain = |len: usize| BubbleRun { len, chip: false };
    let chip = |len: usize| BubbleRun { len, chip: true };
    assert_eq!(runs, [plain(3), chip(4), chip(2), plain(11)]);
    assert_eq!(runs.iter().map(|r| r.len).sum::<usize>(), 20);
    assert_eq!(bubble_runs(4, &Vec::new()), [plain(4)]);
    assert!(bubble_runs(0, &Vec::new()).is_empty());
}

#[test]
fn the_strip_follows_the_pointer() {
    let mut hover = None;
    assert!(hover_row(&mut hover, "a", "ea"));
    assert!(hover_row(&mut hover, "b", "eb"));
    assert!(!hover_row(&mut hover, "b1", "eb"));
    assert!(!leave_row(&mut hover, "b"), "a late leave takes nothing");
    let shown = Row { timestamp: Some(7), copy_text: Some("x".into()), ..row("b1", "eb", false) };
    let strip = meta_strip(&shown, &hover, &Some("eb".into())).unwrap();
    assert!(strip.shown && strip.copied && !strip.at_end);
    assert_eq!((strip.ms, strip.copy.as_deref()), (7, Some("x")));
    assert!(leave_row(&mut hover, "b1"));
    assert!(hover.is_none());
    assert!(!meta_strip(&shown, &hover, &None).unwrap().shown);
    assert!(meta_strip(&row("a", "ea", true), &hover, &None).is_none());
    assert_eq!(copied_block(&Some(("a".into(), 3)), "a"), Some(3));
    assert_eq!(copied_block(&Some(("a".into(), 3)), "b"), None);
}

#[test]
fn a_prompt_shows_what_it_has() {
    let e = entry(MessageRole::User, None, vec![text("hi")]);
    let rows = rows_for_entry(&e, true, &body("hi"), &Vec::new());
    let s = user_sections(&rows[0].kind).unwrap();
    assert!(s.bubble && s.faint && !s.attachments && !s.badges);
    assert!(user_sections(&RowKind::ErrorChip { message: String::new() }).is_none());
}

// ---- the trailer ----

fn moment(secs: i64) -> Moment {
    Moment { secs, nanos: 0 }
}

fn line(t: Option<Trailer>) -> (String, bool, Option<String>) {
    match t {
        Some(Trailer::Working(l)) => (l.text, l.queued, l.elapsed),
        _ => panic!("expected a line"),
    }
}

#[test]
fn the_trailer_counts_once_the_turn_runs() {
    let chat = Some("chat-1".to_string());
    assert!(chat_trailer(&None, true, true, None, None, false, moment(0)).is_none());
    assert!(matches!(
        chat_trailer(&chat, true, true, None, None, false, moment(0)),
        Some(Trailer::Undelivered)
    ));
    assert!(chat_trailer(&chat, false, false, None, None, false, moment(0)).is_none());
    let sending = chat_trailer(&chat, false, true, Some(moment(5)), None, false, moment(9));
    assert_eq!(line(sending), ("Sending…".to_string(), false, None));
    let queued = chat_trailer(&chat, false, true, Some(moment(5)), None, true, moment(9));
    assert_eq!(line(queued), ("Queued — will send automatically".to_string(), true, None));
    let running =
        chat_trailer(&chat, false, true, Some(moment(5)), Some(moment(6)), false, moment(98));
    let word = flavour_word(flavour_seed("chat-1"), 92);
    assert_eq!(line(running), (format!("{word}…"), false, Some("1m 32s".to_string())));
    let ahead = chat_trailer(&chat, false, true, None, Some(moment(50)), false, moment(0));
    assert_eq!(line(ahead).2.as_deref(), Some("0s"));
    assert_eq!(undelivered_label(), "Not delivered — click to retry");
}

#[test]
fn flavour_words_come_around() {
    let seed = flavour_seed("chat-1");
    for secs in [0, 6, 7, 100] {
        assert_eq!(flavour_word(seed, secs), flavour_word(seed, secs + 140));
    }
    assert_eq!(flavour_word(0, 0), "Thinking");
    assert_eq!(flavour_word(0, 7), "Pondering");
    assert_eq!(flavour_word(19, 13), "Thinking");
    assert_eq!(flavour_word(0, -3), "Thinking");
}

#[test]
fn only_a_live_document_has_a_trailer() {
    let live = entry(MessageRole::Assistant, Some(MessageStatus::Streaming), Vec::new());
    assert!(subagent_trailer("d", false, Some(&live), 9_000).is_none());
    let l = line(subagent_trailer("d", true, Some(&live), 9_999));
    assert_eq!(l.2.as_deref(), Some("4s"));
    let done = entry(MessageRole::Assistant, Some(MessageStatus::Complete), Vec::new());
    assert!(subagent_trailer("d", true, Some(&done), 9_000).is_none());
    let asked = entry(MessageRole::User, None, Vec::new());
    assert!(subagent_trailer("d", true, Some(&asked), 9_000).is_some());
    assert!(subagent_trailer("d", true, None, 9_000).is_none());
}

#[test]
fn a_time_out_of_range_has_no_label() {
    assert_eq!(format_timestamp(i64::MAX, 0), "");
    assert_eq!(format_timestamp(0, 0), "Jan 1, 12:00 AM");
    assert_eq!(timestamp_label(None), "");
    assert_eq!(timestamp_label(Some("x".into())), "x");
}

// ---- images ----

#[test]
fn images_are_looked_for_on_their_devices() {
    let a = Some("a".to_string());
    let b = Some("b".to_string());
    assert_eq!(attachment_device_ids(false, &a, &b), ["a", "b"]);
    assert_eq!(attachment_device_ids(false, &a, &a), ["a"]);
    assert_eq!(attachment_device_ids(false, &None, &b), ["b"]);
    assert!(attachment_device_ids(true, &a, &b).is_empty());
    assert_eq!(relay_target(&a, "a"), None);
    assert_eq!(relay_target(&a, "b").as_deref(), Some("b"));
    assert_eq!(relay_target(&None, "b").as_deref(), Some("b"));
}

#[test]
fn an_image_shows_once_a_device_has_it() {
    let error = |retry_in: u64| Snapshot::Error { retry_in };
    assert_eq!(
        attachment_state(&vec![error(5), Snapshot::Loading, Snapshot::Loaded]),
        Thumb::Loaded { device: 2 }
    );
    assert_eq!(attachment_state(&vec![error(5), Snapshot::Loading]), Thumb::Loading);
    assert_eq!(
        attachment_state(&vec![error(5), error(2)]),
        Thumb::Error { retry_in: Some(2) }
    );
    assert_eq!(attachment_state(&Vec::new()), Thumb::Error { retry_in: None });
}

#[test]
fn a_retry_is_due_once() {
    let mut due = RetrySet::new();
    assert_eq!(due.schedule("d", "p", 2000), Some(2060));
    assert_eq!(due.schedule("d", "p", 2000), None);
    assert_eq!(due.schedule("d", "q", u64::MAX), Some(u64::MAX));
    due.wake("d", "p");
    assert_eq!(due.schedule("d", "p", 0), Some(60));
}

#[test]
fn shown_images_are_protected() {
    let image = |p: &str| UserImageAttachment { path: p.into(), name: p.into() };
    let user = Row {
        kind: RowKind::User {
            text: String::new(),
            mentions: Arc::new(Vec::new()),
            attachments: Arc::new(vec![image("p"), image("q")]),
            badges: Arc::new(Vec::new()),
            pending: false,
        },
        ..row("u", "u", true)
    };
    let kept = protected_attachments(
        &vec![row("a", "a", true), user],
        &vec!["d".to_string(), "e".to_string()],
    );
    assert_eq!(kept.len(), 4);
    assert!(kept.contains(&("d".to_string(), "p".to_string())));
    assert!(kept.contains(&("e".to_string(), "q".to_string())));
    assert!(protected_attachments(&vec![row("a", "a", true)], &vec!["d".to_string()]).is_empty());
}

#[test]
fn an_upload_has_an_id_and_a_share() {
    assert!(is_sending("pending://u1/red.png") && is_sending("pending/red.png"));
    assert!(!is_sending("/data/red.png"));
    assert_eq!(upload_id("pending://u1/red.png").as_deref(), Some("u1"));
    assert_eq!(upload_id("pending/red.png"), None);
    assert_eq!(upload_percent("pending://u1/red.png", Some(40), Some(10)), Some(40));
    assert_eq!(upload_percent("pending://u1/red.png", None, Some(10)), Some(10));
    assert_eq!(upload_percent("/data/red.png", Some(40), Some(10)), None);
}

// ---- highlights ----

#[test]
fn highlights_are_made_once_and_found_again() {
    let key = SourceKey { lang: Lang::Rust, print: 7 };
    let other = SourceKey { lang: Lang::Rust, print: 8 };
    let mut store = HighlightStore::new();
    assert_eq!(store.request("r", 0, key, false, None), HighlightStep::Start);
    assert_eq!(store.request("r", 0, key, false, None), HighlightStep::Pending);
    assert_eq!(store.request("r", 1, key, false, Some(9)), HighlightStep::Ready { document: 9 });
    assert!(store.finish("r", 0, key, 5, true));
    assert_eq!(store.document("r", 0), Some(5));
    assert_eq!(store.request("r", 0, key, true, None), HighlightStep::Ready { document: 5 });
    assert_eq!(store.request("r", 0, key, false, None), HighlightStep::Start, "they were let go");
    // The source changed meanwhile.
    assert_eq!(store.request("r", 0, other, false, None), HighlightStep::Start);
    assert!(!store.finish("r", 0, key, 6, true));
    assert_eq!(store.document("r", 0), None);
    assert_eq!(fence_tag(Lang::Rust), "rust");
    assert_eq!(diff_row("r", 3), diff_row("r", 3));
    assert_ne!(diff_row("r", 3), diff_row("r", 4));
}

#[test]
fn code_in_a_language_is_highlighted() {
    let code = |language: Option<&str>| TopBlock {
        block: Block::CodeBlock {
            language: language.map(|l| l.to_string()),
            code: "x".into(),
        },
        range: 0..1,
    };
    let tree = BlockTree {
        blocks: vec![
            code(Some("rust")),
            TopBlock { block: paragraph("x"), range: 1..2 },
            code(None),
            code(Some("go")),
        ],
    };
    assert_eq!(code_blocks(&tree, None), [0, 3]);
    assert_eq!(code_blocks(&tree, Some(3)), [3]);
    assert!(code_blocks(&tree, Some(2)).is_empty());
    let diff = ToolDiff { path: "a.rs".into(), old_text: Some("x\n".into()), new_text: "y\n".into() };
    let detail = ToolDetail::Diff {
        file: diff_to_file(&diff),
        old_text: diff.old_text.clone(),
        new_text: Some(diff.new_text.clone()),
    };
    let (old, new) = diff_sources(&detail).unwrap();
    assert_eq!(old.map(|s| (s.path, s.text)), Some(("a.rs".to_string(), "x\n".to_string())));
    assert_eq!(new.map(|s| s.text).as_deref(), Some("y\n"));
    assert!(diff_sources(&ToolDetail::Stats { stats: Vec::new() }).is_none());
}
