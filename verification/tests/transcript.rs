use std::sync::Arc;

use zeron_ui::chips::{
    chips_height, tool_group_summary, CHIPS_TOP_PAD, CHIP_GAP, CHIP_HEIGHT,
};
use zeron_ui::clock::{
    flavour_seed, flavour_word, format_elapsed, format_timestamp, sending_bridge, Moment,
};
use zeron_ui::diff::{FileStatus, LineKind, ToolDiff};
use zeron_ui::geometry::{own_turn_reservation, selection_scroll_step};
use zeron_ui::markdown::{Block, BlockTree, InlineRun, InlineStyle, TopBlock};
use zeron_ui::message::{
    assistant_copy_text, MentionSpan, MessagePart, MessageRole, MessageStatus,
    SessionMessageEntry, UserBody, UserImageAttachment,
};
use zeron_ui::rows::{rows_for_entry, Row, RowKind};
use zeron_ui::rowset::{diff_rows, top_gap_for, RowGap};
use zeron_ui::scroll::{should_anchor_live_stream, Transcript, AT_BOTTOM_BITS};
use zeron_ui::text::single_line;
use zeron_ui::thoughts::thought_lines;
use zeron_ui::titles::{subagent_tab_title, SUBAGENT_TITLE_MAX};
use zeron_ui::tools::{
    call_block, is_agent_call, is_agent_tool, is_spawn_link, tool_detail, tool_group_collapses,
    CallFacts, SubagentStatus, TodoItem, ToolCall, ToolDetail, CALL_WRAP_COLS,
    OUTPUT_DETAIL_MAX_LINES,
};
use zeron_ui::viewport::{
    ListOffset, OwnTurnAnchor, Px, SavedViewport, SavedViewportCache, TranscriptReplayState,
    ViewportAnchor, ViewportFinalizeToken, MAX_SAVED_VIEWPORTS,
};
use zeron_ui::wrap::THOUGHT_WRAP_COLS;

fn px(v: f32) -> Px {
    Px { bits: v.to_bits() }
}

fn at_top() -> ListOffset {
    ListOffset { item_ix: 0, offset_in_item: px(0.0) }
}

// ---- markdown for the tests: enough of it to make block trees ----

fn styled(text: &str, style: InlineStyle) -> InlineRun {
    InlineRun { text: text.to_string(), style }
}

fn inline(text: &str) -> Vec<InlineRun> {
    let mut runs = Vec::new();
    let mut rest = text;
    while !rest.is_empty() {
        if let Some(tail) = rest.strip_prefix("**") {
            let end = tail.find("**").unwrap();
            runs.push(styled(&tail[..end], InlineStyle { bold: true, ..InlineStyle::default() }));
            rest = &tail[end + 2..];
        } else if let Some(tail) = rest.strip_prefix('*') {
            let end = tail.find('*').unwrap();
            runs.push(styled(&tail[..end], InlineStyle { italic: true, ..InlineStyle::default() }));
            rest = &tail[end + 1..];
        } else if let Some(tail) = rest.strip_prefix('`') {
            let end = tail.find('`').unwrap();
            runs.push(styled(&tail[..end], InlineStyle { code: true, ..InlineStyle::default() }));
            rest = &tail[end + 1..];
        } else if let Some(tail) = rest.strip_prefix('[') {
            let end = tail.find("](").unwrap();
            let close = tail.find(')').unwrap();
            let link = Some(tail[end + 2..close].to_string());
            runs.push(styled(&tail[..end], InlineStyle { link, ..InlineStyle::default() }));
            rest = &tail[close + 1..];
        } else {
            let end = rest.find(['*', '`', '[']).unwrap_or(rest.len());
            runs.push(styled(&rest[..end], InlineStyle::default()));
            rest = &rest[end..];
        }
    }
    runs
}

fn block(text: &str) -> Block {
    if let Some(head) = text.strip_prefix("# ") {
        Block::Heading { level: 1, runs: inline(head) }
    } else if let Some(fence) = text.strip_prefix("```") {
        let (language, rest) = fence.split_once('\n').unwrap();
        let code = rest.strip_suffix("\n```").unwrap();
        Block::CodeBlock { language: Some(language.to_string()), code: code.to_string() }
    } else if text.starts_with("- ") {
        let items = text
            .lines()
            .map(|l| vec![Block::Paragraph { runs: inline(l.strip_prefix("- ").unwrap()) }])
            .collect();
        Block::List { ordered_start: None, items }
    } else {
        Block::Paragraph { runs: inline(text) }
    }
}

fn parse(text: &str) -> Arc<BlockTree> {
    let mut blocks = Vec::new();
    let mut at = 0;
    for piece in text.split("\n\n") {
        if !piece.trim().is_empty() {
            blocks.push(TopBlock { block: block(piece), range: at..at + piece.len() });
        }
        at += piece.len() + 2;
    }
    Arc::new(BlockTree { blocks })
}

fn trees(entry: &SessionMessageEntry) -> Vec<Arc<BlockTree>> {
    entry
        .parts
        .iter()
        .map(|part| match part {
            MessagePart::Text { text, .. } => parse(text),
            MessagePart::Reasoning { text, .. } => parse(text),
            _ => Arc::new(BlockTree { blocks: Vec::new() }),
        })
        .collect()
}

fn plain_body(text: &str) -> UserBody {
    UserBody {
        text: text.to_string(),
        mentions: Arc::new(Vec::new()),
        attachments: Arc::new(Vec::new()),
        badges: Arc::new(Vec::new()),
    }
}

fn rows_of(entry: &SessionMessageEntry, pending: bool) -> Vec<Row> {
    let text = match entry.parts.first() {
        Some(MessagePart::Text { text, .. }) => text.clone(),
        _ => String::new(),
    };
    rows_for_entry(entry, pending, &plain_body(&text), &trees(entry))
}

fn assistant(id: &str, status: MessageStatus, parts: Vec<MessagePart>) -> SessionMessageEntry {
    SessionMessageEntry {
        id: id.into(),
        role: MessageRole::Assistant,
        parts,
        created_at: 0,
        device_id: "dev".into(),
        status: Some(status),
        continuation_of: None,
    }
}

fn text_part(id: &str, text: &str) -> MessagePart {
    MessagePart::Text { id: id.into(), text: text.into() }
}

fn reasoning_part(id: &str, text: &str) -> MessagePart {
    MessagePart::Reasoning { id: id.into(), text: text.into() }
}

fn facts(spawn: bool, label: &str, detail: &str) -> Arc<CallFacts> {
    Arc::new(CallFacts { spawn, label: label.into(), detail: detail.into(), model: None })
}

fn tool_part(id: &str, command: &str) -> MessagePart {
    MessagePart::Tool {
        id: id.into(),
        call: Arc::new(ToolCall::Exec { command: command.into() }),
        facts: facts(false, "Run", command),
        is_error: false,
        resolved: true,
        output: None,
        diff: None,
        output_ref: None,
        output_bytes: None,
        diff_ref: None,
        diff_stats: None,
        subagent_ref: None,
        subagent_status: None,
        subagent_tail: None,
    }
}

fn agent_part(id: &str, description: &str) -> MessagePart {
    let input = format!("{{\"description\": \"{description}\"}}");
    MessagePart::Tool {
        id: id.into(),
        call: Arc::new(ToolCall::Unknown {
            name: format!("Agent: {description}"),
            input: Some(serde_json::from_str(&input).unwrap()),
        }),
        facts: facts(true, "Agent", description),
        is_error: false,
        resolved: true,
        output: None,
        diff: None,
        output_ref: None,
        output_bytes: None,
        diff_ref: None,
        diff_stats: None,
        subagent_ref: Some(format!("chat--sub--{id}")),
        subagent_status: Some(SubagentStatus::Running),
        subagent_tail: None,
    }
}

const MD: &str = "# Title\n\npara one\n\n```rust\nlet x = 1;\n```";

// ---- scrolling ----

#[test]
fn restick_is_direction_aware() {
    // Scrolling away from the bottom never resticks, even inside the band.
    assert!(!Transcript::should_restick(px(20.0), px(0.0)));
    assert!(!Transcript::should_restick(px(69.0), px(30.0)));
    // Returning toward the bottom resticks once inside the band…
    assert!(Transcript::should_restick(px(69.0), px(120.0)));
    assert!(Transcript::should_restick(px(0.0), px(30.0)));
    // …but not while still outside it.
    assert!(!Transcript::should_restick(px(200.0), px(300.0)));
    // No movement leaves the pin alone.
    assert!(!Transcript::should_restick(px(50.0), px(50.0)));
}

#[test]
fn only_a_stream_at_the_bottom_gets_a_hard_end_anchor() {
    let edge = f32::from_bits(AT_BOTTOM_BITS);
    assert!(should_anchor_live_stream(true, px(0.0), true));
    assert!(should_anchor_live_stream(true, px(edge), true));
    assert!(!should_anchor_live_stream(true, px(edge + 0.1), true));
    assert!(!should_anchor_live_stream(false, px(0.0), true));
    assert!(!should_anchor_live_stream(true, px(0.0), false));
}

/// Whole pixels in 64ths.
fn fixed(px: i32) -> i32 {
    px * 64
}

#[test]
fn selection_scroll_ramps_at_viewport_edges() {
    let step = |y: i32| {
        let s = selection_scroll_step(fixed(20), fixed(200), fixed(y));
        s.num as f32 / s.den as f32
    };
    assert_eq!(step(120), 0.0);
    assert!(step(20) < 0.0);
    assert!(step(220) > 0.0);
    assert!(step(220) > step(200));
}

#[test]
fn own_turn_reservation_is_a_min_height_for_the_turn() {
    let reserved =
        |turn: i32| own_turn_reservation(fixed(700) as i64, fixed(turn) as i64);
    // A short turn reserves the rest of the usable viewport below it.
    assert_eq!(reserved(100), fixed(600) as i128);
    // Growth consumes the reservation 1:1 — total held height is stable.
    assert_eq!(reserved(450), fixed(250) as i128);
    // At/past the fill line nothing is reserved (bottom spring takes
    // over with no height jump).
    assert_eq!(reserved(700), 0);
    assert_eq!(reserved(1_200), 0);
}

fn viewport_row(id: &str, entry_id: &str) -> Row {
    Row {
        id: id.into(),
        version: 0,
        turn_start: true,
        kind: RowKind::ErrorChip { message: String::new() },
        entry_id: entry_id.into(),
        timestamp: None,
        copy_text: None,
    }
}

#[test]
fn viewport_anchor_tracks_a_stable_row_across_replay() {
    let rows = vec![
        viewport_row("a", "entry-a"),
        viewport_row("b", "entry-b"),
        viewport_row("c", "entry-c"),
    ];
    let anchor =
        ViewportAnchor::capture(&rows, ListOffset { item_ix: 1, offset_in_item: px(23.0) })
            .expect("visible row");

    let replay = vec![
        viewport_row("new", "entry-new"),
        viewport_row("a", "entry-a"),
        viewport_row("b", "entry-b"),
        viewport_row("c", "entry-c"),
    ];
    let restored = anchor.resolve(&replay).expect("restored row");
    assert_eq!(restored.item_ix, 2);
    assert_eq!(restored.offset_in_item, px(23.0));
}

#[test]
fn viewport_anchor_has_entry_and_index_fallbacks() {
    let rows = vec![
        viewport_row("a", "entry-a"),
        viewport_row("b", "entry-b"),
        viewport_row("old-block", "entry-c"),
    ];
    let anchor =
        ViewportAnchor::capture(&rows, ListOffset { item_ix: 2, offset_in_item: px(31.0) })
            .expect("visible row");

    let reshaped = vec![
        viewport_row("a", "entry-a"),
        viewport_row("b", "entry-b"),
        viewport_row("inserted", "entry-new"),
        viewport_row("new-block", "entry-c"),
    ];
    let same_entry = anchor.resolve(&reshaped).expect("entry fallback");
    assert_eq!(same_entry.item_ix, 3);
    assert_eq!(same_entry.offset_in_item, px(0.0));

    let entry_removed = vec![viewport_row("a", "entry-a"), viewport_row("b", "entry-b")];
    let clamped = anchor.resolve(&entry_removed).expect("index fallback");
    assert_eq!(clamped.item_ix, 1);
    assert_eq!(clamped.offset_in_item, px(0.0));
}

#[test]
fn optimistic_echo_cannot_consume_a_historical_viewport_before_replay() {
    let history = vec![viewport_row("historical", "historical-entry")];
    let saved = SavedViewport::capture(&history, at_top(), false, px(480.0), &None)
        .expect("historical viewport");
    let echo_only = vec![viewport_row("echo", "echo-entry")];

    assert!(
        saved.resolve(&echo_only, false).is_none(),
        "an unrelated echo is not an authoritative index fallback"
    );
    assert_eq!(
        saved
            .resolve(&echo_only, true)
            .expect("populated replay may use an index fallback")
            .offset
            .item_ix,
        0
    );
    assert!(TranscriptReplayState::Empty.authoritative_empty());
    assert!(!TranscriptReplayState::Empty.allows_fallback());
    assert!(!TranscriptReplayState::Pending.allows_fallback());
    assert!(TranscriptReplayState::Populated.allows_fallback());

    let echo_viewport = SavedViewport::capture(&echo_only, at_top(), false, px(0.0), &None)
        .expect("echo viewport");
    assert!(
        echo_viewport.resolve(&echo_only, false).is_some(),
        "the exact optimistic row is safe before replay"
    );
}

#[test]
fn saved_viewport_preserves_and_releases_an_active_turn_runway() {
    let rows = vec![viewport_row("prompt", "prompt")];
    let own_turn = Some(OwnTurnAnchor {
        chat_id: "chat-a".into(),
        message_id: "prompt".into(),
        runway: px(640.0),
        held: true,
        positioned: true,
        seen_prompt: true,
    });
    let saved = SavedViewport::capture(&rows, at_top(), false, px(0.0), &own_turn)
        .expect("active chat viewport");
    let SavedViewport::Anchored { own_turn: Some(saved_turn), .. } = &saved else {
        panic!("an active turn must keep its runway with the viewport");
    };
    assert_eq!(saved_turn.runway, px(640.0));
    assert!(saved_turn.held);
    assert!(saved_turn.positioned);

    let restored =
        saved.resolve(&rows, false).expect("exact queued echo survives an empty replay");
    assert_eq!(restored.offset.item_ix, 0);
    assert_eq!(restored.offset.offset_in_item, px(0.0));
    let restored_turn = restored.own_turn.expect("valid restored runway");
    assert_eq!(restored_turn.runway, px(640.0));
    assert!(!restored_turn.held);
    assert!(!restored_turn.positioned);
    assert!(restored_turn.seen_prompt);

    assert!(
        SavedViewport::capture(&Vec::new(), at_top(), false, px(0.0), &own_turn).is_none(),
        "an empty rapid-switch replay must not overwrite the older snapshot"
    );
}

#[test]
fn own_turn_waits_for_its_first_echo_then_retires_if_it_disappears() {
    let mut turn = OwnTurnAnchor {
        chat_id: "chat-a".into(),
        message_id: "prompt".into(),
        runway: px(0.0),
        held: true,
        positioned: false,
        seen_prompt: false,
    };

    assert!(turn.observe_prompt(false), "fresh send waits one state gap");
    assert!(turn.observe_prompt(true), "echo activates the runway");
    assert!(turn.seen_prompt);
    assert!(!turn.observe_prompt(false), "failed echo retires the activated runway");
}

#[test]
fn restored_viewport_discards_a_failed_optimistic_turn() {
    let outgoing = vec![viewport_row("prompt", "prompt")];
    let own_turn = Some(OwnTurnAnchor {
        chat_id: "chat-a".into(),
        message_id: "prompt".into(),
        runway: px(640.0),
        held: true,
        positioned: true,
        seen_prompt: true,
    });
    let saved = SavedViewport::capture(&outgoing, at_top(), false, px(420.0), &own_turn)
        .expect("outgoing viewport");

    let replay = vec![viewport_row("older", "older")];
    let restored = saved.resolve(&replay, true).expect("index fallback");
    assert!(restored.own_turn.is_none());
    assert_eq!(restored.offset.item_ix, 0);
    assert_eq!(restored.distance_from_bottom, px(420.0));
}

#[test]
fn pinned_viewports_follow_tail_and_the_cache_is_bounded() {
    let rows = vec![viewport_row("row", "entry")];
    let pinned = SavedViewport::capture(&rows, at_top(), true, px(999.0), &None)
        .expect("pinned viewport");
    assert!(matches!(pinned, SavedViewport::FollowTail));

    let mut cache = SavedViewportCache::default();
    for ix in 0..MAX_SAVED_VIEWPORTS + 8 {
        cache.insert(format!("chat-{ix}"), SavedViewport::FollowTail);
    }
    assert_eq!(cache.len(), MAX_SAVED_VIEWPORTS);
    assert!(cache.get_cloned_and_touch("chat-0").is_none());
    assert!(
        cache.get_cloned_and_touch(&format!("chat-{}", MAX_SAVED_VIEWPORTS + 7)).is_some()
    );
}

#[test]
fn reopening_the_oldest_cached_chat_protects_it_from_the_next_eviction() {
    let mut cache = SavedViewportCache::default();
    for ix in 0..MAX_SAVED_VIEWPORTS {
        cache.insert(format!("chat-{ix}"), SavedViewport::FollowTail);
    }

    assert!(cache.get_cloned_and_touch("chat-0").is_some());
    cache.insert("outgoing-new".into(), SavedViewport::FollowTail);

    assert!(cache.contains("chat-0"));
    assert!(!cache.contains("chat-1"));
    assert!(cache.contains("outgoing-new"));
}

#[test]
fn viewport_finalization_waits_for_current_generation_and_stable_layout() {
    let token = ViewportFinalizeToken { generation: 7, layout_revision: 11 };
    assert!(token.still_current(7));
    assert!(!token.still_current(8));
    assert!(token.layout_settled(11));
    assert!(!token.layout_settled(12));
}

// ---- rows ----

#[test]
fn reasoning_joins_the_tool_group_accordion() {
    let entry = assistant(
        "a1",
        MessageStatus::Complete,
        vec![
            reasoning_part("r0", "planning the first step"),
            tool_part("t1", "ls"),
            reasoning_part("r2", "now the second step"),
            tool_part("t3", "pwd"),
        ],
    );
    let rows = rows_of(&entry, false);
    assert_eq!(rows.len(), 1, "one combined accordion row");
    let RowKind::ToolGroup { tools, .. } = &rows[0].kind else {
        panic!("expected a tool group");
    };
    assert_eq!(tools.len(), 4);
    assert!(tools[0].is_thought && tools[2].is_thought);
    assert!(!tools[1].is_thought && !tools[3].is_thought);
    assert!(matches!(
        tools[0].detail.as_deref(),
        Some(ToolDetail::Thought { lines, .. }) if !lines.is_empty()
    ));
    let summary = tool_group_summary(tools, "Ran 2 commands");
    assert!(summary.starts_with("Thought 2 times"), "{summary}");
    assert!(summary.contains("2 commands"), "{summary}");

    // A lone thought is still an accordion, named plainly.
    let entry =
        assistant("a2", MessageStatus::Complete, vec![reasoning_part("r0", "just thinking")]);
    let rows = rows_of(&entry, false);
    assert_eq!(rows.len(), 1);
    let RowKind::ToolGroup { tools, .. } = &rows[0].kind else {
        panic!("expected a tool group");
    };
    assert_eq!(tool_group_summary(tools, "Used 0 tools"), "Thought process");

    // Empty reasoning renders nothing.
    let entry = assistant("a3", MessageStatus::Complete, vec![reasoning_part("r0", "   ")]);
    assert!(rows_of(&entry, false).is_empty());
}

#[test]
fn live_thought_streams_open_and_settles_closed() {
    let entry =
        assistant("a1", MessageStatus::Streaming, vec![reasoning_part("r0", "thinking hard")]);
    let rows = rows_of(&entry, false);
    let RowKind::ToolGroup { tools, auto_open } = &rows[0].kind else {
        panic!("expected a tool group");
    };
    assert!(*auto_open);
    assert!(!tools[0].resolved);

    let entry = assistant(
        "a2",
        MessageStatus::Streaming,
        vec![reasoning_part("r0", "thinking hard"), text_part("t1", "answer")],
    );
    let rows = rows_of(&entry, false);
    let RowKind::ToolGroup { tools, .. } = &rows[0].kind else {
        panic!("expected a tool group");
    };
    assert!(tools[0].resolved, "a followed thought is settled");
}

fn thought_of(text: &str) -> Vec<Vec<InlineRun>> {
    thought_lines(&parse(text))
}

fn line_chars(line: &[InlineRun]) -> usize {
    line.iter().map(|r| r.text.chars().count()).sum()
}

fn line_string(line: &[InlineRun]) -> String {
    line.iter().map(|r| r.text.as_str()).collect()
}

#[test]
fn thought_wrap_is_word_aware_and_bounded() {
    let lines = thought_of("one two three");
    assert_eq!(lines.len(), 1);
    assert_eq!(line_string(&lines[0]), "one two three");
    let long = "word ".repeat(200);
    let lines = thought_of(&long);
    assert!(lines.iter().all(|l| line_chars(l) <= THOUGHT_WRAP_COLS));
    assert!(lines.len() > 5);
    let pathological = "x".repeat(300);
    let lines = thought_of(&pathological);
    assert!(lines.iter().all(|l| line_chars(l) <= THOUGHT_WRAP_COLS));
    let glued = format!("{} **bold**tail", "word ".repeat(30));
    let lines = thought_of(&glued);
    let joined: Vec<String> = lines.iter().map(|l| line_string(l)).collect();
    assert!(joined.iter().any(|l| l.ends_with("boldtail")), "{joined:?}");
}

#[test]
fn thought_markdown_styles_instead_of_literal_markers() {
    let lines = thought_of("**Planning rollback** then *checking* `parse` [docs](https://d)");
    assert_eq!(lines.len(), 1);
    let flat = line_string(&lines[0]);
    assert!(!flat.contains('*') && !flat.contains('`') && !flat.contains('['), "{flat}");
    let line = &lines[0];
    assert!(line.iter().any(|r| r.style.bold && r.text.contains("Planning rollback")));
    assert!(line.iter().any(|r| r.style.italic && r.text.contains("checking")));
    assert!(line.iter().any(|r| r.style.code && r.text.contains("parse")));
    assert!(line.iter().any(|r| r.style.link.is_some() && r.text.contains("docs")));
}

#[test]
fn thought_blocks_flatten_structurally() {
    let lines = thought_of("# Head\n\npara\n\n- one\n- two\n\n```rust\nlet x = 1;\n```");
    let flat: Vec<String> = lines.iter().map(|l| line_string(l)).collect();
    assert!(lines[0].iter().any(|r| r.style.bold && r.text.contains("Head")));
    assert_eq!(flat[1], "");
    assert_eq!(flat[2], "para");
    assert_eq!(flat[4], "• one");
    assert_eq!(flat[5], "• two");
    assert!(
        lines.last().unwrap().iter().any(|r| r.style.code && r.text == "let x = 1;"),
        "{flat:?}"
    );
}

#[test]
fn live_entry_splits_per_block_with_id_continuity() {
    let live = assistant("m1", MessageStatus::Streaming, vec![text_part("t0", MD)]);
    let live_rows = rows_of(&live, false);
    assert_eq!(live_rows.len(), 3, "one live row per top-level block");
    assert!(live_rows.iter().all(|r| matches!(r.kind, RowKind::LiveMarkdown { .. })));
    assert_eq!(live_rows[0].id, "m1#t0.0");
    assert_eq!(live_rows[2].id, "m1#t0.2");

    let done = assistant("m1", MessageStatus::Complete, vec![text_part("t0", MD)]);
    let done_rows = rows_of(&done, false);
    assert_eq!(done_rows.len(), 3, "three top-level blocks");
    for (live, done) in live_rows.iter().zip(&done_rows) {
        assert_eq!(live.id, done.id);
        assert_ne!(live.version, done.version);
    }
    assert!(matches!(done_rows[0].kind, RowKind::Markdown { block_ix: 0, .. }));
}

#[test]
fn live_commit_changes_only_tail_row_versions() {
    let t1 = "para one\n\npara two\n\npara three";
    let t2 = "para one\n\npara two\n\npara three grows here";
    let live1 = assistant("m1", MessageStatus::Streaming, vec![text_part("t0", t1)]);
    let live2 = assistant("m1", MessageStatus::Streaming, vec![text_part("t0", t2)]);
    let r1 = rows_of(&live1, false);
    let r2 = rows_of(&live2, false);
    assert_eq!(r1.len(), 3);
    assert_eq!(r2.len(), 3);
    assert_eq!(r1[0].version, r2[0].version, "settled block untouched");
    assert_eq!(r1[1].version, r2[1].version, "settled block untouched");
    assert_ne!(r1[2].version, r2[2].version, "tail block respliced");
    assert_eq!(diff_rows(&r1, &r2), Some((2..3, 1)));
}

#[test]
fn split_sibling_gaps_match_live_internal_spacing() {
    let done = assistant(
        "m1",
        MessageStatus::Complete,
        vec![text_part("t0", MD), tool_part("a", "ls"), text_part("t1", "tail para")],
    );
    let rows = rows_of(&done, false);
    assert_eq!(rows.len(), 5);
    assert_eq!(top_gap_for(Some(&rows[0]), &rows[1]), RowGap::MarkdownBlock);
    assert_eq!(top_gap_for(Some(&rows[1]), &rows[2]), RowGap::MarkdownBlock);
    assert_eq!(top_gap_for(Some(&rows[2]), &rows[3]), RowGap::Tools);
    assert_eq!(top_gap_for(Some(&rows[3]), &rows[4]), RowGap::Tools);
    assert_eq!(top_gap_for(None, &rows[0]), RowGap::Turn);
}

#[test]
fn consecutive_tools_fold_into_groups_between_text() {
    let entry = assistant(
        "m2",
        MessageStatus::Complete,
        vec![
            text_part("t0", "before"),
            tool_part("a", "ls"),
            tool_part("b", "pwd"),
            text_part("t1", "after"),
            tool_part("c", "make"),
        ],
    );
    let rows = rows_of(&entry, false);
    let ids: Vec<&str> = rows.iter().map(|r| r.id.as_str()).collect();
    assert_eq!(ids, ["m2#t0.0", "m2#g0", "m2#t1.0", "m2#g1"]);
    let RowKind::ToolGroup { tools, .. } = &rows[1].kind else { panic!("group expected") };
    assert_eq!(tools.len(), 2);
    assert!(rows[0].turn_start && !rows[1].turn_start);
}

#[test]
fn agent_calls_split_out_of_ordinary_tool_groups() {
    let entry = assistant(
        "m-agent",
        MessageStatus::Complete,
        vec![
            text_part("t0", "before"),
            tool_part("a", "ls"),
            tool_part("b", "pwd"),
            agent_part("s1", "Map URL import ingest path"),
            tool_part("c", "make"),
            agent_part("s2", "Audit the fold path"),
            agent_part("s3", "Verify the commit cadence"),
            text_part("t1", "after"),
        ],
    );
    let rows = rows_of(&entry, false);
    let ids: Vec<&str> = rows.iter().map(|r| r.id.as_str()).collect();
    assert_eq!(
        ids,
        [
            "m-agent#t0.0",
            "m-agent#g0",
            "m-agent#g1",
            "m-agent#g2",
            "m-agent#g3",
            "m-agent#t1.0",
        ]
    );

    let RowKind::ToolGroup { tools, auto_open } = &rows[1].kind else {
        panic!("ordinary group expected")
    };
    assert_eq!(tools.len(), 2);
    assert!(tool_group_collapses(tools));
    assert!(!*auto_open);

    let RowKind::ToolGroup { tools, .. } = &rows[2].kind else { panic!("agent group expected") };
    assert_eq!(tools.len(), 1);
    assert!(!tool_group_collapses(tools));
    assert!(is_agent_tool(&tools[0]));

    let RowKind::ToolGroup { tools, .. } = &rows[3].kind else {
        panic!("ordinary group expected")
    };
    assert_eq!(tools.len(), 1);
    assert!(tool_group_collapses(tools));

    let RowKind::ToolGroup { tools, .. } = &rows[4].kind else {
        panic!("consecutive agents share a group")
    };
    assert_eq!(tools.len(), 2);
    assert!(!tool_group_collapses(tools));
    assert!(tools.iter().all(is_agent_tool));
}

#[test]
fn stray_subagent_ref_on_a_run_chip_stays_an_ordinary_tool() {
    let mut stray = tool_part("b", "git clone …");
    if let MessagePart::Tool { subagent_ref, subagent_status, .. } = &mut stray {
        *subagent_ref = Some("chat--sub--b".into());
        *subagent_status = Some(SubagentStatus::Done);
    }
    let entry = assistant(
        "m-stray",
        MessageStatus::Complete,
        vec![tool_part("a", "ls"), stray, tool_part("c", "make")],
    );
    let rows = rows_of(&entry, false);
    assert_eq!(rows.len(), 1, "one folded group, no agent split");
    let RowKind::ToolGroup { tools, .. } = &rows[0].kind else { panic!("tool group expected") };
    assert_eq!(tools.len(), 3);
    assert!(tool_group_collapses(tools));
    assert!(tools.iter().all(|t| !is_agent_tool(t)));
    assert!(tools.iter().all(|t| !is_spawn_link(t)));
}

#[test]
fn lone_completed_agent_stays_uncollapsed() {
    let entry =
        assistant("m-lone", MessageStatus::Complete, vec![agent_part("s1", "scan repo")]);
    let rows = rows_of(&entry, false);
    assert_eq!(rows.len(), 1);
    let RowKind::ToolGroup { tools, auto_open } = &rows[0].kind else {
        panic!("agent group expected")
    };
    assert_eq!(tools.len(), 1);
    assert!(!tool_group_collapses(tools), "no 'Called 1 tool' wrap");
    assert!(!*auto_open, "auto_open is a streaming flag; agent rows ignore it at paint");
}

#[test]
fn pre_spawn_agent_name_is_enough_to_split() {
    let mut part = agent_part("s1", "scan repo");
    if let MessagePart::Tool { subagent_ref, subagent_status, .. } = &mut part {
        *subagent_ref = None;
        *subagent_status = None;
    }
    let entry =
        assistant("m-pre", MessageStatus::Complete, vec![tool_part("a", "ls"), part]);
    let rows = rows_of(&entry, false);
    assert_eq!(rows.len(), 2);
    let RowKind::ToolGroup { tools, .. } = &rows[0].kind else { panic!() };
    assert!(tool_group_collapses(tools));
    let RowKind::ToolGroup { tools, .. } = &rows[1].kind else { panic!() };
    assert!(!tool_group_collapses(tools));
    assert!(is_agent_call(&tools[0].facts));
}

#[test]
fn trailing_group_auto_opens_only_while_streaming() {
    let streaming = assistant(
        "m3",
        MessageStatus::Streaming,
        vec![text_part("t0", "hi"), tool_part("a", "ls")],
    );
    let rows = rows_of(&streaming, false);
    let RowKind::ToolGroup { auto_open, .. } = rows[1].kind else { panic!() };
    assert!(auto_open, "trailing group opens while streaming");

    let complete = assistant(
        "m3",
        MessageStatus::Complete,
        vec![text_part("t0", "hi"), tool_part("a", "ls")],
    );
    let rows = rows_of(&complete, false);
    let RowKind::ToolGroup { auto_open, .. } = rows[1].kind else { panic!() };
    assert!(!auto_open);

    // A non-trailing group never auto-opens.
    let mid = assistant(
        "m4",
        MessageStatus::Streaming,
        vec![tool_part("a", "ls"), text_part("t0", "hi")],
    );
    let rows = rows_of(&mid, false);
    let RowKind::ToolGroup { auto_open, .. } = rows[0].kind else { panic!() };
    assert!(!auto_open);
}

#[test]
fn groups_hold_every_chip_in_order() {
    let entry = assistant(
        "m5",
        MessageStatus::Streaming,
        vec![
            tool_part("a", "ls"),
            reasoning_part("r0", "because"),
            agent_part("s", "scan"),
            text_part("t0", "so"),
            reasoning_part("r1", "  "),
            tool_part("b", "make"),
        ],
    );
    let rows = rows_of(&entry, false);
    let groups: Vec<(Vec<bool>, bool)> = rows
        .iter()
        .filter_map(|row| match &row.kind {
            RowKind::ToolGroup { tools, auto_open } => {
                Some((tools.iter().map(|t| t.is_thought).collect(), *auto_open))
            }
            _ => None,
        })
        .collect();
    assert_eq!(
        groups,
        [(vec![false, true], false), (vec![false], false), (vec![false], true)],
        "four chips in order; the blank thought is none; only the last group opens"
    );
    // A trailing part that shows nothing still ends the group before it.
    let blank = assistant(
        "m6",
        MessageStatus::Streaming,
        vec![tool_part("a", "ls"), text_part("t0", " ")],
    );
    let rows = rows_of(&blank, false);
    let RowKind::ToolGroup { auto_open, .. } = rows[0].kind else { panic!() };
    assert!(!auto_open);
}

fn user(id: &str, text: &str) -> SessionMessageEntry {
    let mut entry = assistant(id, MessageStatus::Complete, vec![text_part("t0", text)]);
    entry.role = MessageRole::User;
    entry.status = None;
    entry
}

#[test]
fn user_rows_and_echo_versions() {
    let entry = user("u1", "hello");
    let confirmed = rows_of(&entry, false);
    let echoed = rows_of(&entry, true);
    assert_eq!(confirmed.len(), 1);
    assert_eq!(confirmed[0].id, echoed[0].id);
    // Pending → confirmed changes the version so the row re-renders.
    assert_ne!(confirmed[0].version, echoed[0].version);
    assert!(matches!(&echoed[0].kind, RowKind::User { pending: true, .. }));
}

fn image(path: &str, name: &str) -> UserImageAttachment {
    UserImageAttachment { path: path.into(), name: name.into() }
}

#[test]
fn user_rows_split_attachment_refs_from_text() {
    let entry = user("u2", "what color is this? and the reference behind it");
    let body = UserBody {
        attachments: Arc::new(vec![image("/data/uploads/ab12-red.png", "ab12-red.png")]),
        ..plain_body("what color is this?")
    };
    let rows = rows_for_entry(&entry, false, &body, &Vec::new());
    assert_eq!(rows.len(), 1);
    let RowKind::User { text, attachments, .. } = &rows[0].kind else {
        panic!("expected a user row");
    };
    assert_eq!(text, "what color is this?");
    assert_eq!(rows[0].copy_text.as_deref(), Some("what color is this?"));
    assert_eq!(attachments.len(), 1);
    assert_eq!(attachments[0].path, "/data/uploads/ab12-red.png");
    assert_eq!(attachments[0].name, "ab12-red.png");

    // Image-only send: no bubble text, refs parsed.
    let body = UserBody {
        attachments: Arc::new(vec![image("/a/p.png", "p.png")]),
        ..plain_body("")
    };
    let rows = rows_for_entry(&entry, false, &body, &Vec::new());
    let RowKind::User { text, attachments, .. } = &rows[0].kind else {
        panic!("expected a user row");
    };
    assert_eq!(text, "");
    assert!(rows[0].copy_text.is_none());
    assert_eq!(attachments.len(), 1);
}

#[test]
fn user_rows_project_file_mentions_into_chips() {
    let raw = "look at [composer.rs](zeron-file:crates/ui/src/composer.rs) please";
    let entry = user("u3", raw);
    let shown = "look at \u{00A0}@composer.rs\u{00A0} please";
    let chip = "\u{00A0}@composer.rs\u{00A0}";
    let start = shown.find(chip).unwrap();
    let body = UserBody {
        mentions: Arc::new(vec![MentionSpan {
            range: start..start + chip.len(),
            path: "crates/ui/src/composer.rs".into(),
            is_dir: false,
        }]),
        ..plain_body(shown)
    };
    let rows = rows_for_entry(&entry, false, &body, &Vec::new());
    let RowKind::User { text, mentions, .. } = &rows[0].kind else {
        panic!("expected a user row");
    };
    assert!(!text.contains("zeron-file:"), "raw link left visible: {text}");
    assert!(text.contains("composer.rs"));
    assert_eq!(mentions.len(), 1);
    assert!(!mentions[0].is_dir);
    assert_eq!(mentions[0].path, "crates/ui/src/composer.rs");
    assert_eq!(&text[mentions[0].range.clone()], "\u{00A0}@composer.rs\u{00A0}");
    // The version derives from the raw text, so projection never perturbs it.
    assert_eq!(rows[0].version, (raw.len() as u64) << 1);

    let entry = user("u3", "no mentions here");
    let rows = rows_of(&entry, false);
    let RowKind::User { text, mentions, .. } = &rows[0].kind else {
        panic!("expected a user row");
    };
    assert_eq!(text, "no mentions here");
    assert!(mentions.is_empty());
}

#[test]
fn diff_rows_appends_and_middle_edits() {
    let entry1 = assistant("m1", MessageStatus::Complete, vec![text_part("t0", "one")]);
    let entry2 = assistant("m2", MessageStatus::Complete, vec![text_part("t0", "two")]);
    let r1 = rows_of(&entry1, false);
    let mut both = r1.clone();
    both.extend(rows_of(&entry2, false));

    // Identical → None.
    assert!(diff_rows(&r1, &r1.clone()).is_none());
    // Append → splice at the tail.
    assert_eq!(diff_rows(&r1, &both), Some((1..1, 1)));
    // Removal from the end.
    assert_eq!(diff_rows(&both, &r1), Some((1..2, 0)));

    // Middle content change: only the changed row splices.
    let entry1b = assistant("m1", MessageStatus::Complete, vec![text_part("t0", "one more")]);
    let mut both_b = rows_of(&entry1b, false);
    both_b.extend(rows_of(&entry2, false));
    assert_eq!(diff_rows(&both, &both_b), Some((0..1, 1)));

    // Full reset when everything shifts.
    let r2 = rows_of(&entry2, false);
    assert_eq!(diff_rows(&r1, &r2), Some((0..1, 1)));
}

#[test]
fn diff_handles_live_to_split_growth() {
    let live = assistant("m1", MessageStatus::Streaming, vec![text_part("t0", MD)]);
    let done = assistant("m1", MessageStatus::Complete, vec![text_part("t0", MD)]);
    let live_rows = rows_of(&live, false);
    let done_rows = rows_of(&done, false);
    // Same ids; every version flips its streaming bit → one 3-row splice.
    assert_eq!(diff_rows(&live_rows, &done_rows), Some((0..3, 3)));
}

#[test]
fn tool_diff_builds_real_hunks_with_context_and_numbers() {
    let old = (1..=20).map(|i| format!("line {i}")).collect::<Vec<_>>();
    let mut new = old.clone();
    new[9] = "LINE 10".into();
    let diff = ToolDiff {
        path: "/w/a.rs".into(),
        old_text: Some(old.join("\n") + "\n"),
        new_text: new.join("\n") + "\n",
    };
    let Some(ToolDetail::Diff { file, old_text, new_text }) = tool_detail(None, Some(&diff), None)
    else {
        panic!("expected diff detail");
    };
    // One hunk: the change plus 3 context lines each side, real numbers.
    assert_eq!(file.hunks.len(), 1);
    let hunk = &file.hunks[0];
    assert_eq!(hunk.header, "@@ -7,7 +7,7 @@");
    assert_eq!(hunk.lines.len(), 8); // 6 context + 1 del + 1 add
    let del = hunk.lines.iter().find(|l| l.kind == LineKind::Del).expect("del line");
    assert_eq!(del.old_no, Some(10));
    assert_eq!(del.new_no, None);
    assert_eq!(del.text, "line 10");
    let add = hunk.lines.iter().find(|l| l.kind == LineKind::Add).expect("add line");
    assert_eq!(add.new_no, Some(10));
    assert_eq!(add.text, "LINE 10");
    assert_eq!((file.additions, file.deletions), (1, 1));
    assert_eq!(old_text.as_deref(), diff.old_text.as_deref());
    assert_eq!(new_text.as_deref(), Some(diff.new_text.as_str()));
    // New files carry Added status (and no old numbers).
    let created = ToolDiff {
        path: "/w/new.txt".into(),
        old_text: None,
        new_text: "only\n".into(),
    };
    let Some(ToolDetail::Diff { file, old_text, new_text }) =
        tool_detail(None, Some(&created), None)
    else {
        panic!("expected diff detail");
    };
    assert_eq!(file.status, FileStatus::Added);
    assert!(old_text.is_none());
    assert_eq!(new_text.as_deref(), Some("only\n"));

    // Output: verbatim lines (indentation intact), counted-tail cap.
    let output = (0..40).map(|i| format!("    indented {i}")).collect::<Vec<_>>().join("\n");
    let Some(ToolDetail::Output { lines, truncated_by }) = tool_detail(Some(&output), None, None)
    else {
        panic!("expected output detail");
    };
    assert_eq!(lines.len(), OUTPUT_DETAIL_MAX_LINES);
    assert_eq!(truncated_by, 40 - OUTPUT_DETAIL_MAX_LINES);
    assert_eq!(lines[0], "    indented 0");

    // Nothing → no affordance.
    assert!(tool_detail(None, None, None).is_none());
    assert!(tool_detail(Some("\n\n"), None, None).is_none());
}

fn unknown(name: &str, input: Option<&str>) -> ToolCall {
    ToolCall::Unknown {
        name: name.into(),
        input: input.map(|i| serde_json::from_str(i).unwrap()),
    }
}

#[test]
fn subagent_tab_titles() {
    assert_eq!(subagent_tab_title(&unknown("Agent: scan repo", None)), "scan repo");
    let bare = unknown(
        "Task",
        Some(
            "{\"description\": \"Agent: audit the auth flow\", \"prompt\": \"very long instructions…\"}",
        ),
    );
    assert_eq!(subagent_tab_title(&bare), "audit the auth flow");
    assert_eq!(subagent_tab_title(&unknown("Taskmaster", None)), "Taskmaster");
    assert_eq!(subagent_tab_title(&unknown("agent", None)), "Subagent");
    let title = subagent_tab_title(&unknown(&"x".repeat(120), None));
    assert_eq!(title.chars().count(), SUBAGENT_TITLE_MAX + 1);
    assert!(title.ends_with('…'));
    assert_eq!(subagent_tab_title(&ToolCall::Exec { command: "ls".into() }), "Subagent");
}

fn lines_of(detail: Option<ToolDetail>) -> (Vec<String>, usize) {
    match detail {
        Some(ToolDetail::Output { lines, truncated_by }) => (lines, truncated_by),
        _ => panic!("expected an output block"),
    }
}

#[test]
fn call_block_carries_the_full_invocation() {
    // Multi-line command: verbatim lines, not the flattened chip line.
    let (lines, truncated_by) =
        lines_of(call_block(&ToolCall::Exec { command: "set -e\ncargo test".into() }));
    assert_eq!(truncated_by, 0);
    assert_eq!(lines, vec!["set -e", "cargo test"]);

    // A long single-line command soft-wraps instead of ellipsizing.
    let (lines, _) =
        lines_of(call_block(&ToolCall::Exec { command: "x".repeat(CALL_WRAP_COLS * 2 + 10) }));
    assert_eq!(lines.len(), 3);
    assert!(lines.iter().all(|l| l.chars().count() <= CALL_WRAP_COLS));

    // MCP input pretty-prints under the `server · tool` line.
    let (lines, _) = lines_of(call_block(&ToolCall::Mcp {
        server: "gh".into(),
        tool: "issues".into(),
        input: Some(serde_json::from_str("{\"repo\": \"zeron\"}").unwrap()),
    }));
    assert_eq!(lines[0], "gh · issues");
    assert!(lines.iter().any(|l| l.contains("\"repo\": \"zeron\"")));

    // Todos list one item per line with checkbox state.
    let (lines, _) = lines_of(call_block(&ToolCall::Todo {
        items: vec![
            TodoItem { text: "a".into(), done: true },
            TodoItem { text: "b".into(), done: false },
        ],
    }));
    assert_eq!(lines, vec!["[x] a", "[ ] b"]);

    // Blank invocation → no block; the chip stays a plain card.
    assert!(call_block(&ToolCall::Exec { command: "  \n ".into() }).is_none());
}

#[test]
fn timestamp_strip_lands_on_the_last_settled_row() {
    let ms = chrono::DateTime::parse_from_rfc3339("2026-07-01T19:45:00Z")
        .unwrap()
        .timestamp_millis();
    assert_eq!(format_timestamp(ms, -4 * 3600), "Jul 1, 3:45 PM");

    // User entries carry the strip on their single row (pending too).
    let mut prompt = user("u1", "hi");
    prompt.created_at = ms;
    let rows = rows_of(&prompt, true);
    assert_eq!(rows.len(), 1);
    assert_eq!(rows[0].timestamp, Some(ms));

    // Assistant entries: strip on the LAST row once settled…
    let done = assistant("a1", MessageStatus::Complete, vec![text_part("p1", "one\n\ntwo")]);
    let rows = rows_of(&done, false);
    assert!(rows.len() >= 2);
    assert_eq!(rows.last().unwrap().timestamp, Some(done.created_at));
    assert_eq!(rows.last().unwrap().copy_text.as_deref(), Some("one\n\ntwo"));
    assert!(rows[..rows.len() - 1].iter().all(|r| r.timestamp.is_none()));
    assert!(rows[..rows.len() - 1].iter().all(|r| r.copy_text.is_none()));

    // …but never mid-stream.
    let live = assistant("a2", MessageStatus::Streaming, vec![text_part("p1", "streaming…")]);
    let rows = rows_of(&live, false);
    assert!(rows.iter().all(|r| r.timestamp.is_none()));
    assert!(rows.iter().all(|r| r.copy_text.is_none()));
    // Every row knows its entry (the hover group).
    assert!(rows.iter().all(|r| r.entry_id == live.id));
}

#[test]
fn message_copy_keeps_authored_text_and_excludes_tool_traces() {
    let entry = assistant(
        "a-copy",
        MessageStatus::Complete,
        vec![
            text_part("p1", "First **paragraph**."),
            tool_part("tool", "printf hidden"),
            text_part("p2", "    indented code\n    stays indented"),
        ],
    );
    assert_eq!(
        assistant_copy_text(&entry).as_deref(),
        Some("First **paragraph**.\n\n    indented code\n    stays indented")
    );
}

#[test]
fn single_line_collapses_all_whitespace_runs() {
    assert_eq!(single_line("a\nb"), "a b");
    assert_eq!(single_line("  a\t\t b \r\n c  "), "a b c");
    assert_eq!(single_line("plain"), "plain");
    assert_eq!(single_line(""), "");
    assert_eq!(single_line("\n\n"), "");
}

#[test]
fn chips_height_is_analytic() {
    assert_eq!(chips_height(0), 0);
    assert_eq!(chips_height(1), CHIPS_TOP_PAD + CHIP_HEIGHT);
    assert_eq!(chips_height(3), CHIPS_TOP_PAD + 3 * CHIP_HEIGHT + 2 * CHIP_GAP);
}

#[test]
fn flavour_words_rotate_every_seven_seconds() {
    let seed = flavour_seed("chat-1");
    assert_eq!(flavour_word(seed, 0), flavour_word(seed, 6));
    assert_ne!(flavour_word(seed, 0), flavour_word(seed, 7));
    assert_eq!(flavour_word(seed, 3), flavour_word(seed, 3));
    assert_eq!(format_elapsed(59), "59s");
    assert_eq!(format_elapsed(92), "1m 32s");
    assert_eq!(format_elapsed(-5), "0s");
}

#[test]
fn sending_bridge_holds_until_the_turn_outdates_the_send() {
    let at = |s: &str| {
        let t = chrono::DateTime::parse_from_rfc3339(s).unwrap();
        Moment { secs: t.timestamp(), nanos: t.timestamp_subsec_nanos() }
    };
    let send = at("2026-08-13T10:00:00Z");
    let before = at("2026-08-13T09:58:30Z");
    let after = at("2026-08-13T10:00:02Z");
    assert!(sending_bridge(Some(send), Some(before)));
    assert!(sending_bridge(Some(send), None));
    assert!(!sending_bridge(Some(send), Some(after)));
    assert!(!sending_bridge(None, Some(before)));
    assert!(!sending_bridge(None, None));
}

#[test]
fn empty_text_parts_produce_no_rows() {
    let entry = assistant(
        "m9",
        MessageStatus::Streaming,
        vec![text_part("t0", ""), text_part("t1", "   ")],
    );
    assert!(rows_of(&entry, false).is_empty());
}
