use std::sync::Arc;

use zeron_ui::chips::{
    chip_header_row, chip_rule, detail_height, format_kb, group_layout, input_chip_value, more_lines_label,
    open_subagent, stat_labels, summarized_calls, thought_line_text, tool_group_summary,
    tool_icon, BlobStore, ChipIcon, ChipKind, ChipTrail, FetchStep, FoldState, Folds,
    TranscriptEvent, CHIP_CARD_HEIGHT,
};
use zeron_ui::diff::{diff_to_file, ToolDiff};
use zeron_ui::markdown::{InlineRun, InlineStyle};
use zeron_ui::tools::{
    diff_blob_detail, output_blob_detail, tool_detail, CallFacts, SubagentStatus, ToolCall,
    ToolDetail, ToolDiffStat, ToolItem, FULL_OUTPUT_MAX_LINES,
};

fn facts(spawn: bool) -> Arc<CallFacts> {
    Arc::new(CallFacts { spawn, label: "Run".into(), detail: "ls".into(), model: None })
}

fn item(command: &str) -> ToolItem {
    ToolItem {
        call: Arc::new(ToolCall::Exec { command: command.into() }),
        facts: facts(false),
        is_error: false,
        resolved: true,
        detail: None,
        invocation: None,
        output_ref: None,
        output_bytes: None,
        diff_ref: None,
        subagent_ref: None,
        subagent_status: None,
        subagent_tail: None,
        is_thought: false,
    }
}

fn thought(resolved: bool) -> ToolItem {
    ToolItem {
        is_thought: true,
        resolved,
        detail: Some(Arc::new(ToolDetail::Thought { lines: vec![Vec::new()], truncated_by: 0 })),
        ..item("")
    }
}

fn output(lines: usize, truncated_by: usize) -> ToolDetail {
    ToolDetail::Output { lines: vec!["x".to_string(); lines], truncated_by }
}

#[test]
fn a_detail_is_as_tall_as_its_lines() {
    assert_eq!(detail_height(&output(3, 0), 0), 1 + 3 * 18 + 12);
    assert_eq!(detail_height(&output(3, 5), 0), 1 + 4 * 18 + 12);
    let stats = ToolDetail::Stats {
        stats: vec![ToolDiffStat { path: "a".into(), additions: 1, deletions: 2 }],
    };
    assert_eq!(detail_height(&stats, 0), 1 + 18 + 12);
    let diff = ToolDiff { path: "a".into(), old_text: None, new_text: "x\n".into() };
    let detail = ToolDetail::Diff { file: diff_to_file(&diff), old_text: None, new_text: None };
    assert_eq!(detail_height(&detail, 77), 78);
}

#[test]
fn sizes_round_up_to_kilobytes() {
    assert_eq!(format_kb(0), "0 B");
    assert_eq!(format_kb(1023), "1023 B");
    assert_eq!(format_kb(1024), "1 KB");
    assert_eq!(format_kb(1025), "2 KB");
    assert_eq!(format_kb(u64::MAX), "18014398509481984 KB");
}

#[test]
fn labels_say_their_numbers() {
    assert_eq!(more_lines_label(12), "… 12 more lines");
    assert_eq!(stat_labels(3, 4), ("+3".to_string(), "−4".to_string()));
    assert_eq!(input_chip_value("Pick one", true), "Pick one");
    assert_eq!(input_chip_value("Pick one", false), "Awaiting your answer…");
}

#[test]
fn thoughts_are_named_before_the_tools() {
    let tools = vec![thought(true), item("ls"), ToolItem { is_error: true, ..item("pwd") }];
    assert_eq!(tool_group_summary(&tools, "Ran 2 commands"), "Thought · Ran 2 commands");
    let calls = summarized_calls(&tools);
    assert_eq!(calls.len(), 2);
    assert!(matches!(&*calls[0].0, ToolCall::Exec { command } if command == "ls"));
    assert!(!calls[0].1 && calls[1].1);
    let tools = vec![item("ls"), thought(true), item("pwd"), thought(false)];
    assert_eq!(
        tool_group_summary(&tools, "Ran 2 commands"),
        "Thought 2 times · Ran 2 commands"
    );
    assert_eq!(summarized_calls(&tools).len(), 2);
    let tools = vec![item("ls")];
    assert_eq!(tool_group_summary(&tools, "Ran a command"), "Ran a command");
    let tools = vec![thought(true), thought(true)];
    assert_eq!(tool_group_summary(&tools, "ignored"), "Thought 2 times");
}

#[test]
fn every_call_has_its_icon() {
    let path = || "p".to_string();
    let cases = [
        (ToolCall::Exec { command: path() }, ChipIcon::Command),
        (ToolCall::ReadFile { path: path() }, ChipIcon::Document),
        (ToolCall::WriteFile { path: path(), content: None }, ChipIcon::DocumentAdd),
        (ToolCall::EditFile { path: path() }, ChipIcon::Pen),
        (ToolCall::ApplyPatch { path: None }, ChipIcon::Document),
        (ToolCall::Search { pattern: path(), path: None }, ChipIcon::Magnifier),
        (ToolCall::Glob { pattern: path() }, ChipIcon::Folder),
        (ToolCall::WebFetch { url: path(), prompt: None }, ChipIcon::Globe),
        (ToolCall::WebSearch { query: path() }, ChipIcon::Globe),
        (ToolCall::Todo { items: Vec::new() }, ChipIcon::Checklist),
    ];
    for (call, icon) in cases {
        assert_eq!(tool_icon(&call, false), icon);
    }
    let unknown = ToolCall::Unknown { name: "Task".into(), input: None };
    assert_eq!(tool_icon(&unknown, true), ChipIcon::Bot);
    assert_eq!(tool_icon(&unknown, false), ChipIcon::Widget);
}

#[test]
fn a_header_shows_what_its_call_is() {
    let h = chip_header_row(&ToolItem { resolved: false, ..item("ls") });
    assert_eq!((h.label.as_str(), h.detail.as_str()), ("Run", "ls"));
    assert!(!h.running && !h.failed);
    let h = chip_header_row(&thought(true));
    assert_eq!((h.label.as_str(), h.detail.as_str()), ("Thought process", ""));
    assert_eq!(h.icon, ChipIcon::Chat);
    let h = chip_header_row(&spawn_link());
    assert!(h.failed && !h.running);
    let running = ToolItem { subagent_status: Some(SubagentStatus::Running), ..spawn_link() };
    assert!(chip_header_row(&running).running);
    let h = chip_header_row(&ToolItem { is_error: true, ..item("ls") });
    assert!(h.failed && !h.running);
}

fn run(text: &str, bold: bool) -> InlineRun {
    InlineRun { text: text.into(), style: InlineStyle { bold, ..InlineStyle::default() } }
}

#[test]
fn a_line_of_thought_keeps_its_runs() {
    let line = vec![run("añb", true), run("", false), run(" c", false)];
    let (text, runs) = thought_line_text(&line).expect("a line");
    assert_eq!(text, "añb c");
    assert_eq!(runs.iter().map(|r| (r.len, r.bold)).collect::<Vec<_>>(), [(4, true), (2, false)]);
    assert!(thought_line_text(&vec![run("  ", false)]).is_none());
}

// ---- fetched contents ----

fn both_refs() -> ToolItem {
    ToolItem {
        output_ref: Some("c/p".into()),
        output_bytes: Some(2048),
        diff_ref: Some("c/p.diff".into()),
        detail: Some(Arc::new(output(1, 0))),
        ..item("ls")
    }
}

fn shown_lines(store: &BlobStore, tool: &ToolItem) -> usize {
    match store.detail_of(tool).as_deref() {
        Some(ToolDetail::Output { lines, .. }) => lines.len(),
        _ => panic!("expected an output"),
    }
}

#[test]
fn the_contents_asked_for_last_are_shown() {
    let tool = both_refs();
    let mut store = BlobStore::new();
    assert_eq!(shown_lines(&store, &tool), 1);
    assert_eq!(store.affordance(&tool).unwrap().label, "Show full diff");
    assert_eq!(store.request("c/p.diff"), FetchStep::Fetch { is_diff: true });
    store.start("c/p.diff");
    assert!(store.is_loading("c/p.diff"));
    assert_eq!(store.request("c/p.diff"), FetchStep::Wait);
    assert_eq!(store.affordance(&tool).unwrap().label, "Loading full diff…");
    store.finish("c/p.diff", Some(output(5, 0)));
    assert_eq!(shown_lines(&store, &tool), 5);
    // The other one is offered, with its size.
    let offer = store.affordance(&tool).unwrap();
    assert_eq!((offer.blob_ref.as_str(), offer.label.as_str()), ("c/p", "Show full output (2 KB)"));
    assert_eq!(store.request("c/p"), FetchStep::Fetch { is_diff: false });
    store.start("c/p");
    store.finish("c/p", Some(output(9, 0)));
    assert_eq!(shown_lines(&store, &tool), 9);
    assert_eq!(store.affordance(&tool).unwrap().label, "Show full diff");
    // Asking again for what is there only shows it.
    assert_eq!(store.request("c/p.diff"), FetchStep::Repaint);
    assert_eq!(shown_lines(&store, &tool), 5);
}

#[test]
fn a_failed_fetch_can_be_tried_again() {
    let tool = ToolItem { diff_ref: None, ..both_refs() };
    let mut store = BlobStore::new();
    store.request("c/p");
    store.start("c/p");
    store.finish("c/p", None);
    assert!(!store.is_loading("c/p"));
    assert_eq!(
        store.affordance(&tool).unwrap().label,
        "Couldn't load full output — tap to retry"
    );
    assert_eq!(shown_lines(&store, &tool), 1);
    assert_eq!(store.request("c/p"), FetchStep::Fetch { is_diff: false });
}

#[test]
fn full_contents_are_cut_late() {
    let text = vec!["line"; FULL_OUTPUT_MAX_LINES + 7].join("\n");
    let Some(ToolDetail::Output { lines, truncated_by }) = output_blob_detail(&text) else {
        panic!("expected an output");
    };
    assert_eq!((lines.len(), truncated_by), (FULL_OUTPUT_MAX_LINES, 7));
    assert!(output_blob_detail("\n \n").is_none());
    let diff = ToolDiff { path: "a".into(), old_text: Some("x\n".into()), new_text: "y\n".into() };
    assert!(matches!(diff_blob_detail(&diff), Some(ToolDetail::Diff { .. })));
    let stats = vec![ToolDiffStat { path: "a".into(), additions: 1, deletions: 0 }];
    assert!(matches!(tool_detail(None, None, Some(&stats)), Some(ToolDetail::Stats { .. })));
    assert!(tool_detail(None, None, Some(&Vec::new())).is_none());
}

// ---- folds and layout ----

#[test]
fn two_clicks_put_a_fold_back() {
    let mut folds = Folds::new();
    assert_eq!(folds.group("r"), FoldState::default());
    folds.toggle_fold("r", 100, true, 10);
    let f = folds.group("r");
    assert_eq!((f.open, f.epoch, f.from, f.toggled_at), (Some(false), 1, 100, Some(10)));
    folds.toggle_fold("r", 100, true, 20);
    let f = folds.group("r");
    assert_eq!((f.open, f.epoch, f.from, f.toggled_at), (Some(true), 2, 0, Some(20)));
    assert_eq!(folds.group("other"), FoldState::default());
}

#[test]
fn a_detail_moves_its_group_along() {
    let mut folds = Folds::new();
    folds.toggle_detail("r", 1, false, 200, 300, 10);
    let d = folds.detail("r", 1);
    assert_eq!((d.open, d.from), (Some(true), CHIP_CARD_HEIGHT));
    assert_eq!(folds.detail("r", 0), FoldState::default());
    let g = folds.group("r");
    assert_eq!((g.open, g.epoch, g.from), (None, 1, 300));
    folds.toggle_detail("r", 1, false, 200, 400, 20);
    assert_eq!(folds.detail("r", 1).open, Some(false));
    assert_eq!(folds.detail("r", 1).from, 200);
    folds.clear_groups();
    assert_eq!(folds.group("r"), FoldState::default());
    assert_eq!(folds.detail("r", 1).epoch, 2);
}

#[test]
fn a_group_is_as_tall_as_its_open_chips() {
    let store = BlobStore::new();
    let mut folds = Folds::new();
    let tools = vec![
        item("plain"),
        ToolItem { detail: Some(Arc::new(output(2, 0))), ..item("card") },
    ];
    let bodies = vec![0, 0];
    let g = group_layout(&store, &folds, "r", &tools, false, &bodies, 0);
    assert!(g.collapses && !g.open && !g.moving);
    assert_eq!((g.open_height, g.height), (2 + 2 * 38, 0));
    assert_eq!(g.chips[0].kind, ChipKind::Plain);
    assert!(g.chips[0].trail.is_none());
    assert_eq!(g.chips[1].kind, ChipKind::Card);
    assert_eq!(g.chips[1].trail, Some(ChipTrail::Chevron { open: false }));
    assert_eq!(g.chips[1].height, CHIP_CARD_HEIGHT);

    folds.toggle_fold("r", g.open_height, false, 1000);
    folds.toggle_detail("r", 1, false, g.chips[1].open_height, g.open_height, 1000);
    let g = group_layout(&store, &folds, "r", &tools, false, &bodies, 1399);
    let body = 1 + 2 * 18 + 12;
    assert!(g.open && g.moving && g.chips[1].moving && g.chips[1].open);
    assert_eq!(g.height, 2 + 2 * 38 + body);
    assert_eq!(g.chips[1].height, CHIP_CARD_HEIGHT + body);
    let g = group_layout(&store, &folds, "r", &tools, false, &bodies, 1400);
    assert!(!g.moving && !g.chips[1].moving);
}

#[test]
fn a_streaming_thought_is_open_by_itself() {
    let store = BlobStore::new();
    let folds = Folds::new();
    let open = group_layout(&store, &folds, "r", &vec![thought(false)], true, &vec![0], 0);
    assert!(open.open && open.chips[0].open);
    let settled = group_layout(&store, &folds, "r", &vec![thought(true)], false, &vec![0], 0);
    assert!(!settled.open && !settled.chips[0].open);
    assert!(chip_rule(&thought(false)) && !chip_rule(&thought(true)) && !chip_rule(&item("ls")));
}

#[test]
fn a_click_closes_a_streaming_thought() {
    let store = BlobStore::new();
    let mut folds = Folds::new();
    let tools = vec![thought(false)];
    let tall = group_layout(&store, &folds, "r", &tools, true, &vec![0], 0).chips[0].open_height;
    let open = |folds: &Folds| {
        group_layout(&store, folds, "r", &tools, true, &vec![0], 0).chips[0].open
    };
    assert!(open(&folds));
    folds.toggle_detail("r", 0, chip_rule(&tools[0]), tall, 500, 10);
    assert!(!open(&folds), "the first click closes it");
    let f = folds.detail("r", 0);
    assert_eq!((f.open, f.from), (Some(false), tall));
    folds.toggle_detail("r", 0, chip_rule(&tools[0]), tall, 500, 20);
    assert!(open(&folds));
    assert_eq!(folds.detail("r", 0).from, CHIP_CARD_HEIGHT);
}

fn spawn_link() -> ToolItem {
    ToolItem {
        call: Arc::new(ToolCall::Unknown { name: "Agent: scan repo".into(), input: None }),
        facts: facts(true),
        subagent_ref: Some("doc".into()),
        subagent_status: Some(SubagentStatus::Failed),
        detail: Some(Arc::new(output(2, 0))),
        ..item("")
    }
}

#[test]
fn a_link_opens_elsewhere() {
    let store = BlobStore::new();
    let mut folds = Folds::new();
    folds.toggle_detail("r", 0, false, 0, 0, 0);
    let g = group_layout(&store, &folds, "r", &vec![spawn_link()], false, &vec![0], 0);
    assert!(!g.collapses && g.open);
    assert_eq!(g.chips[0].kind, ChipKind::Link);
    assert_eq!(g.chips[0].trail, Some(ChipTrail::OpenArrow));
    assert!(!g.chips[0].open);
    assert_eq!(g.chips[0].height, CHIP_CARD_HEIGHT);
    let TranscriptEvent::OpenSubagent { chat_id, doc_id, title, frozen } =
        open_subagent(&spawn_link(), &Some("chat".into())).expect("a link");
    assert_eq!((chat_id.as_str(), doc_id.as_str(), title.as_str()), ("chat", "doc", "scan repo"));
    assert!(frozen);
    let running = ToolItem { subagent_status: Some(SubagentStatus::Running), ..spawn_link() };
    let TranscriptEvent::OpenSubagent { chat_id, frozen, .. } =
        open_subagent(&running, &None).expect("a link");
    assert!(chat_id.is_empty() && !frozen);
    assert!(open_subagent(&item("ls"), &Some("chat".into())).is_none());
}
