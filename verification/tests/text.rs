use std::sync::Arc;

use zeron_ui::diff::{
    diff_to_file, file_of_groups, truncate_file_lines, FileStatus, LineChange, LineKind, LineOp,
    ToolDiff,
};
use zeron_ui::fingerprint::{entry_fingerprint, tool_fingerprint};
use zeron_ui::hash::{fnv1a, fnv_range, hash_text};
use zeron_ui::json::{read_count, read_text, read_texts};
use zeron_ui::markdown::{Block, BlockTree, InlineRun, InlineStyle, TopBlock};
use zeron_ui::message::{
    MessagePart, MessageRole, MessageStatus, SessionMessageEntry, UserBody,
};
use zeron_ui::rows::{rows_for_entry, Row, RowKind};
use zeron_ui::text::{blank, lines_of, push_decimal, single_line, trimmed, white};
use zeron_ui::thoughts::{blank_line, check_tree, thought_lines};
use zeron_ui::titles::{strip_spawn_prefix, subagent_tab_title, title_line};
use zeron_ui::tools::{
    call_block, thought_item, CallFacts, SubagentStatus, ToolCall, ToolDetail, ToolItem,
    OUTPUT_DETAIL_MAX_LINES,
};
use zeron_ui::wrap::{finish_line, indent_run, wrap_cols, wrap_styled_runs, THOUGHT_WRAP_COLS};

fn run(text: &str) -> InlineRun {
    InlineRun { text: text.into(), style: InlineStyle::default() }
}

fn line_text(line: &[InlineRun]) -> String {
    line.iter().map(|r| r.text.as_str()).collect()
}

// ---- text ----

#[test]
fn lines_end_as_they_do_in_files() {
    assert_eq!(lines_of(""), Vec::<String>::new());
    assert_eq!(lines_of("a"), ["a"]);
    assert_eq!(lines_of("a\n"), ["a"]);
    assert_eq!(lines_of("a\r\nb\n\nc\r"), ["a", "b", "", "c\r"]);
    for s in ["", "a", "a\n", "\n", "a\r\nb\n\nc\r", "\r\n\r", "x\n\n"] {
        assert_eq!(lines_of(s), s.lines().collect::<Vec<_>>(), "{s:?}");
    }
}

#[test]
fn white_space_is_that_of_unicode() {
    for c in ['\u{9}', ' ', '\u{85}', '\u{a0}', '\u{1680}', '\u{2003}', '\u{2028}', '\u{3000}'] {
        assert!(white(c) && c.is_whitespace());
    }
    for c in ['a', '\u{200b}', '\u{feff}', '\u{8}', '0'] {
        assert!(!white(c) && !c.is_whitespace());
    }
    assert_eq!(trimmed("\u{3000} a b \n"), "a b");
    assert!(blank(" \u{2003}\n") && blank("") && !blank(" x "));
    assert_eq!(single_line("\u{a0}a\u{2028}b"), "a b");
}

#[test]
fn one_line_of_one_line_is_itself() {
    for s in ["  a\t\t b \r\n c  ", "", "plain", "\n"] {
        let once = single_line(s);
        assert_eq!(single_line(&once), once);
        assert_eq!(once, s.split_whitespace().collect::<Vec<_>>().join(" "));
    }
}

#[test]
fn numbers_are_written_in_decimal() {
    for n in [0, 7, 10, 1000, u64::MAX] {
        let mut s = String::from("n=");
        push_decimal(&mut s, n);
        assert_eq!(s, format!("n={n}"));
    }
}

// ---- wrapping ----

#[test]
fn a_long_line_is_cut_by_columns() {
    assert_eq!(wrap_cols("", 4), [""]);
    assert_eq!(wrap_cols("abcd", 4), ["abcd"]);
    assert_eq!(wrap_cols("abcdeé", 4), ["abcd", "eé"]);
    assert_eq!(wrap_cols("abcdeéghij", 3).concat(), "abcdeéghij");
}

#[test]
fn wrapped_lines_fit_and_keep_the_text() {
    let words = "the quick brown fox jumps over the lazy dog ".repeat(12);
    let mut out = Vec::new();
    wrap_styled_runs(&vec![run(&words)], 4, &mut out);
    assert!(out.len() > 3);
    for line in &out {
        assert!(line_text(line).chars().count() <= THOUGHT_WRAP_COLS);
        assert!(line_text(line).starts_with("    "));
    }
    let joined: Vec<String> = out.iter().map(|l| single_line(&line_text(l))).collect();
    assert_eq!(joined.join(" "), single_line(&words));
    // A word that no line holds is cut.
    let mut out = Vec::new();
    wrap_styled_runs(&vec![run(&"x".repeat(200))], 0, &mut out);
    assert_eq!(out.len(), 3);
    assert_eq!(out.iter().map(|l| line_text(l)).collect::<String>(), "x".repeat(200));
    // Glued runs stay together.
    let mut out = Vec::new();
    let bold = InlineRun {
        text: "bold".into(),
        style: InlineStyle { bold: true, ..InlineStyle::default() },
    };
    wrap_styled_runs(&vec![run(&format!("{} ", "y".repeat(90))), bold, run("tail")], 0, &mut out);
    assert_eq!(out.len(), 2);
    assert_eq!(line_text(&out[1]), "boldtail");
    assert_eq!(out[1].len(), 3, "the indent and two styles");
}

#[test]
fn wrapped_words_are_parted_by_one_space() {
    let mut out = Vec::new();
    wrap_styled_runs(&vec![run("  one\t two   three \n\n four\u{a0}five  ")], 0, &mut out);
    let lines: Vec<String> = out.iter().map(|l| line_text(l)).collect();
    assert_eq!(lines, ["one two three", "four five"]);
    // A break parts what a line would hold.
    let wrap = |text: &str| {
        let mut out = Vec::new();
        wrap_styled_runs(&vec![run(text)], 0, &mut out);
        out.iter().map(|l| line_text(l)).collect::<Vec<String>>()
    };
    let (a, b) = ("word ".repeat(40), "more ".repeat(25));
    assert_eq!(wrap(&format!("{a}\n{b}")), [wrap(&a), wrap(&b)].concat());
}

#[test]
fn an_indent_is_a_run_of_its_own() {
    assert_eq!(indent_run(0).len(), 1);
    assert_eq!(line_text(&indent_run(0)), "");
    assert_eq!(line_text(&indent_run(3)), "   ");
    assert_eq!(line_text(&finish_line(2, vec![run("a")])), "  a");
}

fn top(block: Block) -> TopBlock {
    TopBlock { block, range: 0..0 }
}

#[test]
fn thoughts_flatten_every_block() {
    let para = |t: &str| Block::Paragraph { runs: vec![run(t)] };
    let tree = BlockTree {
        blocks: vec![
            top(Block::List {
                ordered_start: Some(9),
                items: vec![vec![para("nine")], vec![para("ten"), para("more")]],
            }),
            top(Block::BlockQuote { children: vec![para("said")] }),
            top(Block::Rule),
            top(Block::Table {
                header: vec![vec![run("h1")], vec![run("h2")]],
                rows: vec![vec![vec![run("a")], vec![run("b")]]],
            }),
        ],
    };
    assert!(check_tree(&tree));
    let lines = thought_lines(&tree);
    let flat: Vec<String> = lines.iter().map(|l| line_text(l)).collect();
    assert_eq!(flat[0], "9. nine");
    assert_eq!(flat[1], "10. ten");
    assert_eq!(
        flat[2..],
        ["    more", "", "│ said", "", "———", "", "h1 · h2", "a · b"]
    );
    assert!(blank_line(&vec![run(" ")]) && !blank_line(&vec![run("x")]));
    assert!(thought_lines(&BlockTree { blocks: Vec::new() }).is_empty());
}

#[test]
fn a_long_thought_is_cut() {
    let code = vec!["x"; 1000].join("\n");
    let tree =
        BlockTree { blocks: vec![top(Block::CodeBlock { language: None, code })] };
    let item = thought_item(&tree, false);
    assert!(item.is_thought && item.resolved);
    let Some(ToolDetail::Thought { lines, truncated_by }) = item.detail.as_deref() else {
        panic!("expected a thought");
    };
    assert_eq!(lines.len() + truncated_by, 1000);
    assert!(!thought_item(&tree, true).resolved);
}

// ---- diffs ----

fn diff(old: Option<&str>, new: &str) -> ToolDiff {
    ToolDiff { path: "a.rs".into(), old_text: old.map(|s| s.to_string()), new_text: new.into() }
}

#[test]
fn a_new_file_is_all_added() {
    let f = diff_to_file(&diff(None, "a\nb\n"));
    assert_eq!(f.status, FileStatus::Added);
    assert_eq!((f.additions, f.deletions, f.max_line), (2, 0, 2));
    assert_eq!(f.hunks.len(), 1);
    assert_eq!(f.hunks[0].header, "@@ -1,0 +1,2 @@");
    assert!(f.hunks[0].lines.iter().all(|l| l.kind == LineKind::Add && l.old_no.is_none()));
    let same = diff_to_file(&diff(Some("a\n"), "a\n"));
    assert_eq!(same.status, FileStatus::Modified);
    assert!(same.hunks.is_empty());
    assert_eq!((same.additions, same.deletions, same.max_line), (0, 0, 0));
}

#[test]
fn far_changes_stand_in_their_own_hunks() {
    let old: Vec<String> = (0..40).map(|i| format!("l{i}")).collect();
    let mut new = old.clone();
    new[2] = "x".into();
    new[30] = "y".into();
    let f = diff_to_file(&diff(Some(&old.join("\n")), &new.join("\n")));
    assert_eq!(f.hunks.len(), 2);
    assert_eq!(f.hunks[0].header, "@@ -1,6 +1,6 @@");
    assert_eq!(f.hunks[1].header, "@@ -28,7 +28,7 @@");
    assert_eq!((f.additions, f.deletions), (2, 2));
}

fn change(kind: LineKind, old: Option<usize>, new: Option<usize>, value: &str) -> LineChange {
    LineChange { kind, old_index: old, new_index: new, value: value.into() }
}

#[test]
fn a_file_is_counted_from_its_changes() {
    let group = vec![LineOp {
        old_range: 4..6,
        new_range: 4..5,
        changes: vec![
            change(LineKind::Context, Some(4), Some(4), "same\r\n"),
            change(LineKind::Del, Some(5), None, "gone\n"),
        ],
    }];
    let f = file_of_groups("p", false, &vec![group]);
    assert_eq!(f.path, "p");
    assert_eq!((f.additions, f.deletions, f.max_line), (0, 1, 6));
    assert_eq!(f.hunks[0].header, "@@ -5,2 +5,1 @@");
    assert_eq!(f.hunks[0].lines[0].text, "same\r");
    assert_eq!((f.hunks[0].lines[0].old_no, f.hunks[0].lines[0].new_no), (Some(5), Some(5)));
    assert_eq!(f.hunks[0].lines[1].text, "gone");
}

#[test]
fn a_cut_keeps_the_first_lines() {
    let new: Vec<String> = (0..10).map(|i| format!("l{i}")).collect();
    let f = diff_to_file(&diff(None, &new.join("\n")));
    let cut = truncate_file_lines(f, 4);
    let lines: Vec<&str> =
        cut.hunks.iter().flat_map(|h| h.lines.iter()).map(|l| l.text.as_str()).collect();
    assert_eq!(lines, ["l0", "l1", "l2", "l3"]);
    assert_eq!(cut.additions, 10, "the counts are those of the whole change");
    let whole = truncate_file_lines(diff_to_file(&diff(None, "a\n")), 4);
    assert_eq!(whole.hunks[0].lines.len(), 1);
}

// ---- titles, calls and values ----

#[test]
fn spawn_prefixes_are_dropped() {
    assert_eq!(strip_spawn_prefix("Agent: scan"), "scan");
    assert_eq!(strip_spawn_prefix("scan"), "scan");
    assert_eq!(title_line(" \n  a b \n c ", 10).as_deref(), Some("a b"));
    assert_eq!(title_line(" \n ", 10), None);
    assert_eq!(title_line("abcdef", 3).as_deref(), Some("abc…"));
    let input = serde_json::from_str("{\"description\": \"  \", \"prompt\": \"Do it\"}").unwrap();
    let call = ToolCall::Unknown { name: "Task".into(), input: Some(input) };
    assert_eq!(subagent_tab_title(&call), "Do it");
}

#[test]
fn values_are_read_by_their_keys() {
    let v = serde_json::from_str(
        "{\"s\": \"x\", \"n\": 7, \"neg\": -1, \"f\": 1.5, \"a\": [\"p\", 2, \"q\"]}",
    )
    .unwrap();
    assert_eq!(read_text(&v, "s").as_deref(), Some("x"));
    assert_eq!(read_text(&v, "n"), None);
    assert_eq!(read_text(&v, "none"), None);
    assert_eq!(read_count(&v, "n"), 7);
    assert_eq!((read_count(&v, "neg"), read_count(&v, "f"), read_count(&v, "none")), (0, 0, 0));
    assert_eq!(read_texts(&v, "a"), ["p", "q"]);
    assert!(read_texts(&v, "s").is_empty());
}

fn output_of(call: ToolCall) -> Vec<String> {
    match call_block(&call) {
        Some(ToolDetail::Output { lines, .. }) => lines,
        _ => panic!("expected a block"),
    }
}

#[test]
fn every_call_shows_its_invocation() {
    assert_eq!(output_of(ToolCall::ReadFile { path: "/a/b".into() }), ["/a/b"]);
    assert_eq!(
        output_of(ToolCall::WriteFile { path: "/a".into(), content: Some("x\ny".into()) })[0],
        "/a"
    );
    let search = output_of(ToolCall::Search { pattern: "foo".into(), path: Some("src".into()) });
    assert!(search.iter().any(|l| l.contains("foo")) && search.iter().any(|l| l.contains("src")));
    assert_eq!(output_of(ToolCall::WebSearch { query: "q".into() }), ["q"]);
    let input = serde_json::from_str("{\"b\": 1}").unwrap();
    let lines = output_of(ToolCall::Unknown { name: "Task".into(), input: Some(input) });
    assert!(lines.contains(&"  \"b\": 1".to_string()), "{lines:?}");
    let long = vec!["l"; OUTPUT_DETAIL_MAX_LINES * 40].join("\n");
    assert!(output_of(ToolCall::Exec { command: long }).len() < OUTPUT_DETAIL_MAX_LINES * 40);
}

// ---- fingerprints ----

#[test]
fn hashes_mix_every_byte() {
    assert_eq!(fnv1a(b""), 0xcbf29ce484222325);
    assert_eq!(fnv1a(b"a"), 0x1162bb908601ec8c);
    assert_eq!(fnv1a(b"foobar"), 0x3fefab5ef73967e8);
    assert_eq!(hash_text("foobar"), 0x3fefab5ef73967e8);
    assert_ne!(fnv1a(b"foobar"), fnv1a(b"fonbar"));
    assert_eq!(fnv_range(b"xfoobarx", 1, 7), 0x3fefab5ef73967e8);
}

fn item() -> ToolItem {
    ToolItem {
        call: Arc::new(ToolCall::Exec { command: "ls".into() }),
        facts: Arc::new(CallFacts {
            spawn: false,
            label: "Run".into(),
            detail: "ls".into(),
            model: None,
        }),
        is_error: false,
        resolved: false,
        detail: None,
        invocation: None,
        output_ref: None,
        output_bytes: None,
        diff_ref: None,
        subagent_ref: None,
        subagent_status: None,
        subagent_tail: None,
        is_thought: false,
    }
}

#[test]
fn a_changed_group_has_another_fingerprint() {
    let base = tool_fingerprint(&vec![item()], false);
    assert_eq!(base, tool_fingerprint(&vec![item()], false));
    let others = vec![
        tool_fingerprint(&vec![item()], true),
        tool_fingerprint(&vec![item(), item()], false),
        tool_fingerprint(&vec![ToolItem { resolved: true, ..item() }], false),
        tool_fingerprint(&vec![ToolItem { is_error: true, ..item() }], false),
        tool_fingerprint(
            &vec![ToolItem { subagent_status: Some(SubagentStatus::Done), ..item() }],
            false,
        ),
    ];
    for other in others {
        assert_ne!(base, other);
    }
    // Each mark of a chip in the midst of others.
    let group = |chip: ToolItem| tool_fingerprint(&vec![item(), chip, item()], true);
    let fetched = || Some("c/p".to_string());
    let marked = vec![
        item(),
        ToolItem { is_error: true, ..item() },
        ToolItem { resolved: true, ..item() },
        ToolItem { output_ref: fetched(), ..item() },
        ToolItem { diff_ref: fetched(), ..item() },
        ToolItem { subagent_ref: fetched(), ..item() },
        ToolItem { subagent_status: Some(SubagentStatus::Running), ..item() },
        ToolItem { subagent_status: Some(SubagentStatus::Done), ..item() },
        ToolItem { subagent_status: Some(SubagentStatus::Failed), ..item() },
    ];
    let mut prints: Vec<u64> = marked.into_iter().map(group).collect();
    prints.sort();
    prints.dedup();
    assert_eq!(prints.len(), 9);
    // An output of the same size keeps it.
    let shown = |line: &str| {
        let lines = vec![line.to_string()];
        let detail = Some(Arc::new(ToolDetail::Output { lines, truncated_by: 0 }));
        tool_fingerprint(&vec![ToolItem { detail, ..item() }], false)
    };
    assert_eq!(shown("abc"), shown("xyz"));
    assert_ne!(shown("abc"), shown("abcd"));
}

fn entry(status: MessageStatus, parts: Vec<MessagePart>) -> SessionMessageEntry {
    SessionMessageEntry {
        id: "m".into(),
        role: MessageRole::Assistant,
        parts,
        created_at: 1,
        device_id: "d".into(),
        status: Some(status),
        continuation_of: None,
    }
}

fn text_part(text: &str) -> MessagePart {
    MessagePart::Text { id: "t0".into(), text: text.into() }
}

#[test]
fn a_changed_entry_has_another_fingerprint() {
    let e = entry(MessageStatus::Streaming, vec![text_part("ab")]);
    let base = entry_fingerprint(&e, false, &vec![2]);
    assert_eq!(base, entry_fingerprint(&e, false, &vec![2]));
    assert_ne!(base, entry_fingerprint(&e, true, &vec![2]));
    assert_ne!(base, entry_fingerprint(&e, false, &vec![3]));
    let done = entry(MessageStatus::Complete, vec![text_part("ab")]);
    assert_ne!(base, entry_fingerprint(&done, false, &vec![2]));
    let tool = |is_error: bool, resolved: bool, status: Option<SubagentStatus>| {
        let part = MessagePart::Tool {
            id: "x".into(),
            call: item().call,
            facts: item().facts,
            is_error,
            resolved,
            output: None,
            diff: None,
            output_ref: None,
            output_bytes: None,
            diff_ref: None,
            diff_stats: None,
            subagent_ref: Some("doc".into()),
            subagent_status: status,
            subagent_tail: Some("words".into()),
        };
        let parts = vec![text_part("a"), part, text_part("b")];
        entry_fingerprint(&entry(MessageStatus::Complete, parts), false, &vec![1, 9, 1])
    };
    let mut prints = vec![
        tool(false, true, None),
        tool(false, true, Some(SubagentStatus::Running)),
        tool(false, true, Some(SubagentStatus::Done)),
        tool(false, true, Some(SubagentStatus::Failed)),
        tool(true, true, None),
        tool(false, false, None),
    ];
    prints.sort();
    prints.dedup();
    assert_eq!(prints.len(), 6);
    let asked = |resolved: bool| {
        let part = MessagePart::Input { id: "q".into(), questions: Vec::new(), resolved };
        entry_fingerprint(&entry(MessageStatus::Complete, vec![part]), false, &vec![3])
    };
    assert_ne!(asked(false), asked(true));
}

// ---- laws of rows ----

fn no_body() -> UserBody {
    UserBody {
        text: String::new(),
        mentions: Arc::new(Vec::new()),
        attachments: Arc::new(Vec::new()),
        badges: Arc::new(Vec::new()),
    }
}

fn two_blocks(a: &str, b: &str) -> (String, Arc<BlockTree>) {
    let text = format!("{a}\n\n{b}");
    let para = |t: &str| Block::Paragraph { runs: vec![run(t)] };
    let blocks = vec![
        TopBlock { block: para(a), range: 0..a.len() },
        TopBlock { block: para(b), range: a.len() + 2..text.len() },
    ];
    (text, Arc::new(BlockTree { blocks }))
}

fn built(status: MessageStatus, a: &str, b: &str) -> Vec<Row> {
    let (text, tree) = two_blocks(a, b);
    rows_for_entry(&entry(status, vec![text_part(&text)]), false, &no_body(), &vec![tree])
}

#[test]
fn settling_keeps_ids_and_unchanged_blocks_keep_versions() {
    let live = built(MessageStatus::Streaming, "one", "two");
    let grown = built(MessageStatus::Streaming, "one", "two more");
    let done = built(MessageStatus::Complete, "one", "two");
    assert_eq!(live.len(), 2);
    assert_eq!(live[0].version, grown[0].version);
    assert_ne!(live[1].version, grown[1].version);
    for (l, d) in live.iter().zip(&done) {
        assert_eq!(l.id, d.id);
        assert_ne!(l.version, d.version);
    }
    assert!(matches!(done[1].kind, RowKind::Markdown { block_ix: 1, .. }));
    assert!(done.iter().all(|r| r.entry_id == "m"));
    assert_eq!(done[1].timestamp, Some(1));
}
