//! Tool groups on screen: what each chip shows, how tall it is, and which of
//! its fetched contents it shows.
//!
//! Heights are whole pixels and follow from the contents alone, so a group can
//! be laid out without measuring.
use std::sync::Arc;

use vstd::hash_map::StringHashMap;
use vstd::prelude::*;

use crate::markdown::InlineRun;
use crate::tools::{SubagentStatus, ToolCall, ToolDetail, ToolItem};

verus! {

/// Height of a chip's row.
pub const CHIP_HEIGHT: u64 = 38;

/// Space between two chips.
pub const CHIP_GAP: u64 = 0;

/// Height of the card in it.
pub const CHIP_CARD_HEIGHT: u64 = 30;

/// Space above the first chip.
pub const CHIPS_TOP_PAD: u64 = 2;

/// Height of a line of an open detail.
pub const OUTPUT_LINE_HEIGHT: u64 = 18;

/// Space above and below those lines.
pub const OUTPUT_BODY_PAD: u64 = 12;

/// The line between a header and its detail.
pub const DETAIL_SEPARATOR: u64 = 1;

/// Height of the offer below a detail.
pub const BLOB_AFFORDANCE_HEIGHT: u64 = 24;

/// How long after a click a fold moves, in milliseconds.
pub const FOLD_TWEEN_WINDOW_MS: u64 = 400;

/// `n`, or the greatest number there is.
pub open spec fn whole(n: nat) -> u64 {
    if n <= u64::MAX {
        n as u64
    } else {
        u64::MAX
    }
}

fn plus(a: u64, b: u64) -> (r: u64)
    ensures
        r == whole(a as nat + b as nat),
{
    if a > u64::MAX - b {
        u64::MAX
    } else {
        a + b
    }
}

/// The height of `rows` lines with their padding.
pub open spec fn lines_px(rows: nat) -> nat {
    rows * OUTPUT_LINE_HEIGHT as nat + OUTPUT_BODY_PAD as nat
}

fn lines_height(rows: u64) -> (r: u64)
    ensures
        r == whole(lines_px(rows as nat)),
{
    let n: u128 = rows as u128 * 18 + 12;
    if n > u64::MAX as u128 {
        u64::MAX
    } else {
        n as u64
    }
}

/// The height of `count` chips without their details.
pub open spec fn chips_px(count: nat) -> nat {
    if count == 0 {
        0
    } else {
        CHIPS_TOP_PAD as nat + count * CHIP_HEIGHT as nat + (count - 1) as nat * CHIP_GAP as nat
    }
}

/// The height of `count` chips without their details.
pub fn chips_height(count: usize) -> (r: u64)
    ensures
        r == whole(chips_px(count as nat)),
{
    if count == 0 {
        return 0;
    }
    let n: u128 = count as u128 * 38 + 2;
    if n > u64::MAX as u128 {
        u64::MAX
    } else {
        n as u64
    }
}

/// One more row where lines were cut.
pub open spec fn shown_rows(lines: nat, truncated_by: usize) -> nat {
    if truncated_by > 0 {
        lines + 1
    } else {
        lines
    }
}

/// The height that an open detail adds, given the height of a diff's body.
pub open spec fn detail_px(detail: crate::tools::DetailView, diff_body: u64) -> nat {
    DETAIL_SEPARATOR as nat + match detail {
        crate::tools::DetailView::Output { lines, truncated_by } => lines_px(
            shown_rows(lines.len(), truncated_by),
        ),
        crate::tools::DetailView::Thought { lines, truncated_by } => lines_px(
            shown_rows(lines.len(), truncated_by),
        ),
        crate::tools::DetailView::Diff { .. } => diff_body as nat,
        crate::tools::DetailView::Stats { stats } => lines_px(stats.len()),
    }
}

fn rows_of(lines: usize, truncated_by: usize) -> (r: u64)
    ensures
        r == whole(shown_rows(lines as nat, truncated_by)),
{
    if truncated_by > 0 {
        plus(lines as u64, 1)
    } else {
        lines as u64
    }
}

/// The height that an open detail adds to its chip: a line, and its rows or the
/// body of its diff.
pub fn detail_height(detail: &ToolDetail, diff_body: u64) -> (r: u64)
    ensures
        r == whole(detail_px(detail@, diff_body)),
{
    let body: u64 = match detail {
        ToolDetail::Output { lines, truncated_by } => {
            assert(crate::text::texts(lines@).len() == lines@.len());
            lines_height(rows_of(lines.len(), *truncated_by))
        },
        ToolDetail::Thought { lines, truncated_by } => {
            assert(crate::markdown::line_views(lines@).len() == lines@.len());
            lines_height(rows_of(lines.len(), *truncated_by))
        },
        ToolDetail::Diff { .. } => diff_body,
        ToolDetail::Stats { stats } => {
            assert(crate::tools::stat_views(stats@).len() == stats@.len());
            lines_height(stats.len() as u64)
        },
    };
    plus(1, body)
}

// ---------------------------------------------------------------------------
// Summaries and labels
// ---------------------------------------------------------------------------

/// How many of the chips are thoughts.
pub open spec fn thoughts_in(tools: Seq<crate::tools::ItemView>) -> nat
    decreases tools.len(),
{
    if tools.len() == 0 {
        0
    } else {
        thoughts_in(tools.drop_last()) + if tools.last().is_thought {
            1nat
        } else {
            0nat
        }
    }
}

/// The summary of a group, given what is said of its tools: thoughts are named
/// before them, and a group of thoughts alone by its thoughts.
pub open spec fn summary_of(tools: Seq<crate::tools::ItemView>, shared: Seq<char>) -> Seq<char> {
    let thoughts = thoughts_in(tools);
    let base = if thoughts == tools.len() {
        Seq::empty()
    } else {
        shared
    };
    if thoughts == 0 {
        base
    } else if base.len() == 0 {
        if thoughts == 1 {
            "Thought process"@
        } else {
            "Thought "@ + crate::text::decimal(thoughts) + " times"@
        }
    } else if thoughts == 1 {
        "Thought · "@ + base
    } else {
        "Thought "@ + crate::text::decimal(thoughts) + " times · "@ + base
    }
}

/// The calls that a group's shared summary is about: its tools that are no
/// thoughts, each with whether it failed.
pub open spec fn plain_calls(tools: Seq<ToolItem>) -> Seq<(Arc<ToolCall>, bool)>
    decreases tools.len(),
{
    if tools.len() == 0 {
        Seq::empty()
    } else {
        let before = plain_calls(tools.drop_last());
        if tools.last().is_thought {
            before
        } else {
            before.push((tools.last().call, tools.last().is_error))
        }
    }
}

/// The calls that a group's shared summary is about.
pub fn summarized_calls(tools: &Vec<ToolItem>) -> (r: Vec<(Arc<ToolCall>, bool)>)
    ensures
        r@ == plain_calls(tools@),
{
    let mut r: Vec<(Arc<ToolCall>, bool)> = Vec::new();
    let mut i: usize = 0;
    assert(r@ =~= plain_calls(tools@.take(0)));
    while i < tools.len()
        invariant
            i <= tools@.len(),
            r@ == plain_calls(tools@.take(i as int)),
        decreases tools.len() - i,
    {
        assert(tools@.take(i + 1).drop_last() =~= tools@.take(i as int));
        assert(tools@.take(i + 1).last() == tools@[i as int]);
        if !tools[i].is_thought {
            r.push((tools[i].call.clone(), tools[i].is_error));
        }
        i = i + 1;
    }
    assert(tools@.take(i as int) =~= tools@);
    r
}

fn count_thoughts(tools: &Vec<ToolItem>) -> (r: usize)
    ensures
        r == thoughts_in(crate::tools::item_views(tools@)),
        r <= tools@.len(),
{
    let ghost views = crate::tools::item_views(tools@);
    let mut n: usize = 0;
    let mut i: usize = 0;
    while i < tools.len()
        invariant
            n <= i <= tools@.len(),
            views == crate::tools::item_views(tools@),
            n == thoughts_in(views.take(i as int)),
        decreases tools.len() - i,
    {
        assert(views.take(i + 1).drop_last() =~= views.take(i as int));
        assert(views.take(i + 1).last() == tools@[i as int]@);
        if tools[i].is_thought {
            n = n + 1;
        }
        i = i + 1;
    }
    assert(views.take(i as int) =~= views);
    n
}

/// The line that a folded group shows; `shared` is what every surface says of
/// its [`summarized_calls`].
pub fn tool_group_summary(tools: &Vec<ToolItem>, shared: &str) -> (r: String)
    ensures
        r@ == summary_of(crate::tools::item_views(tools@), shared@),
{
    let thoughts: usize = count_thoughts(tools);
    assert(crate::tools::item_views(tools@).len() == tools@.len());
    let bare = thoughts == tools.len() || shared.is_empty();
    assert(thoughts != tools.len() && shared@.len() == 0 ==> shared@ =~= Seq::empty());
    let mut s = String::new();
    if thoughts == 0 {
        if !bare {
            crate::text::push_text(&mut s, shared);
        }
        assert(s@ =~= summary_of(crate::tools::item_views(tools@), shared@));
        return s;
    }
    if bare && thoughts == 1 {
        return "Thought process".to_owned();
    }
    if thoughts == 1 {
        crate::text::push_text(&mut s, "Thought · ");
        crate::text::push_text(&mut s, shared);
    } else {
        crate::text::push_text(&mut s, "Thought ");
        crate::text::push_decimal(&mut s, thoughts as u64);
        if bare {
            crate::text::push_text(&mut s, " times");
        } else {
            crate::text::push_text(&mut s, " times · ");
            crate::text::push_text(&mut s, shared);
        }
    }
    assert(s@ =~= summary_of(crate::tools::item_views(tools@), shared@));
    s
}

/// That a chip is no thought.
pub open spec fn no_thought() -> spec_fn(ToolItem) -> bool {
    |t: ToolItem| !t.is_thought
}

/// The chips that are no thoughts, in their order.
pub open spec fn without_thoughts(tools: Seq<ToolItem>) -> Seq<ToolItem> {
    tools.filter(no_thought())
}

proof fn lemma_without_thoughts(tools: Seq<ToolItem>)
    ensures
        plain_calls(without_thoughts(tools)) == plain_calls(tools),
        thoughts_in(crate::tools::item_views(without_thoughts(tools))) == 0,
        without_thoughts(tools).len() + thoughts_in(crate::tools::item_views(tools))
            == tools.len(),
    decreases tools.len(),
{
    reveal(Seq::filter);
    let views = crate::tools::item_views(tools);
    let rest = without_thoughts(tools);
    if tools.len() > 0 {
        let init = tools.drop_last();
        let before = without_thoughts(init);
        lemma_without_thoughts(init);
        assert(views.drop_last() =~= crate::tools::item_views(init));
        assert(views.last() == tools.last()@);
        if tools.last().is_thought {
            assert(rest == before);
        } else {
            assert(rest == before.push(tools.last()));
            assert(rest.drop_last() =~= before);
            assert(crate::tools::item_views(rest).drop_last() =~= crate::tools::item_views(before));
            assert(crate::tools::item_views(rest).last() == tools.last()@);
        }
    } else {
        assert(rest =~= Seq::empty());
        assert(crate::tools::item_views(rest) =~= Seq::empty());
        assert(views =~= Seq::empty());
    }
}

/// A group with tools in it is summed up as its tools alone, with its thoughts
/// named before them; where the thoughts stand does not matter. The tools alone
/// are the same calls, so `shared`, what is said of those, is the same too.
pub proof fn law_thoughts_lead_the_summary(tools: Seq<ToolItem>, shared: Seq<char>)
    requires
        without_thoughts(tools).len() > 0,
        shared.len() > 0,
    ensures
        plain_calls(without_thoughts(tools)) == plain_calls(tools),
        ({
            let n = thoughts_in(crate::tools::item_views(tools));
            let alone = summary_of(crate::tools::item_views(without_thoughts(tools)), shared);
            summary_of(crate::tools::item_views(tools), shared) == if n == 0 {
                alone
            } else if n == 1 {
                "Thought · "@ + alone
            } else {
                "Thought "@ + crate::text::decimal(n) + " times · "@ + alone
            }
        }),
{
    lemma_without_thoughts(tools);
    let rest = without_thoughts(tools);
    assert(crate::tools::item_views(tools).len() == tools.len());
    assert(crate::tools::item_views(rest).len() == rest.len());
}

/// A size in bytes as text: bytes below one kilobyte, else kilobytes, rounded
/// up.
pub open spec fn kb_text(bytes: u64) -> Seq<char> {
    if bytes < 1024 {
        crate::text::decimal(bytes as nat) + " B"@
    } else {
        crate::text::decimal((bytes as nat + 1023) / 1024) + " KB"@
    }
}

/// A size in bytes as text.
pub fn format_kb(bytes: u64) -> (r: String)
    ensures
        r@ == kb_text(bytes),
{
    let mut s = String::new();
    if bytes < 1024 {
        crate::text::push_decimal(&mut s, bytes);
        crate::text::push_text(&mut s, " B");
    } else {
        let kb: u64 = if bytes % 1024 == 0 {
            bytes / 1024
        } else {
            bytes / 1024 + 1
        };
        assert(kb as nat == (bytes as nat + 1023) / 1024);
        crate::text::push_decimal(&mut s, kb);
        crate::text::push_text(&mut s, " KB");
    }
    s
}

/// The row under a detail whose lines were cut.
pub fn more_lines_label(truncated_by: usize) -> (r: String)
    ensures
        r@ == "… "@ + crate::text::decimal(truncated_by as nat) + " more lines"@,
{
    let mut s = "… ".to_owned();
    crate::text::push_decimal(&mut s, truncated_by as u64);
    crate::text::push_text(&mut s, " more lines");
    s
}

/// The counts of a stat row: what was added and what was deleted.
pub fn stat_labels(additions: u32, deletions: u32) -> (r: (String, String))
    ensures
        r.0@ == "+"@ + crate::text::decimal(additions as nat),
        r.1@ == "−"@ + crate::text::decimal(deletions as nat),
{
    let mut a = "+".to_owned();
    crate::text::push_decimal(&mut a, additions as u64);
    let mut d = "−".to_owned();
    crate::text::push_decimal(&mut d, deletions as u64);
    (a, d)
}

/// What a question's chip says: its header once it is answered.
pub fn input_chip_value(header: &str, resolved: bool) -> (r: String)
    ensures
        r@ == if resolved {
            header@
        } else {
            "Awaiting your answer…"@
        },
{
    if resolved {
        header.to_owned()
    } else {
        "Awaiting your answer…".to_owned()
    }
}

/// The glyph of a chip.
#[derive(Clone, Copy, PartialEq, Eq, Structural, Debug)]
pub enum ChipIcon {
    Command,
    Document,
    DocumentAdd,
    Pen,
    Magnifier,
    Folder,
    Globe,
    Checklist,
    Bot,
    Widget,
    Chat,
}

/// The glyph for a call.
pub open spec fn call_icon(call: crate::tools::CallView, spawn: bool) -> ChipIcon {
    match call {
        crate::tools::CallView::Exec { .. } => ChipIcon::Command,
        crate::tools::CallView::ReadFile { .. } => ChipIcon::Document,
        crate::tools::CallView::ApplyPatch { .. } => ChipIcon::Document,
        crate::tools::CallView::WriteFile { .. } => ChipIcon::DocumentAdd,
        crate::tools::CallView::EditFile { .. } => ChipIcon::Pen,
        crate::tools::CallView::Search { .. } => ChipIcon::Magnifier,
        crate::tools::CallView::Glob { .. } => ChipIcon::Folder,
        crate::tools::CallView::WebFetch { .. } => ChipIcon::Globe,
        crate::tools::CallView::WebSearch { .. } => ChipIcon::Globe,
        crate::tools::CallView::Todo { .. } => ChipIcon::Checklist,
        crate::tools::CallView::Mcp { .. } => if spawn {
            ChipIcon::Bot
        } else {
            ChipIcon::Widget
        },
        crate::tools::CallView::Unknown { .. } => if spawn {
            ChipIcon::Bot
        } else {
            ChipIcon::Widget
        },
    }
}

/// The glyph for a call.
pub fn tool_icon(call: &ToolCall, spawn: bool) -> (r: ChipIcon)
    ensures
        r == call_icon(call@, spawn),
{
    match call {
        ToolCall::Exec { .. } => ChipIcon::Command,
        ToolCall::ReadFile { .. } => ChipIcon::Document,
        ToolCall::ApplyPatch { .. } => ChipIcon::Document,
        ToolCall::WriteFile { .. } => ChipIcon::DocumentAdd,
        ToolCall::EditFile { .. } => ChipIcon::Pen,
        ToolCall::Search { .. } => ChipIcon::Magnifier,
        ToolCall::Glob { .. } => ChipIcon::Folder,
        ToolCall::WebFetch { .. } => ChipIcon::Globe,
        ToolCall::WebSearch { .. } => ChipIcon::Globe,
        ToolCall::Todo { .. } => ChipIcon::Checklist,
        ToolCall::Mcp { .. } => if spawn {
            ChipIcon::Bot
        } else {
            ChipIcon::Widget
        },
        ToolCall::Unknown { .. } => if spawn {
            ChipIcon::Bot
        } else {
            ChipIcon::Widget
        },
    }
}

/// The trailing tile of a chip's header.
#[derive(Clone, Copy, PartialEq, Eq, Structural, Debug)]
pub enum ChipTrail {
    /// The chip opens in place.
    Chevron { open: bool },
    /// The chip opens elsewhere.
    OpenArrow,
}

/// A chip's header row.
pub struct ChipHeader {
    pub icon: ChipIcon,
    pub label: String,
    pub detail: String,
    /// The model that its subagent runs on, where the call names one.
    pub model: Option<String>,
    /// Its subagent is at work.
    pub running: bool,
    /// It or its subagent failed.
    pub failed: bool,
}

/// Whether the chip's subagent is at work.
pub open spec fn is_running(t: crate::tools::ItemView) -> bool {
    t.subagent_ref is Some && t.subagent_status == Some(SubagentStatus::Running)
}

/// Whether the chip or its subagent failed.
pub open spec fn is_failed(t: crate::tools::ItemView) -> bool {
    t.is_error || (t.subagent_ref is Some && t.subagent_status == Some(SubagentStatus::Failed))
}

/// What a chip's header shows. A spawn chip shows where its subagent stands by
/// its spinner or its tint, never in words.
pub fn chip_header_row(tool: &ToolItem) -> (r: ChipHeader)
    ensures
        r.icon == if tool@.is_thought {
            ChipIcon::Chat
        } else {
            call_icon(tool@.call, tool@.facts.spawn)
        },
        r.label@ == if tool@.is_thought {
            crate::tools::thought_label()
        } else {
            tool@.facts.label
        },
        r.detail@ == if tool@.is_thought {
            Seq::<char>::empty()
        } else {
            tool@.facts.detail
        },
        crate::markdown::opt_text(r.model) == tool@.facts.model,
        r.running == is_running(tool@),
        r.failed == is_failed(tool@),
{
    let linked = tool.subagent_ref.is_some();
    let running = linked && match tool.subagent_status {
        Some(SubagentStatus::Running) => true,
        _ => false,
    };
    let lost = linked && match tool.subagent_status {
        Some(SubagentStatus::Failed) => true,
        _ => false,
    };
    let failed = tool.is_error || lost;
    let model = crate::markdown::copy_opt(&tool.facts.model);
    if tool.is_thought {
        ChipHeader {
            icon: ChipIcon::Chat,
            label: "Thought process".to_owned(),
            detail: String::new(),
            model,
            running,
            failed,
        }
    } else {
        ChipHeader {
            icon: tool_icon(&tool.call, crate::tools::is_agent_tool(tool)),
            label: tool.facts.label.clone(),
            detail: tool.facts.detail.clone(),
            model,
            running,
            failed,
        }
    }
}

/// A stretch of a thought's line: its length in bytes and its marks.
#[derive(Clone, Copy, PartialEq, Eq, Structural, Debug)]
pub struct TextRun {
    pub len: usize,
    pub bold: bool,
    pub italic: bool,
    pub code: bool,
    pub strikethrough: bool,
    pub link: bool,
}

/// The stretch that a run makes.
pub open spec fn text_run(r: crate::markdown::RunView) -> TextRun {
    TextRun {
        len: vstd::utf8::encode_utf8(r.text).len() as usize,
        bold: r.style.bold,
        italic: r.style.italic,
        code: r.style.code,
        strikethrough: r.style.strikethrough,
        link: r.style.link is Some,
    }
}

/// The text of a line of runs.
pub open spec fn runs_text(runs: Seq<crate::markdown::RunView>) -> Seq<char>
    decreases runs.len(),
{
    if runs.len() == 0 {
        Seq::empty()
    } else {
        runs_text(runs.drop_last()) + runs.last().text
    }
}

/// The stretches of a line of runs, the empty ones left out.
pub open spec fn text_runs(runs: Seq<crate::markdown::RunView>) -> Seq<TextRun>
    decreases runs.len(),
{
    if runs.len() == 0 {
        Seq::empty()
    } else if runs.last().text.len() == 0 {
        text_runs(runs.drop_last())
    } else {
        text_runs(runs.drop_last()).push(text_run(runs.last()))
    }
}

/// The text of a thought's line and the stretches that set it; nothing for a
/// line that shows nothing.
pub fn thought_line_text(line: &Vec<InlineRun>) -> (r: Option<(String, Vec<TextRun>)>)
    ensures
        ({
            let views = crate::markdown::run_views(line@);
            match r {
                Some((text, runs)) => text@ == runs_text(views) && runs@ == text_runs(views)
                    && !crate::text::is_blank(runs_text(views)),
                None => crate::text::is_blank(runs_text(views)),
            }
        }),
{
    let ghost views = crate::markdown::run_views(line@);
    let mut text = String::new();
    let mut runs: Vec<TextRun> = Vec::new();
    let mut i: usize = 0;
    assert(text@ =~= runs_text(views.take(0)));
    assert(runs@ =~= text_runs(views.take(0)));
    while i < line.len()
        invariant
            i <= line@.len(),
            views == crate::markdown::run_views(line@),
            text@ == runs_text(views.take(i as int)),
            runs@ == text_runs(views.take(i as int)),
        decreases line.len() - i,
    {
        assert(views.take(i + 1).drop_last() =~= views.take(i as int));
        assert(views.take(i + 1).last() == line@[i as int]@);
        let run = &line[i];
        if !run.text.as_str().is_empty() {
            runs.push(
                TextRun {
                    len: run.text.as_str().len(),
                    bold: run.style.bold,
                    italic: run.style.italic,
                    code: run.style.code,
                    strikethrough: run.style.strikethrough,
                    link: run.style.link.is_some(),
                },
            );
            crate::text::push_text(&mut text, run.text.as_str());
        } else {
            assert(text@ + run.text@ =~= text@);
        }
        i = i + 1;
    }
    assert(views.take(i as int) =~= views);
    if crate::text::blank(text.as_str()) {
        None
    } else {
        Some((text, runs))
    }
}

// ---------------------------------------------------------------------------
// Fetched contents
// ---------------------------------------------------------------------------

/// How a fetch stands.
pub enum BlobFetch {
    Loading,
    Failed,
    Ready(Arc<ToolDetail>),
}

/// What a [`BlobFetch`] holds.
#[verifier::ext_equal]
pub enum FetchView {
    Loading,
    Failed,
    Ready(crate::tools::DetailView),
}

impl View for BlobFetch {
    type V = FetchView;

    open spec fn view(&self) -> FetchView {
        match self {
            BlobFetch::Loading => FetchView::Loading,
            BlobFetch::Failed => FetchView::Failed,
            BlobFetch::Ready(d) => FetchView::Ready(d@),
        }
    }
}

/// The fetches, by key, and in which order they were last asked for.
pub struct BlobStore {
    fetches: StringHashMap<BlobFetch>,
    order: StringHashMap<u64>,
    counter: u64,
}

/// What a [`BlobStore`] holds.
#[verifier::ext_equal]
pub struct StoreView {
    pub fetches: Map<Seq<char>, FetchView>,
    pub order: Map<Seq<char>, u64>,
    pub counter: u64,
}

impl View for BlobStore {
    type V = StoreView;

    closed spec fn view(&self) -> StoreView {
        StoreView {
            fetches: self.fetches@.map_values(|f: BlobFetch| f@),
            order: self.order@,
            counter: self.counter,
        }
    }
}

impl StoreView {
    /// The contents of a key, where they were fetched.
    pub open spec fn ready(self, key: Seq<char>) -> Option<crate::tools::DetailView> {
        if self.fetches.contains_key(key) {
            match self.fetches[key] {
                FetchView::Ready(d) => Some(d),
                _ => None,
            }
        } else {
            None
        }
    }

    /// When a key was last asked for, zero for never.
    pub open spec fn rank(self, key: Seq<char>) -> u64 {
        if self.order.contains_key(key) {
            self.order[key]
        } else {
            0
        }
    }

    /// No key was asked for after the last one.
    pub open spec fn ranked(self) -> bool {
        forall|k: Seq<char>| #[trigger] self.rank(k) <= self.counter
    }

    /// After a key was asked for.
    pub open spec fn asked(self, key: Seq<char>) -> StoreView {
        let n = self.counter.wrapping_add(1);
        StoreView { order: self.order.insert(key, n), counter: n, ..self }
    }
}

/// The two keys of a chip that can be fetched, the diff's first.
pub open spec fn shown_blob(
    s: StoreView,
    t: crate::tools::ItemView,
) -> Option<(Seq<char>, crate::tools::DetailView)> {
    let diff = match t.diff_ref {
        Some(k) => match s.ready(k) {
            Some(d) => Some((k, d)),
            None => None,
        },
        None => None,
    };
    let output = match t.output_ref {
        Some(k) => match s.ready(k) {
            Some(d) => Some((k, d)),
            None => None,
        },
        None => None,
    };
    match (diff, output) {
        (Some(d), Some(o)) => if s.rank(o.0) > s.rank(d.0) {
            Some(o)
        } else {
            Some(d)
        },
        (Some(d), None) => Some(d),
        (None, o) => o,
    }
}

/// Whether the chip is a link to its subagent.
pub open spec fn links_out(t: crate::tools::ItemView) -> bool {
    t.facts.spawn && t.subagent_ref is Some
}

/// What a chip opens to: of what was fetched for it the one asked for last,
/// else what its message carries; a link opens to nothing.
pub open spec fn effective_detail(
    s: StoreView,
    t: crate::tools::ItemView,
) -> Option<crate::tools::DetailView> {
    if links_out(t) {
        None
    } else {
        match shown_blob(s, t) {
            Some((k, d)) => Some(d),
            None => t.detail,
        }
    }
}

/// The invocation block that a chip opens to.
pub open spec fn effective_invocation(t: crate::tools::ItemView) -> Option<crate::tools::DetailView> {
    if links_out(t) {
        None
    } else {
        t.invocation
    }
}

/// The offer for a key: nothing for what is shown already.
pub open spec fn offer_label(
    s: StoreView,
    key: Seq<char>,
    what: Seq<char>,
    bytes: Option<u64>,
    shown: Option<Seq<char>>,
) -> Option<Seq<char>> {
    if !s.fetches.contains_key(key) {
        match bytes {
            Some(b) => Some("Show full "@ + what + " ("@ + kb_text(b) + ")"@),
            None => Some("Show full "@ + what),
        }
    } else {
        match s.fetches[key] {
            FetchView::Ready(_) => if shown == Some(key) {
                None
            } else {
                Some("Show full "@ + what)
            },
            FetchView::Loading => Some("Loading full "@ + what + "…"@),
            FetchView::Failed => Some("Couldn't load full "@ + what + " — tap to retry"@),
        }
    }
}

/// The offer below a chip's detail, by its key and label: the diff first, then
/// the output.
pub open spec fn offer_of(s: StoreView, t: crate::tools::ItemView) -> Option<
    (Seq<char>, Seq<char>),
> {
    let shown = match shown_blob(s, t) {
        Some((k, d)) => Some(k),
        None => None,
    };
    let diff = match t.diff_ref {
        Some(k) => match offer_label(s, k, "diff"@, None, shown) {
            Some(l) => Some((k, l)),
            None => None,
        },
        None => None,
    };
    match (diff, t.output_ref) {
        (Some(d), _) => Some(d),
        (None, Some(k)) => match offer_label(s, k, "output"@, t.output_bytes, shown) {
            Some(l) => Some((k, l)),
            None => None,
        },
        (None, None) => None,
    }
}

/// What asking for a key comes to.
#[derive(Clone, Copy, PartialEq, Eq, Structural, Debug)]
pub enum FetchStep {
    /// It is there: only paint.
    Repaint,
    /// It is on its way.
    Wait,
    /// Fetch it; a diff or an output.
    Fetch { is_diff: bool },
}

/// Whether a key is a diff's.
pub open spec fn diff_key(key: Seq<char>) -> bool {
    let suffix = ".diff"@;
    key.len() >= suffix.len() && key.skip(key.len() - suffix.len()) == suffix
}

fn is_diff_key(key: &str) -> (r: bool)
    ensures
        r == diff_key(key@),
{
    let v = crate::text::chars_of(key);
    let w = crate::text::chars_of(".diff");
    if v.len() < w.len() {
        return false;
    }
    let from: usize = v.len() - w.len();
    let tail = crate::text::text_between(&v, from, v.len());
    assert(v@.subrange(from as int, v@.len() as int) =~= key@.skip(from as int));
    tail == ".diff".to_owned()
}

/// The key and label of an offer.
pub struct ChipAffordance {
    pub blob_ref: String,
    pub label: String,
}

/// What an optional offer holds.
pub open spec fn opt_offer(a: Option<ChipAffordance>) -> Option<(Seq<char>, Seq<char>)> {
    match a {
        Some(a) => Some((a.blob_ref@, a.label@)),
        None => None,
    }
}

impl BlobStore {
    /// Nothing fetched.
    pub fn new() -> (r: Self)
        ensures
            r@ == (StoreView { fetches: Map::empty(), order: Map::empty(), counter: 0 }),
    {
        let r = BlobStore {
            fetches: StringHashMap::new(),
            order: StringHashMap::new(),
            counter: 0,
        };
        assert(r@.fetches =~= Map::empty());
        r
    }

    /// Asks for a key. Asking for what is there shows it again; what failed is
    /// tried again.
    pub fn request(&mut self, key: &str) -> (r: FetchStep)
        ensures
            final(self)@ == old(self)@.asked(key@),
            r == if old(self)@.fetches.contains_key(key@) {
                match old(self)@.fetches[key@] {
                    FetchView::Ready(_) => FetchStep::Repaint,
                    FetchView::Loading => FetchStep::Wait,
                    FetchView::Failed => FetchStep::Fetch { is_diff: diff_key(key@) },
                }
            } else {
                FetchStep::Fetch { is_diff: diff_key(key@) }
            },
    {
        self.counter = self.counter.wrapping_add(1);
        self.order.insert(key.to_owned(), self.counter);
        match self.fetches.get(key) {
            Some(BlobFetch::Ready(_)) => FetchStep::Repaint,
            Some(BlobFetch::Loading) => FetchStep::Wait,
            _ => FetchStep::Fetch { is_diff: is_diff_key(key) },
        }
    }

    /// The fetch has started.
    pub fn start(&mut self, key: &str)
        ensures
            final(self)@ == (StoreView {
                fetches: old(self)@.fetches.insert(key@, FetchView::Loading),
                ..old(self)@
            }),
    {
        let ghost before = self@;
        self.fetches.insert(key.to_owned(), BlobFetch::Loading);
        assert(self@.fetches =~= before.fetches.insert(key@, FetchView::Loading));
    }

    /// The fetch has ended: with contents, or in failure.
    pub fn finish(&mut self, key: &str, detail: Option<ToolDetail>)
        ensures
            final(self)@ == (StoreView {
                fetches: old(self)@.fetches.insert(
                    key@,
                    match crate::tools::detail_view(detail) {
                        Some(d) => FetchView::Ready(d),
                        None => FetchView::Failed,
                    },
                ),
                ..old(self)@
            }),
    {
        let ghost before = self@;
        let ghost ended = match crate::tools::detail_view(detail) {
            Some(d) => FetchView::Ready(d),
            None => FetchView::Failed,
        };
        let fetch = match detail {
            Some(d) => BlobFetch::Ready(Arc::new(d)),
            None => BlobFetch::Failed,
        };
        self.fetches.insert(key.to_owned(), fetch);
        assert(self@.fetches =~= before.fetches.insert(key@, ended));
    }

    /// The contents of a key.
    fn contents(&self, key: &Option<String>) -> (r: Option<Arc<ToolDetail>>)
        ensures
            crate::tools::opt_detail(r) == match crate::markdown::opt_text(*key) {
                Some(k) => self@.ready(k),
                None => None,
            },
    {
        match key {
            Some(k) => match self.fetches.get(k.as_str()) {
                Some(BlobFetch::Ready(d)) => Some(d.clone()),
                _ => None,
            },
            None => None,
        }
    }

    fn last_asked(&self, key: &str) -> (r: u64)
        ensures
            r == self@.rank(key@),
    {
        match self.order.get(key) {
            Some(n) => *n,
            None => 0,
        }
    }

    /// Of what was fetched for a chip, the one asked for last.
    fn shown(&self, tool: &ToolItem) -> (r: Option<(String, Arc<ToolDetail>)>)
        ensures
            match r {
                Some((k, d)) => shown_blob(self@, tool@) == Some((k@, d@)),
                None => shown_blob(self@, tool@) is None,
            },
    {
        let diff = self.contents(&tool.diff_ref);
        let output = self.contents(&tool.output_ref);
        let newer = match (&tool.diff_ref, &tool.output_ref) {
            (Some(d), Some(o)) => self.last_asked(o.as_str()) > self.last_asked(d.as_str()),
            _ => false,
        };
        if let Some(o) = output {
            let take = match &diff {
                Some(_) => newer,
                None => true,
            };
            if take {
                if let Some(k) = &tool.output_ref {
                    return Some((k.clone(), o));
                }
            }
        }
        if let Some(d) = diff {
            if let Some(k) = &tool.diff_ref {
                return Some((k.clone(), d));
            }
        }
        None
    }

    /// What a chip opens to.
    pub fn detail_of(&self, tool: &ToolItem) -> (r: Option<Arc<ToolDetail>>)
        ensures
            crate::tools::opt_detail(r) == effective_detail(self@, tool@),
    {
        if crate::tools::is_spawn_link(tool) {
            return None;
        }
        match self.shown(tool) {
            Some((_, d)) => Some(d),
            None => match &tool.detail {
                Some(d) => Some(d.clone()),
                None => None,
            },
        }
    }

    fn label(&self, key: &String, what: &str, bytes: Option<u64>, shown: &Option<String>) -> (r:
        Option<String>)
        ensures
            crate::markdown::opt_text(r) == offer_label(
                self@,
                key@,
                what@,
                bytes,
                crate::markdown::opt_text(*shown),
            ),
    {
        let mut s = String::new();
        match self.fetches.get(key.as_str()) {
            None => {
                crate::text::push_text(&mut s, "Show full ");
                crate::text::push_text(&mut s, what);
                if let Some(b) = bytes {
                    let size = format_kb(b);
                    crate::text::push_text(&mut s, " (");
                    crate::text::push_text(&mut s, size.as_str());
                    crate::text::push_text(&mut s, ")");
                }
            },
            Some(BlobFetch::Ready(_)) => {
                let same = match shown {
                    Some(k) => *k == *key,
                    None => false,
                };
                if same {
                    return None;
                }
                crate::text::push_text(&mut s, "Show full ");
                crate::text::push_text(&mut s, what);
            },
            Some(BlobFetch::Loading) => {
                crate::text::push_text(&mut s, "Loading full ");
                crate::text::push_text(&mut s, what);
                crate::text::push_text(&mut s, "…");
            },
            Some(BlobFetch::Failed) => {
                crate::text::push_text(&mut s, "Couldn't load full ");
                crate::text::push_text(&mut s, what);
                crate::text::push_text(&mut s, " — tap to retry");
            },
        }
        assert(offer_label(
            self@,
            key@,
            what@,
            bytes,
            crate::markdown::opt_text(*shown),
        ) is Some);
        assert(s@ =~= offer_label(
            self@,
            key@,
            what@,
            bytes,
            crate::markdown::opt_text(*shown),
        )->0);
        Some(s)
    }

    /// The offer below a chip's detail.
    pub fn affordance(&self, tool: &ToolItem) -> (r: Option<ChipAffordance>)
        ensures
            opt_offer(r) == offer_of(self@, tool@),
    {
        let shown = match self.shown(tool) {
            Some((k, _)) => Some(k),
            None => None,
        };
        if let Some(k) = &tool.diff_ref {
            if let Some(label) = self.label(k, "diff", None, &shown) {
                return Some(ChipAffordance { blob_ref: k.clone(), label });
            }
        }
        if let Some(k) = &tool.output_ref {
            if let Some(label) = self.label(k, "output", tool.output_bytes, &shown) {
                return Some(ChipAffordance { blob_ref: k.clone(), label });
            }
        }
        None
    }

    /// Whether a key is on its way.
    pub fn is_loading(&self, key: &str) -> (r: bool)
        ensures
            r == (self@.fetches.contains_key(key@) && self@.fetches[key@] == FetchView::Loading),
    {
        match self.fetches.get(key) {
            Some(BlobFetch::Loading) => true,
            _ => false,
        }
    }
}

/// Asking for a key that is there makes the chip show it, as long as the
/// counter has not run through.
pub proof fn law_asked_last_is_shown(s: StoreView, t: crate::tools::ItemView, key: Seq<char>)
    requires
        t.diff_ref == Some(key) || t.output_ref == Some(key),
        s.ready(key) is Some,
        s.counter < u64::MAX,
        s.ranked(),
    ensures
        shown_blob(s.asked(key), t) == Some((key, s.ready(key)->0)),
        s.asked(key).ranked(),
{
    let a = s.asked(key);
    assert forall|k: Seq<char>| k != key implies a.rank(k) <= s.counter by {
        assert(a.rank(k) == s.rank(k));
    }
    assert(a.rank(key) == s.counter + 1);
    if let Some(d) = t.diff_ref {
        assert(s.rank(d) <= s.counter);
    }
    if let Some(o) = t.output_ref {
        assert(s.rank(o) <= s.counter);
    }
}

/// While a chip has contents that are not shown, it offers them, or something
/// before them.
pub proof fn law_hidden_contents_are_offered(
    s: StoreView,
    t: crate::tools::ItemView,
    key: Seq<char>,
)
    requires
        t.diff_ref == Some(key) || t.output_ref == Some(key),
        !(shown_blob(s, t) matches Some((k, d)) && k == key),
    ensures
        offer_of(s, t) is Some,
{
}

// ---------------------------------------------------------------------------
// Folds
// ---------------------------------------------------------------------------

/// A fold: what the user set it to, and the move that a click started.
#[derive(Clone, Copy, PartialEq, Eq, Structural, Debug)]
pub struct FoldState {
    /// What the user set; else the fold follows its rule.
    pub open: Option<bool>,
    /// Counts the clicks.
    pub epoch: u64,
    /// The height at the click.
    pub from: u64,
    /// When the click was, in milliseconds.
    pub toggled_at: Option<u64>,
}

/// A fold that was never touched.
pub open spec fn untouched() -> FoldState {
    FoldState { open: None, epoch: 0, from: 0, toggled_at: None }
}

impl Default for FoldState {
    fn default() -> (r: Self)
        ensures
            r == untouched(),
    {
        FoldState { open: None, epoch: 0, from: 0, toggled_at: None }
    }
}

/// Whether a fold is open, given its rule.
pub open spec fn fold_open(f: FoldState, rule: bool) -> bool {
    match f.open {
        Some(b) => b,
        None => rule,
    }
}

/// A click on a fold that is open or not by its rule: it turns, from the height
/// it has.
pub open spec fn toggled(
    f: FoldState,
    rule: bool,
    open_height: u64,
    closed_height: u64,
    now: u64,
) -> FoldState {
    FoldState {
        open: Some(!fold_open(f, rule)),
        epoch: f.epoch.wrapping_add(1),
        from: if fold_open(f, rule) {
            open_height
        } else {
            closed_height
        },
        toggled_at: Some(now),
    }
}

/// A fold that a click inside it moves: it stays as it is, from the height it
/// has.
pub open spec fn nudged(f: FoldState, height: u64, now: u64) -> FoldState {
    FoldState { epoch: f.epoch.wrapping_add(1), from: height, toggled_at: Some(now), ..f }
}

/// Whether a fold is moving: only shortly after a click.
pub open spec fn moving(f: FoldState, now: u64) -> bool {
    f.epoch > 0 && (f.toggled_at matches Some(at) && (now < at || now - at < FOLD_TWEEN_WINDOW_MS))
}

fn is_moving(f: FoldState, now: u64) -> (r: bool)
    ensures
        r == moving(f, now),
{
    f.epoch > 0 && match f.toggled_at {
        Some(at) => now < at || now - at < 400,
        None => false,
    }
}

fn is_open(f: FoldState, rule: bool) -> (r: bool)
    ensures
        r == fold_open(f, rule),
{
    match f.open {
        Some(b) => b,
        None => rule,
    }
}

fn toggle(f: FoldState, rule: bool, open_height: u64, closed_height: u64, now: u64) -> (r: FoldState)
    ensures
        r == toggled(f, rule, open_height, closed_height, now),
{
    let was = is_open(f, rule);
    FoldState {
        open: Some(!was),
        epoch: f.epoch.wrapping_add(1),
        from: if was {
            open_height
        } else {
            closed_height
        },
        toggled_at: Some(now),
    }
}

/// The folds of groups, by row, and of details, by chip.
pub struct Folds {
    groups: StringHashMap<FoldState>,
    details: StringHashMap<FoldState>,
}

/// What a [`Folds`] holds.
#[verifier::ext_equal]
pub struct FoldsView {
    pub groups: Map<Seq<char>, FoldState>,
    pub details: Map<Seq<char>, FoldState>,
}

impl View for Folds {
    type V = FoldsView;

    closed spec fn view(&self) -> FoldsView {
        FoldsView { groups: self.groups@, details: self.details@ }
    }
}

/// The fold of a key.
pub open spec fn fold_for(m: Map<Seq<char>, FoldState>, key: Seq<char>) -> FoldState {
    if m.contains_key(key) {
        m[key]
    } else {
        untouched()
    }
}

/// The key of a chip's detail fold: `{row}#d{chip}`.
pub open spec fn detail_key(row_id: Seq<char>, ix: nat) -> Seq<char> {
    row_id + "#d"@ + crate::text::decimal(ix)
}

fn make_detail_key(row_id: &str, ix: usize) -> (r: String)
    ensures
        r@ == detail_key(row_id@, ix as nat),
{
    let mut s = row_id.to_owned();
    crate::text::push_text(&mut s, "#d");
    crate::text::push_decimal(&mut s, ix as u64);
    s
}

impl Folds {
    /// Every fold untouched.
    pub fn new() -> (r: Self)
        ensures
            r@ == (FoldsView { groups: Map::empty(), details: Map::empty() }),
    {
        Folds { groups: StringHashMap::new(), details: StringHashMap::new() }
    }

    /// The fold of a group.
    pub fn group(&self, row_id: &str) -> (r: FoldState)
        ensures
            r == fold_for(self@.groups, row_id@),
    {
        match self.groups.get(row_id) {
            Some(f) => *f,
            None => FoldState::default(),
        }
    }

    /// The fold of a chip's detail.
    pub fn detail(&self, row_id: &str, ix: usize) -> (r: FoldState)
        ensures
            r == fold_for(self@.details, detail_key(row_id@, ix as nat)),
    {
        let key = make_detail_key(row_id, ix);
        match self.details.get(key.as_str()) {
            Some(f) => *f,
            None => FoldState::default(),
        }
    }

    /// A click on a group's header.
    pub fn toggle_fold(&mut self, row_id: &str, open_height: u64, auto_open: bool, now: u64)
        ensures
            final(self)@ == (FoldsView {
                groups: old(self)@.groups.insert(
                    row_id@,
                    toggled(fold_for(old(self)@.groups, row_id@), auto_open, open_height, 0, now),
                ),
                ..old(self)@
            }),
    {
        let f = toggle(self.group(row_id), auto_open, open_height, 0, now);
        self.groups.insert(row_id.to_owned(), f);
    }

    /// A click on a chip's header: its detail turns, from its rule where the user
    /// has not set it, and the group moves with it from the height that it had.
    /// By its rule a thought that streams is open and any other detail closed.
    pub fn toggle_detail(
        &mut self,
        row_id: &str,
        ix: usize,
        auto_open: bool,
        card_height: u64,
        group_height: u64,
        now: u64,
    )
        ensures
            final(self)@ == (FoldsView {
                details: old(self)@.details.insert(
                    detail_key(row_id@, ix as nat),
                    toggled(
                        fold_for(old(self)@.details, detail_key(row_id@, ix as nat)),
                        auto_open,
                        card_height,
                        CHIP_CARD_HEIGHT,
                        now,
                    ),
                ),
                groups: old(self)@.groups.insert(
                    row_id@,
                    nudged(fold_for(old(self)@.groups, row_id@), group_height, now),
                ),
            }),
    {
        let f = toggle(self.detail(row_id, ix), auto_open, card_height, CHIP_CARD_HEIGHT, now);
        let key = make_detail_key(row_id, ix);
        self.details.insert(key, f);
        let g = self.group(row_id);
        let moved = FoldState {
            open: g.open,
            epoch: g.epoch.wrapping_add(1),
            from: group_height,
            toggled_at: Some(now),
        };
        self.groups.insert(row_id.to_owned(), moved);
    }

    /// Another chat is shown: its groups are untouched.
    pub fn clear_groups(&mut self)
        ensures
            final(self)@ == (FoldsView { groups: Map::empty(), ..old(self)@ }),
    {
        self.groups.clear();
    }
}

/// Two clicks on a header, a group's or a chip's, leave it open or closed as it was.
pub proof fn law_fold_toggles_back(f: FoldState, rule: bool, a: u64, b: u64, t1: u64, t2: u64)
    ensures
        fold_open(toggled(toggled(f, rule, a, b, t1), rule, a, b, t2), rule) == fold_open(f, rule),
        fold_open(toggled(f, rule, a, b, t1), rule) != fold_open(f, rule),
{
}

/// What the user set outlasts a change of the rule.
pub proof fn law_user_fold_wins(f: FoldState, before: bool, after: bool, a: u64, b: u64, now: u64)
    ensures
        fold_open(toggled(f, before, a, b, now), after) == !fold_open(f, before),
{
}

// ---------------------------------------------------------------------------
// The layout of a group
// ---------------------------------------------------------------------------

/// What a chip is.
#[derive(Clone, Copy, PartialEq, Eq, Structural, Debug)]
pub enum ChipKind {
    /// A link to its subagent.
    Link,
    /// A header alone.
    Plain,
    /// A header over a detail that opens.
    Card,
}

/// A chip laid out.
pub struct ChipLayout {
    pub kind: ChipKind,
    pub trail: Option<ChipTrail>,
    pub detail: Option<Arc<ToolDetail>>,
    pub invocation: Option<Arc<ToolDetail>>,
    pub affordance: Option<ChipAffordance>,
    pub open: bool,
    pub moving: bool,
    /// The card's height when it is open.
    pub open_height: u64,
    /// The card's height as it is.
    pub height: u64,
}

/// What a [`ChipLayout`] holds.
#[verifier::ext_equal]
pub struct ChipView {
    pub kind: ChipKind,
    pub trail: Option<ChipTrail>,
    pub detail: Option<crate::tools::DetailView>,
    pub invocation: Option<crate::tools::DetailView>,
    pub affordance: Option<(Seq<char>, Seq<char>)>,
    pub open: bool,
    pub moving: bool,
    pub open_height: u64,
    pub height: u64,
}

impl View for ChipLayout {
    type V = ChipView;

    open spec fn view(&self) -> ChipView {
        ChipView {
            kind: self.kind,
            trail: self.trail,
            detail: crate::tools::opt_detail(self.detail),
            invocation: crate::tools::opt_detail(self.invocation),
            affordance: opt_offer(self.affordance),
            open: self.open,
            moving: self.moving,
            open_height: self.open_height,
            height: self.height,
        }
    }
}

/// The height of an optional detail.
pub open spec fn opt_px(d: Option<crate::tools::DetailView>, diff_body: u64) -> nat {
    match d {
        Some(d) => detail_px(d, diff_body),
        None => 0,
    }
}

/// The height that an open chip adds to its group: its invocation, its detail
/// and the offer below.
pub open spec fn body_px(s: StoreView, t: crate::tools::ItemView, diff_body: u64) -> nat {
    opt_px(effective_invocation(t), diff_body) + opt_px(effective_detail(s, t), diff_body)
        + if offer_of(s, t) is Some {
        BLOB_AFFORDANCE_HEIGHT as nat
    } else {
        0nat
    }
}

/// Whether a chip has anything to open.
pub open spec fn opens(s: StoreView, t: crate::tools::ItemView) -> bool {
    effective_detail(s, t) is Some || effective_invocation(t) is Some
}

/// Whether a chip is open by its rule: a thought that streams is.
pub open spec fn open_by_rule(t: crate::tools::ItemView) -> bool {
    t.is_thought && !t.resolved
}

/// Whether a chip is open as long as the user has not set it.
pub fn chip_rule(tool: &ToolItem) -> (r: bool)
    ensures
        r == open_by_rule(tool@),
{
    tool.is_thought && !tool.resolved
}

/// A chip laid out: a thought that streams is open by itself, any other chip
/// only by a click.
pub open spec fn chip_layout(
    s: StoreView,
    t: crate::tools::ItemView,
    fold: FoldState,
    diff_body: u64,
    now: u64,
) -> ChipView {
    let open = opens(s, t) && fold_open(fold, open_by_rule(t));
    let tall = whole(CHIP_CARD_HEIGHT as nat + body_px(s, t, diff_body));
    ChipView {
        kind: if links_out(t) {
            ChipKind::Link
        } else if opens(s, t) {
            ChipKind::Card
        } else {
            ChipKind::Plain
        },
        trail: if links_out(t) {
            Some(ChipTrail::OpenArrow)
        } else if opens(s, t) {
            Some(ChipTrail::Chevron { open })
        } else {
            None
        },
        detail: effective_detail(s, t),
        invocation: effective_invocation(t),
        affordance: offer_of(s, t),
        open,
        moving: opens(s, t) && moving(fold, now),
        open_height: tall,
        height: if open {
            tall
        } else {
            CHIP_CARD_HEIGHT
        },
    }
}

/// What the open chips add to their group.
pub open spec fn bodies_px(
    s: StoreView,
    folds: Map<Seq<char>, FoldState>,
    row_id: Seq<char>,
    tools: Seq<crate::tools::ItemView>,
    diff_bodies: Seq<u64>,
) -> nat
    decreases tools.len(),
{
    if tools.len() == 0 {
        0
    } else {
        let ix = (tools.len() - 1) as nat;
        let t = tools.last();
        let fold = fold_for(folds, detail_key(row_id, ix));
        bodies_px(s, folds, row_id, tools.drop_last(), diff_bodies) + if opens(s, t) && fold_open(
            fold,
            open_by_rule(t),
        ) {
            body_px(s, t, diff_bodies[ix as int])
        } else {
            0nat
        }
    }
}

/// A group laid out.
pub struct GroupLayout {
    /// It folds behind its summary.
    pub collapses: bool,
    pub open: bool,
    pub moving: bool,
    /// The height of its chips when it is open.
    pub open_height: u64,
    /// The height of its chips as it is.
    pub height: u64,
    pub chips: Vec<ChipLayout>,
}

/// What a sequence of chips holds.
pub open spec fn chip_views(s: Seq<ChipLayout>) -> Seq<ChipView> {
    Seq::new(s.len(), |i: int| s[i]@)
}

/// The chips of a group laid out.
pub open spec fn chips_layout(
    s: StoreView,
    folds: Map<Seq<char>, FoldState>,
    row_id: Seq<char>,
    tools: Seq<crate::tools::ItemView>,
    diff_bodies: Seq<u64>,
    now: u64,
) -> Seq<ChipView> {
    Seq::new(
        tools.len(),
        |i: int|
            chip_layout(
                s,
                tools[i],
                fold_for(folds, detail_key(row_id, i as nat)),
                diff_bodies[i],
                now,
            ),
    )
}

fn opt_height(d: &Option<Arc<ToolDetail>>, diff_body: u64) -> (r: u64)
    ensures
        r == whole(opt_px(crate::tools::opt_detail(*d), diff_body)),
{
    match d {
        Some(d) => detail_height(d, diff_body),
        None => 0,
    }
}

/// A chip laid out, and the height of its body.
fn lay_out_chip(store: &BlobStore, tool: &ToolItem, fold: FoldState, diff_body: u64, now: u64) -> (r:
    (ChipLayout, u64))
    ensures
        r.0@ == chip_layout(store@, tool@, fold, diff_body, now),
        r.1 == whole(body_px(store@, tool@, diff_body)),
{
    let link = crate::tools::is_spawn_link(tool);
    let detail = store.detail_of(tool);
    let invocation = if link {
        None
    } else {
        match &tool.invocation {
            Some(d) => Some(d.clone()),
            None => None,
        }
    };
    let affordance = store.affordance(tool);
    let opens = detail.is_some() || invocation.is_some();
    let open = opens && is_open(fold, chip_rule(tool));
    let offer: u64 = if affordance.is_some() {
        24
    } else {
        0
    };
    let body = plus(
        plus(opt_height(&invocation, diff_body), opt_height(&detail, diff_body)),
        offer,
    );
    let tall = plus(CHIP_CARD_HEIGHT, body);
    let kind = if link {
        ChipKind::Link
    } else if opens {
        ChipKind::Card
    } else {
        ChipKind::Plain
    };
    let trail = if link {
        Some(ChipTrail::OpenArrow)
    } else if opens {
        Some(ChipTrail::Chevron { open })
    } else {
        None
    };
    (
        ChipLayout {
            kind,
            trail,
            detail,
            invocation,
            affordance,
            open,
            moving: opens && is_moving(fold, now),
            open_height: tall,
            height: if open {
                tall
            } else {
                CHIP_CARD_HEIGHT
            },
        },
        body,
    )
}

/// Lays out a tool group. A group of spawn chips alone is always open; any
/// other is open by its rule or by a click. `diff_bodies` are the heights of
/// the chips' diffs.
pub fn group_layout(
    store: &BlobStore,
    folds: &Folds,
    row_id: &str,
    tools: &Vec<ToolItem>,
    auto_open: bool,
    diff_bodies: &Vec<u64>,
    now: u64,
) -> (r: GroupLayout)
    requires
        diff_bodies@.len() == tools@.len(),
    ensures
        ({
            let views = crate::tools::item_views(tools@);
            let fold = fold_for(folds@.groups, row_id@);
            &&& r.collapses == crate::tools::collapses(views)
            &&& r.open == (!r.collapses || fold_open(fold, auto_open))
            &&& r.moving == (r.collapses && moving(fold, now))
            &&& r.open_height == whole(
                chips_px(views.len()) + bodies_px(
                    store@,
                    folds@.details,
                    row_id@,
                    views,
                    diff_bodies@,
                ),
            )
            &&& r.height == if r.open {
                r.open_height
            } else {
                0
            }
            &&& chip_views(r.chips@) == chips_layout(
                store@,
                folds@.details,
                row_id@,
                views,
                diff_bodies@,
                now,
            )
        }),
{
    let ghost views = crate::tools::item_views(tools@);
    let ghost all = chips_layout(store@, folds@.details, row_id@, views, diff_bodies@, now);
    let collapses = crate::tools::tool_group_collapses(tools);
    let fold = folds.group(row_id);
    let open = !collapses || is_open(fold, auto_open);
    let mut bodies: u64 = 0;
    let mut chips: Vec<ChipLayout> = Vec::new();
    let mut i: usize = 0;
    assert(chip_views(chips@) =~= all.take(0));
    while i < tools.len()
        invariant
            i <= tools@.len(),
            diff_bodies@.len() == tools@.len(),
            views == crate::tools::item_views(tools@),
            all == chips_layout(store@, folds@.details, row_id@, views, diff_bodies@, now),
            chip_views(chips@) == all.take(i as int),
            bodies == whole(
                bodies_px(
                    store@,
                    folds@.details,
                    row_id@,
                    views.take(i as int),
                    diff_bodies@,
                ),
            ),
        decreases tools.len() - i,
    {
        assert(views.take(i + 1).drop_last() =~= views.take(i as int));
        assert(views.take(i + 1).last() == tools@[i as int]@);
        let (chip, body) = lay_out_chip(
            store,
            &tools[i],
            folds.detail(row_id, i),
            diff_bodies[i],
            now,
        );
        if chip.open {
            bodies = plus(bodies, body);
        }
        proof {
            assert(chip@ == all[i as int]);
            assert(chip_views(chips@.push(chip)) =~= chip_views(chips@).push(chip@));
            assert(all.take(i + 1) =~= all.take(i as int).push(chip@));
        }
        chips.push(chip);
        i = i + 1;
    }
    proof {
        assert(views.take(i as int) =~= views);
        assert(all.take(i as int) =~= all);
        assert(views.len() == tools@.len());
    }
    let open_height = plus(chips_height(tools.len()), bodies);
    GroupLayout {
        collapses,
        open,
        moving: collapses && is_moving(fold, now),
        open_height,
        height: if open {
            open_height
        } else {
            0
        },
        chips,
    }
}

/// A click on a chip that has something to open turns it, whether it was open by
/// its rule or by an earlier click.
pub proof fn law_a_click_turns_the_chip(
    s: StoreView,
    t: crate::tools::ItemView,
    fold: FoldState,
    diff_body: u64,
    card_height: u64,
    before: u64,
    now: u64,
    after: u64,
)
    requires
        opens(s, t),
    ensures
        ({
            let clicked = toggled(fold, open_by_rule(t), card_height, CHIP_CARD_HEIGHT, now);
            chip_layout(s, t, clicked, diff_body, after).open != chip_layout(
                s,
                t,
                fold,
                diff_body,
                before,
            ).open
        }),
{
}

/// A group whose chips are all closed is as tall as its chips alone.
pub proof fn law_closed_chips_add_nothing(
    s: StoreView,
    folds: Map<Seq<char>, FoldState>,
    row_id: Seq<char>,
    tools: Seq<crate::tools::ItemView>,
    diff_bodies: Seq<u64>,
    now: u64,
)
    requires
        forall|i: int|
            0 <= i < tools.len() ==> !(#[trigger] chips_layout(
                s,
                folds,
                row_id,
                tools,
                diff_bodies,
                now,
            )[i]).open,
    ensures
        bodies_px(s, folds, row_id, tools, diff_bodies) == 0,
    decreases tools.len(),
{
    if tools.len() > 0 {
        let init = tools.drop_last();
        let all = chips_layout(s, folds, row_id, tools, diff_bodies, now);
        let before = chips_layout(s, folds, row_id, init, diff_bodies, now);
        assert forall|i: int| 0 <= i < init.len() implies !(#[trigger] before[i]).open by {
            assert(before[i] == all[i]);
        }
        law_closed_chips_add_nothing(s, folds, row_id, init, diff_bodies, now);
        assert(!all[tools.len() - 1].open);
    }
}

/// A link to a subagent never opens in place, whatever was fetched for it.
pub proof fn law_links_do_not_open(
    s: StoreView,
    t: crate::tools::ItemView,
    fold: FoldState,
    diff_body: u64,
    now: u64,
)
    requires
        links_out(t),
    ensures
        !chip_layout(s, t, fold, diff_body, now).open,
        chip_layout(s, t, fold, diff_body, now).height == CHIP_CARD_HEIGHT,
{
}

/// What the shell is told by a transcript.
pub enum TranscriptEvent {
    /// Open a subagent's transcript as a tab; `frozen` says that it has ended.
    OpenSubagent { chat_id: String, doc_id: String, title: String, frozen: bool },
}

/// A click on a chip that links to its subagent; nothing for any other chip.
pub fn open_subagent(tool: &ToolItem, chat_id: &Option<String>) -> (r: Option<TranscriptEvent>)
    ensures
        match r {
            Some(TranscriptEvent::OpenSubagent { chat_id: chat, doc_id, title, frozen }) => {
                &&& links_out(tool@)
                &&& Some(doc_id@) == tool@.subagent_ref
                &&& chat@ == match crate::markdown::opt_text(*chat_id) {
                    Some(c) => c,
                    None => Seq::<char>::empty(),
                }
                &&& title@ == crate::titles::tab_title(tool@.call)
                &&& frozen == (tool@.subagent_status == Some(SubagentStatus::Done)
                    || tool@.subagent_status == Some(SubagentStatus::Failed))
            },
            None => !links_out(tool@),
        },
{
    if !crate::tools::is_spawn_link(tool) {
        return None;
    }
    match &tool.subagent_ref {
        Some(doc) => {
            let chat = match chat_id {
                Some(c) => c.clone(),
                None => String::new(),
            };
            let frozen = match tool.subagent_status {
                Some(SubagentStatus::Done) => true,
                Some(SubagentStatus::Failed) => true,
                _ => false,
            };
            Some(
                TranscriptEvent::OpenSubagent {
                    chat_id: chat,
                    doc_id: doc.clone(),
                    title: crate::titles::subagent_tab_title(&tool.call),
                    frozen,
                },
            )
        },
        None => None,
    }
}

} // verus!
