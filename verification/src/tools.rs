//! Tool calls, the chips that show them, and what a chip opens to.
use std::sync::Arc;

use vstd::prelude::*;

use crate::diff::{FileDiff, ToolDiff};
use crate::markdown::{BlockTree, InlineRun};

verus! {

/// One entry of a todo list.
pub struct TodoItem {
    pub text: String,
    pub done: bool,
}

/// A tool invocation.
#[allow(inconsistent_fields)]
pub enum ToolCall {
    Exec { command: String },
    ReadFile { path: String },
    WriteFile { path: String, content: Option<String> },
    EditFile { path: String },
    ApplyPatch { path: Option<String> },
    Search { pattern: String, path: Option<String> },
    Glob { pattern: String },
    WebFetch { url: String, prompt: Option<String> },
    WebSearch { query: String },
    Todo { items: Vec<TodoItem> },
    Mcp { server: String, tool: String, input: Option<serde_json::Value> },
    Unknown { name: String, input: Option<serde_json::Value> },
}

/// What a [`TodoItem`] holds.
#[verifier::ext_equal]
pub struct TodoView {
    pub text: Seq<char>,
    pub done: bool,
}

impl View for TodoItem {
    type V = TodoView;

    open spec fn view(&self) -> TodoView {
        TodoView { text: self.text@, done: self.done }
    }
}

/// What a [`ToolCall`] holds.
#[allow(inconsistent_fields)]
#[verifier::ext_equal]
pub enum CallView {
    Exec { command: Seq<char> },
    ReadFile { path: Seq<char> },
    WriteFile { path: Seq<char>, content: Option<Seq<char>> },
    EditFile { path: Seq<char> },
    ApplyPatch { path: Option<Seq<char>> },
    Search { pattern: Seq<char>, path: Option<Seq<char>> },
    Glob { pattern: Seq<char> },
    WebFetch { url: Seq<char>, prompt: Option<Seq<char>> },
    WebSearch { query: Seq<char> },
    Todo { items: Seq<TodoView> },
    Mcp { server: Seq<char>, tool: Seq<char>, input: Option<serde_json::Value> },
    Unknown { name: Seq<char>, input: Option<serde_json::Value> },
}

impl View for ToolCall {
    type V = CallView;

    open spec fn view(&self) -> CallView {
        match self {
            ToolCall::Exec { command } => CallView::Exec { command: command@ },
            ToolCall::ReadFile { path } => CallView::ReadFile { path: path@ },
            ToolCall::WriteFile { path, content } => CallView::WriteFile {
                path: path@,
                content: crate::markdown::opt_text(*content),
            },
            ToolCall::EditFile { path } => CallView::EditFile { path: path@ },
            ToolCall::ApplyPatch { path } => CallView::ApplyPatch {
                path: crate::markdown::opt_text(*path),
            },
            ToolCall::Search { pattern, path } => CallView::Search {
                pattern: pattern@,
                path: crate::markdown::opt_text(*path),
            },
            ToolCall::Glob { pattern } => CallView::Glob { pattern: pattern@ },
            ToolCall::WebFetch { url, prompt } => CallView::WebFetch {
                url: url@,
                prompt: crate::markdown::opt_text(*prompt),
            },
            ToolCall::WebSearch { query } => CallView::WebSearch { query: query@ },
            ToolCall::Todo { items } => CallView::Todo {
                items: Seq::new(items@.len(), |i: int| items@[i]@),
            },
            ToolCall::Mcp { server, tool, input } => CallView::Mcp {
                server: server@,
                tool: tool@,
                input: *input,
            },
            ToolCall::Unknown { name, input } => CallView::Unknown { name: name@, input: *input },
        }
    }
}

/// What every surface shows alike of a call: whether it spawns a subagent and
/// on which model, and the label and the one-line detail of its chip.
pub struct CallFacts {
    pub spawn: bool,
    pub label: String,
    pub detail: String,
    pub model: Option<String>,
}

/// What a [`CallFacts`] holds.
#[verifier::ext_equal]
pub struct FactsView {
    pub spawn: bool,
    pub label: Seq<char>,
    pub detail: Seq<char>,
    pub model: Option<Seq<char>>,
}

impl View for CallFacts {
    type V = FactsView;

    open spec fn view(&self) -> FactsView {
        FactsView {
            spawn: self.spawn,
            label: self.label@,
            detail: self.detail@,
            model: crate::markdown::opt_text(self.model),
        }
    }
}

/// Lines added to and deleted from one file.
pub struct ToolDiffStat {
    pub path: String,
    pub additions: u32,
    pub deletions: u32,
}

/// What a [`ToolDiffStat`] holds.
#[verifier::ext_equal]
pub struct StatView {
    pub path: Seq<char>,
    pub additions: u32,
    pub deletions: u32,
}

impl View for ToolDiffStat {
    type V = StatView;

    open spec fn view(&self) -> StatView {
        StatView { path: self.path@, additions: self.additions, deletions: self.deletions }
    }
}

/// What a sequence of stats holds.
pub open spec fn stat_views(s: Seq<ToolDiffStat>) -> Seq<StatView> {
    Seq::new(s.len(), |i: int| s[i]@)
}

/// Where a subagent stands.
#[derive(Clone, Copy, PartialEq, Eq, Structural, Debug)]
pub enum SubagentStatus {
    Running,
    Done,
    Failed,
}

/// What a chip opens to.
#[allow(inconsistent_fields)]
pub enum ToolDetail {
    /// Verbatim lines, and how many more there were.
    Output { lines: Vec<String>, truncated_by: usize },
    /// A thought's styled lines, and how many more there were.
    Thought { lines: Vec<Vec<InlineRun>>, truncated_by: usize },
    /// A file's diff.
    Diff { file: FileDiff, old_text: Option<String>, new_text: Option<String> },
    /// Added and deleted lines per file.
    Stats { stats: Vec<ToolDiffStat> },
}

/// What a [`ToolDetail`] holds.
#[allow(inconsistent_fields)]
#[verifier::ext_equal]
pub enum DetailView {
    Output { lines: Seq<Seq<char>>, truncated_by: usize },
    Thought { lines: Seq<Seq<crate::markdown::RunView>>, truncated_by: usize },
    Diff {
        file: crate::diff::FileDiffView,
        old_text: Option<Seq<char>>,
        new_text: Option<Seq<char>>,
    },
    Stats { stats: Seq<StatView> },
}

impl View for ToolDetail {
    type V = DetailView;

    open spec fn view(&self) -> DetailView {
        match self {
            ToolDetail::Output { lines, truncated_by } => DetailView::Output {
                lines: crate::text::texts(lines@),
                truncated_by: *truncated_by,
            },
            ToolDetail::Thought { lines, truncated_by } => DetailView::Thought {
                lines: crate::markdown::line_views(lines@),
                truncated_by: *truncated_by,
            },
            ToolDetail::Diff { file, old_text, new_text } => DetailView::Diff {
                file: file@,
                old_text: crate::markdown::opt_text(*old_text),
                new_text: crate::markdown::opt_text(*new_text),
            },
            ToolDetail::Stats { stats } => DetailView::Stats { stats: stat_views(stats@) },
        }
    }
}

/// What an optional detail holds.
pub open spec fn opt_detail(d: Option<Arc<ToolDetail>>) -> Option<DetailView> {
    match d {
        Some(a) => Some(a@),
        None => None,
    }
}

/// One tool invocation inside a group row.
pub struct ToolItem {
    pub call: Arc<ToolCall>,
    pub facts: Arc<CallFacts>,
    pub is_error: bool,
    pub resolved: bool,
    /// What the chip opens to.
    pub detail: Option<Arc<ToolDetail>>,
    /// The complete invocation that the chip's header cuts to one line.
    pub invocation: Option<Arc<ToolDetail>>,
    /// Key of the full output.
    pub output_ref: Option<String>,
    pub output_bytes: Option<u64>,
    /// Key of the full diff.
    pub diff_ref: Option<String>,
    /// The document of the subagent that the call spawned.
    pub subagent_ref: Option<String>,
    pub subagent_status: Option<SubagentStatus>,
    pub subagent_tail: Option<String>,
    /// A thought riding the group as a chip.
    pub is_thought: bool,
}

/// What a [`ToolItem`] holds.
#[verifier::ext_equal]
pub struct ItemView {
    pub call: CallView,
    pub facts: FactsView,
    pub is_error: bool,
    pub resolved: bool,
    pub detail: Option<DetailView>,
    pub invocation: Option<DetailView>,
    pub output_ref: Option<Seq<char>>,
    pub output_bytes: Option<u64>,
    pub diff_ref: Option<Seq<char>>,
    pub subagent_ref: Option<Seq<char>>,
    pub subagent_status: Option<SubagentStatus>,
    pub subagent_tail: Option<Seq<char>>,
    pub is_thought: bool,
}

impl View for ToolItem {
    type V = ItemView;

    open spec fn view(&self) -> ItemView {
        ItemView {
            call: self.call@,
            facts: self.facts@,
            is_error: self.is_error,
            resolved: self.resolved,
            detail: opt_detail(self.detail),
            invocation: opt_detail(self.invocation),
            output_ref: crate::markdown::opt_text(self.output_ref),
            output_bytes: self.output_bytes,
            diff_ref: crate::markdown::opt_text(self.diff_ref),
            subagent_ref: crate::markdown::opt_text(self.subagent_ref),
            subagent_status: self.subagent_status,
            subagent_tail: crate::markdown::opt_text(self.subagent_tail),
            is_thought: self.is_thought,
        }
    }
}

/// What a sequence of items holds.
pub open spec fn item_views(s: Seq<ToolItem>) -> Seq<ItemView> {
    Seq::new(s.len(), |i: int| s[i]@)
}

/// Whether the call spawns a subagent. The call alone decides, not whether a
/// subagent's document is known.
pub fn is_agent_call(facts: &CallFacts) -> (r: bool)
    ensures
        r == facts@.spawn,
{
    facts.spawn
}

/// Whether the item's call spawns a subagent.
pub fn is_agent_tool(item: &ToolItem) -> (r: bool)
    ensures
        r == item@.facts.spawn,
{
    is_agent_call(&item.facts)
}

/// Whether the chip is a link to its subagent: a spawning call bound to its
/// document.
pub fn is_spawn_link(item: &ToolItem) -> (r: bool)
    ensures
        r == (item@.facts.spawn && item@.subagent_ref is Some),
{
    is_agent_call(&item.facts) && item.subagent_ref.is_some()
}

/// Whether a group folds behind a summary: it holds a tool that spawns no
/// subagent.
pub open spec fn collapses(tools: Seq<ItemView>) -> bool {
    exists|i: int| 0 <= i < tools.len() && !(#[trigger] tools[i]).facts.spawn
}

/// Whether the group folds behind a summary header. A group of spawn chips
/// alone is always open.
pub fn tool_group_collapses(tools: &Vec<ToolItem>) -> (r: bool)
    ensures
        r == collapses(item_views(tools@)),
{
    let ghost views = item_views(tools@);
    let mut i: usize = 0;
    while i < tools.len()
        invariant
            i <= tools@.len(),
            views == item_views(tools@),
            forall|j: int| 0 <= j < i ==> (#[trigger] views[j]).facts.spawn,
        decreases tools.len() - i,
    {
        if !is_agent_tool(&tools[i]) {
            assert(!views[i as int].facts.spawn);
            return true;
        }
        i = i + 1;
    }
    false
}

/// Most lines a chip shows of its output.
pub const OUTPUT_DETAIL_MAX_LINES: usize = 24;

/// Most lines a chip shows of a diff.
pub const DIFF_DETAIL_MAX_LINES: usize = 600;

/// Most lines a chip shows of a fetched full output.
pub const FULL_OUTPUT_MAX_LINES: usize = 400;

/// Columns at which an invocation line wraps.
pub const CALL_WRAP_COLS: usize = 80;

/// `lines` without the blank ones at the end.
pub open spec fn drop_blank_lines(lines: Seq<Seq<char>>) -> Seq<Seq<char>>
    decreases lines.len(),
{
    if lines.len() > 0 && crate::text::is_blank(lines.last()) {
        drop_blank_lines(lines.drop_last())
    } else {
        lines
    }
}

/// `lines` cut to the first `max`, with the cut ones counted.
pub open spec fn capped(lines: Seq<Seq<char>>, max: usize) -> DetailView {
    if lines.len() > max {
        DetailView::Output {
            lines: lines.take(max as int),
            truncated_by: (lines.len() - max) as usize,
        }
    } else {
        DetailView::Output { lines, truncated_by: 0 }
    }
}

/// The output block of `lines`: blank ones at the end dropped, at most `max`
/// shown, nothing where nothing is left.
pub open spec fn output_block(lines: Seq<Seq<char>>, max: usize) -> Option<DetailView> {
    let kept = drop_blank_lines(lines);
    if kept.len() == 0 {
        None
    } else {
        Some(capped(kept, max))
    }
}

/// The view of a detail that may be absent.
pub open spec fn detail_view(d: Option<ToolDetail>) -> Option<DetailView> {
    match d {
        Some(t) => Some(t@),
        None => None,
    }
}

/// Makes an output block of `lines`.
fn block_of_lines(lines: Vec<String>, max: usize) -> (r: Option<ToolDetail>)
    ensures
        detail_view(r) == output_block(crate::text::texts(lines@), max),
{
    let mut lines = lines;
    let ghost all = crate::text::texts(lines@);
    while lines.len() > 0 && crate::text::blank(lines[lines.len() - 1].as_str())
        invariant
            drop_blank_lines(crate::text::texts(lines@)) == drop_blank_lines(all),
        decreases lines.len(),
    {
        let ghost before = lines@;
        lines.pop();
        assert(crate::text::texts(lines@) =~= crate::text::texts(before).drop_last());
    }
    let ghost kept = crate::text::texts(lines@);
    assert(kept.len() == lines@.len());
    if lines.len() == 0 {
        return None;
    }
    if lines.len() > max {
        let truncated_by: usize = lines.len() - max;
        lines.truncate(max);
        assert(crate::text::texts(lines@) =~= kept.take(max as int));
        Some(ToolDetail::Output { lines, truncated_by })
    } else {
        Some(ToolDetail::Output { lines, truncated_by: 0 })
    }
}

/// A file's diff cut to what a chip shows, nothing where nothing changed.
pub open spec fn diff_detail(diff: ToolDiff) -> Option<DetailView> {
    let file = crate::diff::diff_file(diff);
    if file.hunks.len() == 0 {
        None
    } else {
        Some(
            DetailView::Diff {
                file: crate::diff::cut_file(file, DIFF_DETAIL_MAX_LINES as nat),
                old_text: crate::markdown::opt_text(diff.old_text),
                new_text: Some(diff.new_text@),
            },
        )
    }
}

/// What a tool part opens to. A diff wins over stats, and both over output.
pub open spec fn detail_of(
    output: Option<Seq<char>>,
    diff: Option<ToolDiff>,
    stats: Option<Seq<StatView>>,
) -> Option<DetailView> {
    match (diff, stats, output) {
        (Some(d), _, _) => diff_detail(d),
        (None, Some(s), _) if s.len() > 0 => Some(DetailView::Stats { stats: s }),
        (None, _, Some(text)) => output_block(crate::text::lines(text), OUTPUT_DETAIL_MAX_LINES),
        _ => None,
    }
}

/// A copy of `stats`.
fn copy_stats(stats: &Vec<ToolDiffStat>) -> (r: Vec<ToolDiffStat>)
    ensures
        stat_views(r@) == stat_views(stats@),
{
    let mut r: Vec<ToolDiffStat> = Vec::new();
    let mut i: usize = 0;
    while i < stats.len()
        invariant
            i <= stats@.len(),
            r@.len() == i,
            forall|j: int| 0 <= j < i ==> (#[trigger] r@[j])@ == stats@[j]@,
        decreases stats.len() - i,
    {
        let s = &stats[i];
        r.push(
            ToolDiffStat {
                path: s.path.clone(),
                additions: s.additions,
                deletions: s.deletions,
            },
        );
        i = i + 1;
    }
    assert(stat_views(r@) =~= stat_views(stats@));
    r
}

/// The text behind an optional borrowed string.
pub open spec fn opt_str(s: Option<&str>) -> Option<Seq<char>> {
    match s {
        Some(t) => Some(t@),
        None => None,
    }
}

/// The edit behind an optional reference.
pub open spec fn opt_diff(d: Option<&ToolDiff>) -> Option<ToolDiff> {
    match d {
        Some(t) => Some(*t),
        None => None,
    }
}

/// The stats behind an optional reference.
pub open spec fn opt_stats(s: Option<&Vec<ToolDiffStat>>) -> Option<Seq<StatView>> {
    match s {
        Some(v) => Some(stat_views(v@)),
        None => None,
    }
}

/// Builds what a tool part opens to.
pub fn tool_detail(
    output: Option<&str>,
    diff: Option<&ToolDiff>,
    diff_stats: Option<&Vec<ToolDiffStat>>,
) -> (r: Option<ToolDetail>)
    ensures
        detail_view(r) == detail_of(opt_str(output), opt_diff(diff), opt_stats(diff_stats)),
{
    if let Some(diff) = diff {
        let file = crate::diff::diff_to_file(diff);
        assert(file@.hunks.len() == file.hunks@.len());
        if file.hunks.len() == 0 {
            return None;
        }
        let file = crate::diff::truncate_file_lines(file, DIFF_DETAIL_MAX_LINES);
        return Some(
            ToolDetail::Diff {
                file,
                old_text: crate::markdown::copy_opt(&diff.old_text),
                new_text: Some(diff.new_text.clone()),
            },
        );
    }
    if let Some(stats) = diff_stats {
        if stats.len() > 0 {
            let copy = copy_stats(stats);
            return Some(ToolDetail::Stats { stats: copy });
        }
    }
    match output {
        Some(text) => block_of_lines(crate::text::lines_of(text), OUTPUT_DETAIL_MAX_LINES),
        None => None,
    }
}

/// What a fetched output blob upgrades a chip's detail to: its lines, capped
/// far above what the message itself carries.
pub fn output_blob_detail(text: &str) -> (r: Option<ToolDetail>)
    ensures
        detail_view(r) == output_block(crate::text::lines(text@), FULL_OUTPUT_MAX_LINES),
{
    block_of_lines(crate::text::lines_of(text), FULL_OUTPUT_MAX_LINES)
}

/// What a fetched diff blob upgrades a chip's detail to.
pub fn diff_blob_detail(diff: &ToolDiff) -> (r: Option<ToolDetail>)
    ensures
        detail_view(r) == diff_detail(*diff),
{
    tool_detail(None, Some(diff), None)
}

// ---------------------------------------------------------------------------
// The invocation block
// ---------------------------------------------------------------------------

/// A todo entry on its line.
pub open spec fn todo_line(item: TodoView) -> Seq<char> {
    (if item.done {
        "[x]"@
    } else {
        "[ ]"@
    }) + " "@ + item.text
}

/// The lines of a todo list.
pub open spec fn todo_lines(items: Seq<TodoView>) -> Seq<Seq<char>> {
    Seq::new(items.len(), |i: int| todo_line(items[i]))
}

/// `head`, and `tail` behind `sep` where there is one.
pub open spec fn with_tail(head: Seq<char>, sep: Seq<char>, tail: Option<Seq<char>>) -> Seq<char> {
    match tail {
        Some(t) => head + sep + t,
        None => head,
    }
}

/// The text of an optional JSON value.
pub open spec fn opt_pretty(v: Option<serde_json::Value>) -> Option<Seq<char>> {
    match v {
        Some(v) => Some(crate::json::pretty_text(v)),
        None => None,
    }
}

/// The complete invocation as text.
pub open spec fn call_text(call: CallView) -> Seq<char> {
    match call {
        CallView::Exec { command } => command,
        CallView::ReadFile { path } => path,
        CallView::WriteFile { path, content } => with_tail(path, "\n"@, content),
        CallView::EditFile { path } => path,
        CallView::ApplyPatch { path } => match path {
            Some(p) => p,
            None => "workspace"@,
        },
        CallView::Search { pattern, path } => with_tail(pattern, " in "@, path),
        CallView::Glob { pattern } => pattern,
        CallView::WebFetch { url, prompt } => with_tail(url, "\n"@, prompt),
        CallView::WebSearch { query } => query,
        CallView::Todo { items } => crate::text::join(todo_lines(items), "\n"@),
        CallView::Mcp { server, tool, input } => with_tail(
            server + " · "@ + tool,
            "\n"@,
            opt_pretty(input),
        ),
        CallView::Unknown { name, input } => with_tail(name, "\n"@, opt_pretty(input)),
    }
}

/// Each of `lines` cut at `cols`.
pub open spec fn cut_lines(lines: Seq<Seq<char>>, cols: nat) -> Seq<Seq<char>>
    decreases lines.len(),
{
    if lines.len() == 0 {
        Seq::empty()
    } else {
        cut_lines(lines.drop_last(), cols) + crate::wrap::cut_line(lines.last(), cols)
    }
}

/// The invocation block of a call.
pub open spec fn invocation_of(call: CallView) -> Option<DetailView> {
    output_block(
        cut_lines(crate::text::lines(call_text(call)), CALL_WRAP_COLS as nat),
        OUTPUT_DETAIL_MAX_LINES,
    )
}

/// `head`, and `tail` behind `sep` where there is one.
fn join_tail(head: &str, sep: &str, tail: &Option<String>) -> (r: String)
    ensures
        r@ == with_tail(head@, sep@, crate::markdown::opt_text(*tail)),
{
    let mut s = head.to_owned();
    if let Some(t) = tail {
        crate::text::push_text(&mut s, sep);
        crate::text::push_text(&mut s, t.as_str());
    }
    s
}

/// The text of an optional JSON value.
fn pretty_opt(v: &Option<serde_json::Value>) -> (r: Option<String>)
    ensures
        crate::markdown::opt_text(r) == opt_pretty(*v),
{
    match v {
        Some(v) => Some(crate::json::pretty(v)),
        None => None,
    }
}

/// The lines of a todo list, joined.
fn todo_text(items: &Vec<TodoItem>) -> (r: String)
    ensures
        r@ == crate::text::join(
            todo_lines(Seq::new(items@.len(), |i: int| items@[i]@)),
            "\n"@,
        ),
{
    let ghost views = Seq::new(items@.len(), |i: int| items@[i]@);
    let ghost lines = todo_lines(views);
    let mut s = String::new();
    let mut i: usize = 0;
    assert(lines.take(0) =~= Seq::empty());
    while i < items.len()
        invariant
            i <= items@.len(),
            views == Seq::new(items@.len(), |i: int| items@[i]@),
            lines == todo_lines(views),
            s@ == crate::text::join(lines.take(i as int), "\n"@),
        decreases items.len() - i,
    {
        let ghost before = s@;
        if i > 0 {
            crate::text::push_text(&mut s, "\n");
        }
        let box_text = if items[i].done {
            "[x]"
        } else {
            "[ ]"
        };
        crate::text::push_text(&mut s, box_text);
        crate::text::push_text(&mut s, " ");
        crate::text::push_text(&mut s, items[i].text.as_str());
        proof {
            assert(lines.take(i + 1).drop_last() =~= lines.take(i as int));
            assert(lines.take(i + 1).last() == todo_line(items@[i as int]@));
            assert(s@ =~= crate::text::join(lines.take(i + 1), "\n"@));
        }
        i = i + 1;
    }
    assert(lines.take(i as int) =~= lines);
    s
}

/// The complete invocation as text.
fn invocation_text(call: &ToolCall) -> (r: String)
    ensures
        r@ == call_text(call@),
{
    match call {
        ToolCall::Exec { command } => command.clone(),
        ToolCall::ReadFile { path } => path.clone(),
        ToolCall::WriteFile { path, content } => join_tail(path.as_str(), "\n", content),
        ToolCall::EditFile { path } => path.clone(),
        ToolCall::ApplyPatch { path } => match path {
            Some(p) => p.clone(),
            None => "workspace".to_owned(),
        },
        ToolCall::Search { pattern, path } => join_tail(pattern.as_str(), " in ", path),
        ToolCall::Glob { pattern } => pattern.clone(),
        ToolCall::WebFetch { url, prompt } => join_tail(url.as_str(), "\n", prompt),
        ToolCall::WebSearch { query } => query.clone(),
        ToolCall::Todo { items } => todo_text(items),
        ToolCall::Mcp { server, tool, input } => {
            let mut head = server.clone();
            crate::text::push_text(&mut head, " · ");
            crate::text::push_text(&mut head, tool.as_str());
            join_tail(head.as_str(), "\n", &pretty_opt(input))
        },
        ToolCall::Unknown { name, input } => join_tail(name.as_str(), "\n", &pretty_opt(input)),
    }
}

/// Builds the block that shows the complete call: the whole command, pattern
/// or URL, todo items one per line, JSON input pretty-printed.
pub fn call_block(call: &ToolCall) -> (r: Option<ToolDetail>)
    ensures
        detail_view(r) == invocation_of(call@),
{
    let text = invocation_text(call);
    let lines = crate::text::lines_of(text.as_str());
    let ghost all = crate::text::lines(text@);
    let ghost cols = CALL_WRAP_COLS as nat;
    let mut out: Vec<String> = Vec::new();
    let mut i: usize = 0;
    assert(crate::text::texts(out@) =~= cut_lines(all.take(0), cols));
    while i < lines.len()
        invariant
            i <= lines@.len(),
            crate::text::texts(lines@) == all,
            cols == CALL_WRAP_COLS,
            crate::text::texts(out@) == cut_lines(all.take(i as int), cols),
        decreases lines.len() - i,
    {
        let mut chunks = crate::wrap::wrap_cols(lines[i].as_str(), CALL_WRAP_COLS);
        let ghost head = out@;
        let ghost tail = chunks@;
        assert(all[i as int] == lines@[i as int]@);
        out.append(&mut chunks);
        proof {
            assert(crate::text::texts(out@) =~= crate::text::texts(head) + crate::text::texts(
                tail,
            ));
            assert(all.take(i + 1).drop_last() =~= all.take(i as int));
        }
        i = i + 1;
    }
    assert(all.take(i as int) =~= all);
    block_of_lines(out, OUTPUT_DETAIL_MAX_LINES)
}

// ---------------------------------------------------------------------------
// Thoughts as chips
// ---------------------------------------------------------------------------

/// The label of a thought's chip.
pub open spec fn thought_label() -> Seq<char> {
    "Thought process"@
}

/// The lines that a thought's chip shows: while it streams the last ones, the
/// blank ones that the cut lands on dropped, else the first ones.
pub open spec fn thought_shown(lines: Seq<Seq<crate::markdown::RunView>>, live: bool) -> Seq<
    Seq<crate::markdown::RunView>,
> {
    if lines.len() <= OUTPUT_DETAIL_MAX_LINES {
        lines
    } else if live {
        crate::thoughts::drop_blank_head(lines.skip(lines.len() - OUTPUT_DETAIL_MAX_LINES))
    } else {
        lines.take(OUTPUT_DETAIL_MAX_LINES as int)
    }
}

/// What a thought's chip opens to.
pub open spec fn thought_detail(
    lines: Seq<Seq<crate::markdown::RunView>>,
    live: bool,
) -> Option<DetailView> {
    let shown = thought_shown(lines, live);
    if shown.len() == 0 {
        None
    } else {
        Some(
            DetailView::Thought {
                lines: shown,
                truncated_by: if lines.len() > OUTPUT_DETAIL_MAX_LINES {
                    (lines.len() - OUTPUT_DETAIL_MAX_LINES) as usize
                } else {
                    0
                },
            },
        )
    }
}

/// A thought as a chip. While it streams it is unresolved.
pub open spec fn thought_chip(tree: BlockTree, live: bool) -> ItemView {
    ItemView {
        call: CallView::Unknown { name: thought_label(), input: None },
        facts: FactsView { spawn: false, label: thought_label(), detail: ""@, model: None },
        is_error: false,
        resolved: !live,
        detail: thought_detail(crate::thoughts::thought_view(tree), live),
        invocation: None,
        output_ref: None,
        output_bytes: None,
        diff_ref: None,
        subagent_ref: None,
        subagent_status: None,
        subagent_tail: None,
        is_thought: true,
    }
}

/// Makes a chip of a thought's parsed markdown.
pub fn thought_item(tree: &BlockTree, live: bool) -> (r: ToolItem)
    requires
        crate::thoughts::tree_fits(*tree),
    ensures
        r@ == thought_chip(*tree, live),
{
    let mut lines = crate::thoughts::thought_lines(tree);
    let ghost all = crate::thoughts::thought_view(*tree);
    assert(all.len() == lines@.len());
    let mut truncated_by: usize = 0;
    if lines.len() > OUTPUT_DETAIL_MAX_LINES {
        truncated_by = lines.len() - OUTPUT_DETAIL_MAX_LINES;
        if live {
            let ghost before = lines@;
            lines = lines.split_off(truncated_by);
            assert(crate::markdown::line_views(lines@) =~= all.skip(truncated_by as int));
            while lines.len() > 0 && crate::thoughts::blank_line(&lines[0])
                invariant
                    crate::thoughts::drop_blank_head(crate::markdown::line_views(lines@))
                        == crate::thoughts::drop_blank_head(all.skip(truncated_by as int)),
                decreases lines.len(),
            {
                let ghost was = lines@;
                lines.remove(0);
                assert(crate::markdown::line_views(lines@) =~= crate::markdown::line_views(
                    was,
                ).skip(1));
            }
        } else {
            lines.truncate(OUTPUT_DETAIL_MAX_LINES);
            assert(crate::markdown::line_views(lines@) =~= all.take(
                OUTPUT_DETAIL_MAX_LINES as int,
            ));
        }
    }
    let ghost shown = thought_shown(all, live);
    assert(crate::markdown::line_views(lines@) == shown);
    assert(shown.len() == lines@.len());
    let detail = if lines.len() == 0 {
        None
    } else {
        Some(Arc::new(ToolDetail::Thought { lines, truncated_by }))
    };
    ToolItem {
        call: Arc::new(ToolCall::Unknown { name: "Thought process".to_owned(), input: None }),
        facts: Arc::new(
            CallFacts {
                spawn: false,
                label: "Thought process".to_owned(),
                detail: "".to_owned(),
                model: None,
            },
        ),
        is_error: false,
        resolved: !live,
        detail,
        invocation: None,
        output_ref: None,
        output_bytes: None,
        diff_ref: None,
        subagent_ref: None,
        subagent_status: None,
        subagent_tail: None,
        is_thought: true,
    }
}

} // verus!
