//! What holds of every chip: what it opens to and what it tells of its call.
use vstd::prelude::*;

use crate::diff::ToolDiff;
use crate::markdown::BlockTree;
use crate::message::MessagePart;
use crate::tools::{CallView, DetailView, ItemView, StatView, TodoView};

verus! {

/// Whether the last line to see is at `k`.
pub open spec fn last_to_see(lines: Seq<Seq<char>>, k: int) -> bool {
    &&& 0 <= k < lines.len()
    &&& !crate::text::is_blank(lines[k])
    &&& forall|j: int| k < j < lines.len() ==> crate::text::is_blank(#[trigger] lines[j])
}

/// Whether a block shows the first of `lines`, at most `max`, up to the last one to
/// see, verbatim and in order, and counts those that it leaves out; nothing where
/// there is nothing to see.
pub open spec fn shows_first(d: Option<DetailView>, lines: Seq<Seq<char>>, max: nat) -> bool {
    &&& (forall|j: int| 0 <= j < lines.len() ==> crate::text::is_blank(#[trigger] lines[j]))
        ==> d is None
    &&& forall|k: int| #[trigger]
        last_to_see(lines, k) ==> {
            &&& d matches Some(DetailView::Output { lines: shown, truncated_by })
            &&& shown.len() == (if k + 1 <= max {
                k + 1
            } else {
                max as int
            })
            &&& shown == lines.take(shown.len() as int)
            &&& k + 1 - shown.len() <= usize::MAX ==> truncated_by == k + 1 - shown.len()
        }
}

proof fn lemma_blank_dropped(lines: Seq<Seq<char>>)
    ensures
        ({
            let kept = crate::tools::drop_blank_lines(lines);
            &&& kept.len() <= lines.len()
            &&& kept == lines.take(kept.len() as int)
            &&& forall|j: int|
                kept.len() <= j < lines.len() ==> crate::text::is_blank(#[trigger] lines[j])
            &&& kept.len() > 0 ==> !crate::text::is_blank(lines[kept.len() - 1])
        }),
    decreases lines.len(),
{
    let kept = crate::tools::drop_blank_lines(lines);
    if lines.len() > 0 && crate::text::is_blank(lines.last()) {
        let init = lines.drop_last();
        lemma_blank_dropped(init);
        assert(kept =~= lines.take(kept.len() as int));
        assert forall|j: int| kept.len() <= j < lines.len() implies crate::text::is_blank(
            #[trigger] lines[j],
        ) by {
            if j < init.len() {
                assert(init[j] == lines[j]);
            }
        }
    } else {
        assert(kept =~= lines.take(kept.len() as int));
    }
}

/// A block of lines shows the first ones up to the last to see, no more than asked
/// for, and counts the rest.
pub proof fn law_a_block_shows_the_first_lines(lines: Seq<Seq<char>>, max: usize)
    ensures
        shows_first(crate::tools::output_block(lines, max), lines, max as nat),
{
    let kept = crate::tools::drop_blank_lines(lines);
    let d = crate::tools::output_block(lines, max);
    lemma_blank_dropped(lines);
    if kept.len() > 0 {
        let k = kept.len() - 1;
        assert(!crate::text::is_blank(lines[k]));
        assert(kept.take(max as int) =~= lines.take(max as int) || kept.len() <= max);
    }
    assert forall|k: int| #[trigger] last_to_see(lines, k) implies k == kept.len() - 1 by {
        if k >= kept.len() {
            assert(crate::text::is_blank(lines[k]));
        }
        if k < kept.len() - 1 {
            assert(crate::text::is_blank(lines[kept.len() - 1]));
        }
    }
}

// ---------------------------------------------------------------------------
// The invocation
// ---------------------------------------------------------------------------

/// A todo list as text: a line for each entry, ticked or not.
pub open spec fn ticked(items: Seq<TodoView>) -> Seq<char>
    decreases items.len(),
{
    if items.len() == 0 {
        Seq::empty()
    } else {
        ticked(items.drop_last()) + (if items.len() > 1 {
            "\n"@
        } else {
            Seq::empty()
        }) + (if items.last().done {
            "[x] "@
        } else {
            "[ ] "@
        }) + items.last().text
    }
}

/// Whether a text tells all of a call: the whole command, path, pattern, address or
/// query, and what goes with it.
pub open spec fn tells_call(text: Seq<char>, call: CallView) -> bool {
    match call {
        CallView::Exec { command } => text == command,
        CallView::ReadFile { path } => text == path,
        CallView::EditFile { path } => text == path,
        CallView::Glob { pattern } => text == pattern,
        CallView::WebSearch { query } => text == query,
        CallView::WriteFile { path, content: None } => text == path,
        CallView::WriteFile { path, content: Some(content) } => text == path + "\n"@ + content,
        CallView::ApplyPatch { path: Some(path) } => text == path,
        CallView::ApplyPatch { path: None } => text == "workspace"@,
        CallView::Search { pattern, path: None } => text == pattern,
        CallView::Search { pattern, path: Some(path) } => text == pattern + " in "@ + path,
        CallView::WebFetch { url, prompt: None } => text == url,
        CallView::WebFetch { url, prompt: Some(prompt) } => text == url + "\n"@ + prompt,
        CallView::Todo { items } => text == ticked(items),
        CallView::Mcp { server, tool, input: None } => text == server + " · "@ + tool,
        CallView::Mcp { server, tool, input: Some(input) } => text == server + " · "@ + tool
            + "\n"@ + crate::json::pretty_text(input),
        CallView::Unknown { name, input: None } => text == name,
        CallView::Unknown { name, input: Some(input) } => text == name + "\n"@
            + crate::json::pretty_text(input),
    }
}

proof fn lemma_ticked(items: Seq<TodoView>)
    ensures
        crate::text::join(crate::tools::todo_lines(items), "\n"@) == ticked(items),
    decreases items.len(),
{
    let lines = crate::tools::todo_lines(items);
    let text = crate::text::join(lines, "\n"@);
    if items.len() == 0 {
        assert(text =~= Seq::empty());
    } else {
        let init = items.drop_last();
        let last = items.last();
        reveal_strlit("[x]");
        reveal_strlit("[ ]");
        reveal_strlit("[x] ");
        reveal_strlit("[ ] ");
        reveal_strlit(" ");
        lemma_ticked(init);
        assert(lines.drop_last() =~= crate::tools::todo_lines(init));
        if items.len() == 1 {
            assert(ticked(init) =~= Seq::empty());
            assert(text =~= ticked(items));
        } else {
            assert(text =~= ticked(items));
        }
    }
}

/// Whether pieces show a source line from one place to another: none wider than the
/// columns, all but the last of that width, and together the line.
pub open spec fn cuts_line(
    pieces: Seq<Seq<char>>,
    line: Seq<char>,
    cols: nat,
    from: int,
    to: int,
) -> bool {
    &&& 0 <= from < to <= pieces.len()
    &&& crate::wrap::joined(pieces.subrange(from, to)) == line
    &&& forall|i: int| from <= i < to ==> (#[trigger] pieces[i]).len() <= cols
    &&& forall|i: int| from <= i < to - 1 ==> (#[trigger] pieces[i]).len() == cols
}

/// Whether pieces show source lines in order.
pub open spec fn cuts_up(
    pieces: Seq<Seq<char>>,
    source: Seq<Seq<char>>,
    cols: nat,
    cuts: Seq<int>,
) -> bool {
    &&& cuts.len() == source.len() + 1
    &&& cuts[0] == 0
    &&& cuts.last() == pieces.len()
    &&& forall|k: int|
        0 <= k < source.len() ==> cuts_line(
            pieces,
            source[k],
            cols,
            #[trigger] cuts[k],
            cuts[k + 1],
        )
}

proof fn lemma_cuts_before(
    before: Seq<Seq<char>>,
    more: Seq<Seq<char>>,
    line: Seq<char>,
    cols: nat,
    from: int,
    to: int,
)
    requires
        cuts_line(before, line, cols, from, to),
    ensures
        cuts_line(before + more, line, cols, from, to),
{
    let all = before + more;
    assert(all.subrange(from, to) =~= before.subrange(from, to));
    assert forall|i: int| from <= i < to implies (#[trigger] all[i]).len() <= cols by {
        assert(all[i] == before[i]);
    }
    assert forall|i: int| from <= i < to - 1 implies (#[trigger] all[i]).len() == cols by {
        assert(all[i] == before[i]);
    }
}

proof fn lemma_cuts_mine(before: Seq<Seq<char>>, line: Seq<char>, cols: nat)
    requires
        cols > 0,
    ensures
        ({
            let all = before + crate::wrap::cut_line(line, cols);
            cuts_line(all, line, cols, before.len() as int, all.len() as int)
        }),
{
    let mine = crate::wrap::cut_line(line, cols);
    let all = before + mine;
    let n = before.len() as int;
    crate::wrap::law_cut_line_is_the_line(line, cols);
    crate::thought_laws::lemma_cut_some(line, cols);
    assert(all.subrange(n, all.len() as int) =~= mine);
    assert forall|i: int| n <= i < all.len() implies (#[trigger] all[i]).len() <= cols by {
        assert(all[i] == mine[i - n]);
        if line.len() == 0 {
            assert(mine =~= seq![line]);
        } else {
            assert(0 < mine[i - n].len() <= cols);
        }
    }
    assert forall|i: int| n <= i < all.len() - 1 implies (#[trigger] all[i]).len() == cols by {
        assert(all[i] == mine[i - n]);
        crate::thought_laws::lemma_cut_full(line, cols, i - n);
    }
}

proof fn lemma_cut_up(source: Seq<Seq<char>>, cols: nat) -> (cuts: Seq<int>)
    requires
        cols > 0,
    ensures
        cuts_up(crate::tools::cut_lines(source, cols), source, cols, cuts),
    decreases source.len(),
{
    let pieces = crate::tools::cut_lines(source, cols);
    if source.len() == 0 {
        let cuts: Seq<int> = seq![0int];
        assert(cuts_up(pieces, source, cols, cuts));
        cuts
    } else {
        let init = source.drop_last();
        let line = source.last();
        let before = crate::tools::cut_lines(init, cols);
        let mine = crate::wrap::cut_line(line, cols);
        let earlier = lemma_cut_up(init, cols);
        let cuts = earlier.push(pieces.len() as int);
        assert(pieces == before + mine);
        let n = init.len();
        assert forall|k: int| 0 <= k < source.len() implies cuts_line(
            pieces,
            source[k],
            cols,
            #[trigger] cuts[k],
            cuts[k + 1],
        ) by {
            if k < n {
                assert(earlier[k] == cuts[k]);
                assert(earlier[k + 1] == cuts[k + 1]);
                lemma_cuts_before(before, mine, init[k], cols, earlier[k], earlier[k + 1]);
            } else {
                lemma_cuts_mine(before, line, cols);
            }
        }
        assert(cuts_up(pieces, source, cols, cuts));
        cuts
    }
}

/// Whether a block shows a text: its lines, cut at 80 columns, the first 24 of them.
pub open spec fn shows_text(
    d: Option<DetailView>,
    text: Seq<char>,
    pieces: Seq<Seq<char>>,
    cuts: Seq<int>,
) -> bool {
    &&& cuts_up(pieces, crate::text::lines(text), 80, cuts)
    &&& shows_first(d, pieces, 24)
}

/// The invocation block of a call shows all that the call tells, cut at 80 columns
/// and nowhere else, the first 24 lines of it.
pub proof fn law_an_invocation_tells_the_whole_call(call: CallView)
    ensures
        exists|text: Seq<char>, pieces: Seq<Seq<char>>, cuts: Seq<int>|
            tells_call(text, call) && #[trigger] shows_text(
                crate::tools::invocation_of(call),
                text,
                pieces,
                cuts,
            ),
{
    let text = crate::tools::call_text(call);
    let source = crate::text::lines(text);
    let pieces = crate::tools::cut_lines(source, 80);
    let cuts = lemma_cut_up(source, 80);
    law_a_block_shows_the_first_lines(pieces, crate::tools::OUTPUT_DETAIL_MAX_LINES);
    if let CallView::Todo { items } = call {
        lemma_ticked(items);
    }
    assert(tells_call(text, call));
    assert(shows_text(crate::tools::invocation_of(call), text, pieces, cuts));
}

// ---------------------------------------------------------------------------
// Thoughts
// ---------------------------------------------------------------------------

/// Whether a chip shows a thought of these lines: the first 24 once it has settled,
/// the last ones while it streams, without those at their head that show nothing.
pub open spec fn tells_thought(
    chip: ItemView,
    lines: Seq<Seq<crate::markdown::RunView>>,
    live: bool,
) -> bool {
    &&& chip.is_thought
    &&& chip.resolved == !live
    &&& !chip.is_error
    &&& !chip.facts.spawn
    &&& chip.facts.label == "Thought process"@
    &&& chip.invocation is None
    &&& chip.output_ref is None && chip.diff_ref is None && chip.subagent_ref is None
    &&& lines.len() == 0 ==> chip.detail is None
    &&& lines.len() > 0 ==> {
        &&& chip.detail matches Some(DetailView::Thought { lines: shown, truncated_by })
        &&& lines.len() <= 24 ==> shown == lines && truncated_by == 0
        &&& lines.len() > 24 ==> {
            &&& lines.len() - 24 <= usize::MAX ==> truncated_by == lines.len() - 24
            &&& !live ==> shown == lines.take(24)
            &&& live ==> {
                &&& 0 < shown.len() <= 24
                &&& shown == lines.skip(lines.len() - shown.len())
                &&& !crate::thoughts::line_blank(shown[0])
                &&& forall|i: int|
                    lines.len() - 24 <= i < lines.len() - shown.len()
                        ==> crate::thoughts::line_blank(#[trigger] lines[i])
            }
        }
    }
}

proof fn lemma_head_dropped(lines: Seq<Seq<crate::markdown::RunView>>)
    requires
        lines.len() > 0,
        !crate::thoughts::line_blank(lines.last()),
    ensures
        ({
            let kept = crate::thoughts::drop_blank_head(lines);
            &&& 0 < kept.len() <= lines.len()
            &&& kept == lines.skip(lines.len() - kept.len())
            &&& !crate::thoughts::line_blank(kept[0])
            &&& forall|i: int|
                0 <= i < lines.len() - kept.len() ==> crate::thoughts::line_blank(
                    #[trigger] lines[i],
                )
        }),
    decreases lines.len(),
{
    let kept = crate::thoughts::drop_blank_head(lines);
    if crate::thoughts::line_blank(lines[0]) {
        let rest = lines.skip(1);
        assert(rest.last() == lines.last());
        lemma_head_dropped(rest);
        assert(kept =~= lines.skip(lines.len() - kept.len()));
        assert forall|i: int| 0 <= i < lines.len() - kept.len() implies crate::thoughts::line_blank(
            #[trigger] lines[i],
        ) by {
            if i > 0 {
                assert(rest[i - 1] == lines[i]);
            }
        }
    } else {
        assert(kept =~= lines.skip(0));
    }
}

/// The chip of a thought shows its first 24 lines, and while it streams its last
/// ones, so that what is being written is seen.
pub proof fn law_a_thought_chip_shows_its_lines(tree: BlockTree, live: bool)
    ensures
        tells_thought(
            crate::tools::thought_chip(tree, live),
            crate::thoughts::thought_view(tree),
            live,
        ),
{
    let lines = crate::thoughts::thought_view(tree);
    crate::thought_laws::law_blocks_stand_in_order(tree);
    if lines.len() > 24 && live {
        let tail = lines.skip(lines.len() - 24);
        assert(tail.last() == lines.last());
        lemma_head_dropped(tail);
        let shown = crate::thoughts::drop_blank_head(tail);
        assert(shown =~= lines.skip(lines.len() - shown.len()));
        assert forall|i: int|
            lines.len() - 24 <= i < lines.len()
                - shown.len() implies crate::thoughts::line_blank(#[trigger] lines[i]) by {
            assert(tail[i - (lines.len() - 24)] == lines[i]);
        }
    }
}

// ---------------------------------------------------------------------------
// Tools
// ---------------------------------------------------------------------------

/// Whether a block shows an edit: nothing where the texts do not differ, else their
/// diff up to 600 lines, with both texts.
pub open spec fn shows_edit(d: Option<DetailView>, diff: ToolDiff) -> bool {
    let whole = crate::diff::diff_file(diff);
    if whole.hunks.len() == 0 {
        d is None
    } else {
        &&& d matches Some(DetailView::Diff { file, old_text, new_text })
        &&& old_text == crate::markdown::opt_text(diff.old_text)
        &&& new_text == Some(diff.new_text@)
        &&& file.path == diff.path@
        &&& file.additions == whole.additions
        &&& file.deletions == whole.deletions
        &&& file.status == whole.status
        &&& crate::diff::hunks_lines(file.hunks) == crate::diff::hunks_lines(whole.hunks).take(
            if 600 < crate::diff::hunks_lines(whole.hunks).len() {
                600
            } else {
                crate::diff::hunks_lines(whole.hunks).len() as int
            },
        )
    }
}

/// Whether a chip tells all of a tool part: what was called and how it went, under
/// which keys there is more, and what it opens to: the edit where there is one, else
/// what was changed per file, else the first 24 lines of the output.
pub open spec fn tells_tool(chip: ItemView, part: MessagePart) -> bool {
    match part {
        MessagePart::Tool {
            id,
            call,
            facts,
            is_error,
            resolved,
            output,
            diff,
            output_ref,
            output_bytes,
            diff_ref,
            diff_stats,
            subagent_ref,
            subagent_status,
            subagent_tail,
        } => {
            &&& chip.call == call@
            &&& chip.facts == facts@
            &&& chip.is_error == is_error
            &&& chip.resolved == resolved
            &&& !chip.is_thought
            &&& chip.output_ref == crate::markdown::opt_text(output_ref)
            &&& chip.output_bytes == output_bytes
            &&& chip.diff_ref == crate::markdown::opt_text(diff_ref)
            &&& chip.subagent_ref == crate::markdown::opt_text(subagent_ref)
            &&& chip.subagent_status == subagent_status
            &&& chip.subagent_tail == crate::markdown::opt_text(subagent_tail)
            &&& exists|text: Seq<char>, pieces: Seq<Seq<char>>, cuts: Seq<int>|
                tells_call(text, call@) && #[trigger] shows_text(
                    chip.invocation,
                    text,
                    pieces,
                    cuts,
                )
            &&& match (diff, diff_stats, output) {
                (Some(d), _, _) => shows_edit(chip.detail, d),
                (None, Some(stats), _) if stats@.len() > 0 => chip.detail matches Some(
                    DetailView::Stats { stats: shown },
                ) && shown.len() == stats@.len() && forall|i: int|
                    0 <= i < shown.len() ==> (#[trigger] shown[i]) == (StatView {
                        path: stats@[i].path@,
                        additions: stats@[i].additions,
                        deletions: stats@[i].deletions,
                    }),
                (None, _, Some(text)) => shows_first(chip.detail, crate::text::lines(text@), 24),
                (None, _, None) => chip.detail is None,
            }
        },
        _ => false,
    }
}

/// The chip of a tool part tells all of it.
pub proof fn law_a_chip_tells_its_part(part: MessagePart)
    requires
        part is Tool,
    ensures
        tells_tool(crate::rows::part_chip(part), part),
{
    if let MessagePart::Tool { call, output, diff, diff_stats, .. } = part {
        let chip = crate::rows::part_chip(part);
        law_an_invocation_tells_the_whole_call(call@);
        if let Some(d) = diff {
            crate::diff::law_cut_keeps_the_first_lines(crate::diff::diff_file(d), 600);
        } else {
            if let Some(text) = output {
                law_a_block_shows_the_first_lines(
                    crate::text::lines(text@),
                    crate::tools::OUTPUT_DETAIL_MAX_LINES,
                );
            }
        }
    }
}

/// What is fetched in full shows its first 400 lines.
pub proof fn law_a_full_output_shows_its_first_lines(text: Seq<char>)
    ensures
        shows_first(
            crate::tools::output_block(
                crate::text::lines(text),
                crate::tools::FULL_OUTPUT_MAX_LINES,
            ),
            crate::text::lines(text),
            400,
        ),
{
    law_a_block_shows_the_first_lines(
        crate::text::lines(text),
        crate::tools::FULL_OUTPUT_MAX_LINES,
    );
}

} // verus!
