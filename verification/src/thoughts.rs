//! A thought's markdown flattened into styled lines.
//!
//! Inline marks become styles and blocks flatten structurally: headings bold,
//! list bullets, quote bars, code verbatim. Every line is one row of a fixed
//! height, so the height of a thought is its number of lines.
use vstd::prelude::*;

use crate::markdown::{Block, BlockTree, InlineRun, InlineStyle, TopBlock};

verus! {

/// `run` in bold, where `bold` says so.
pub open spec fn emboldened(run: crate::markdown::RunView, bold: bool) -> crate::markdown::RunView {
    crate::markdown::RunView {
        text: run.text,
        style: crate::markdown::StyleView { bold: run.style.bold || bold, ..run.style },
    }
}

/// Every one of `runs` in bold, where `bold` says so.
pub open spec fn all_emboldened(runs: Seq<InlineRun>, bold: bool) -> Seq<
    crate::markdown::RunView,
> {
    Seq::new(runs.len(), |i: int| emboldened(runs[i]@, bold))
}

/// The text of a table row: its cells with a dot between each two.
pub open spec fn row_text(cells: Seq<Vec<InlineRun>>, bold: bool) -> Seq<crate::wrap::Glyph>
    decreases cells.len(),
{
    if cells.len() == 0 {
        Seq::empty()
    } else {
        let dot = if cells.len() > 1 {
            crate::wrap::glyphs(" · "@, crate::markdown::plain_style())
        } else {
            Seq::empty()
        };
        row_text(cells.drop_last(), bold) + dot + crate::wrap::flat(
            all_emboldened(cells.last()@, bold),
        )
    }
}

/// The lines of the rows of a table.
pub open spec fn rows_lines(rows: Seq<Vec<Vec<InlineRun>>>, indent: nat) -> Seq<
    Seq<crate::markdown::RunView>,
>
    decreases rows.len(),
{
    if rows.len() == 0 {
        Seq::empty()
    } else {
        rows_lines(rows.drop_last(), indent) + crate::wrap::wrapped_lines(
            row_text(rows.last()@, false),
            indent,
        )
    }
}

/// One line of code: the indent run, and the code where there is any.
pub open spec fn code_row(indent: nat, code: Seq<char>) -> Seq<crate::markdown::RunView> {
    if code.len() == 0 {
        seq![crate::wrap::indent_view(indent)]
    } else {
        seq![
            crate::wrap::indent_view(indent),
            crate::markdown::RunView { text: code, style: crate::markdown::code_style() },
        ]
    }
}

/// Each of `chunks` as a line of code.
pub open spec fn code_rows(indent: nat, chunks: Seq<Seq<char>>) -> Seq<
    Seq<crate::markdown::RunView>,
> {
    Seq::new(chunks.len(), |i: int| code_row(indent, chunks[i]))
}

/// The lines of code, cut at the budget.
pub open spec fn code_lines(lines: Seq<Seq<char>>, indent: nat) -> Seq<
    Seq<crate::markdown::RunView>,
>
    decreases lines.len(),
{
    if lines.len() == 0 {
        Seq::empty()
    } else {
        code_lines(lines.drop_last(), indent) + code_rows(
            indent,
            crate::wrap::cut_line(lines.last(), crate::wrap::budget_at(indent)),
        )
    }
}

/// The marker of a list's item: its number and a period, or a bullet.
pub open spec fn marker(start: Option<u64>, ix: nat) -> Seq<char> {
    match start {
        Some(n) => crate::text::decimal(n as nat + ix) + ". "@,
        None => "• "@,
    }
}

/// The line of an empty list item, before its marker is planted.
pub open spec fn empty_item(indent: nat) -> Seq<Seq<crate::markdown::RunView>> {
    seq![seq![crate::wrap::indent_view(indent)]]
}

/// `lines` with the marker in place of what the first line opens with.
pub open spec fn with_marker(
    lines: Seq<Seq<crate::markdown::RunView>>,
    indent: nat,
    mark: Seq<char>,
) -> Seq<Seq<crate::markdown::RunView>> {
    if lines[0].len() == 0 {
        lines
    } else {
        lines.update(
            0,
            lines[0].update(
                0,
                crate::markdown::RunView {
                    text: crate::wrap::spaces(indent) + mark,
                    style: lines[0][0].style,
                },
            ),
        )
    }
}

/// `line` with the quote bar in place of the two characters at `indent`.
pub open spec fn with_bar(line: Seq<crate::markdown::RunView>, indent: nat) -> Seq<
    crate::markdown::RunView,
> {
    if line.len() == 0 {
        line
    } else {
        line.update(
            0,
            crate::markdown::RunView {
                text: line[0].text.take(indent as int) + "│ "@ + line[0].text.skip(
                    indent as int + 2,
                ),
                style: line[0].style,
            },
        )
    }
}

/// Every one of `lines` with the quote bar.
pub open spec fn with_bars(lines: Seq<Seq<crate::markdown::RunView>>, indent: nat) -> Seq<
    Seq<crate::markdown::RunView>,
> {
    Seq::new(lines.len(), |i: int| with_bar(lines[i], indent))
}

/// The lines of one block at `indent`.
pub open spec fn block_lines(block: Block, indent: nat) -> Seq<Seq<crate::markdown::RunView>>
    decreases block,
{
    match block {
        Block::Paragraph { runs } => crate::wrap::wrapped_lines(
            crate::wrap::flat(crate::markdown::run_views(runs@)),
            indent,
        ),
        Block::Heading { level, runs } => crate::wrap::wrapped_lines(
            crate::wrap::flat(all_emboldened(runs@, true)),
            indent,
        ),
        Block::CodeBlock { language, code } => code_lines(crate::text::lines(code@), indent),
        Block::List { ordered_start, items } => items_lines(items@, ordered_start, indent),
        Block::BlockQuote { children } => with_bars(quoted_lines(children@, indent + 2), indent),
        Block::Table { header, rows } => crate::wrap::wrapped_lines(
            row_text(header@, true),
            indent,
        ) + rows_lines(rows@, indent),
        Block::Rule => seq![
            seq![
                crate::wrap::indent_view(indent),
                crate::markdown::RunView {
                    text: "———"@,
                    style: crate::markdown::plain_style(),
                },
            ],
        ],
    }
}

/// The lines of blocks that follow each other without a gap.
pub open spec fn blocks_lines(blocks: Seq<Block>, indent: nat) -> Seq<
    Seq<crate::markdown::RunView>,
>
    decreases blocks,
{
    if blocks.len() == 0 {
        Seq::empty()
    } else {
        blocks_lines(blocks.drop_last(), indent) + block_lines(blocks.last(), indent)
    }
}

/// The lines of a list's items, each opened by its marker.
pub open spec fn items_lines(items: Seq<Vec<Block>>, start: Option<u64>, indent: nat) -> Seq<
    Seq<crate::markdown::RunView>,
>
    decreases items,
{
    if items.len() == 0 {
        Seq::empty()
    } else {
        let mark = marker(start, (items.len() - 1) as nat);
        let inner = indent + mark.len();
        let lines = blocks_lines(items.last()@, inner);
        items_lines(items.drop_last(), start, indent) + with_marker(
            if lines.len() == 0 {
                empty_item(inner)
            } else {
                lines
            },
            indent,
            mark,
        )
    }
}

/// The lines of blocks with a blank line between each two.
pub open spec fn quoted_lines(blocks: Seq<Block>, indent: nat) -> Seq<
    Seq<crate::markdown::RunView>,
>
    decreases blocks,
{
    if blocks.len() == 0 {
        Seq::empty()
    } else {
        let before = quoted_lines(blocks.drop_last(), indent);
        let gapped = if blocks.len() > 1 {
            before.push(Seq::empty())
        } else {
            before
        };
        gapped + block_lines(blocks.last(), indent)
    }
}

/// Whether the numbers of ordered lists fit `u64` and the indentation of every
/// nested block fits `usize`.
pub open spec fn block_fits(block: Block, indent: nat) -> bool
    decreases block,
{
    match block {
        Block::List { ordered_start, items } => {
            &&& ordered_start matches Some(n) ==> n + items@.len() <= u64::MAX + 1
            &&& forall|i: nat|
                i < items@.len() ==> {
                    let inner = indent + (#[trigger] marker(ordered_start, i)).len();
                    &&& inner <= usize::MAX
                    &&& blocks_fit(items@[i as int]@, inner)
                }
        },
        Block::BlockQuote { children } => indent + 2 <= usize::MAX && blocks_fit(
            children@,
            indent + 2,
        ),
        _ => true,
    }
}

/// Whether each of `blocks` fits at `indent`.
pub open spec fn blocks_fit(blocks: Seq<Block>, indent: nat) -> bool
    decreases blocks,
{
    forall|i: int| 0 <= i < blocks.len() ==> block_fits(#[trigger] blocks[i], indent)
}

/// Whether `line` is empty or opens with `indent` spaces.
pub open spec fn led(line: Seq<crate::markdown::RunView>, indent: nat) -> bool {
    line.len() > 0 ==> {
        &&& line[0].text.len() >= indent
        &&& forall|i: int| 0 <= i < indent ==> #[trigger] line[0].text[i] == ' '
    }
}

/// Whether every one of `lines` is led by `indent` spaces.
pub open spec fn all_led(lines: Seq<Seq<crate::markdown::RunView>>, indent: nat) -> bool {
    forall|i: int| 0 <= i < lines.len() ==> led(#[trigger] lines[i], indent)
}

proof fn lemma_led_deeper(lines: Seq<Seq<crate::markdown::RunView>>, indent: nat, inner: nat)
    requires
        indent <= inner,
        all_led(lines, inner),
    ensures
        all_led(lines, indent),
{
    assert forall|i: int| 0 <= i < lines.len() implies led(#[trigger] lines[i], indent) by {
        assert(led(lines[i], inner));
    }
}

proof fn lemma_led_add(
    a: Seq<Seq<crate::markdown::RunView>>,
    b: Seq<Seq<crate::markdown::RunView>>,
    indent: nat,
)
    requires
        all_led(a, indent),
        all_led(b, indent),
    ensures
        all_led(a + b, indent),
{
    assert forall|i: int| 0 <= i < (a + b).len() implies led(#[trigger] (a + b)[i], indent) by {
        if i < a.len() {
            assert(led(a[i], indent));
        } else {
            assert(led(b[i - a.len()], indent));
        }
    }
}

proof fn lemma_rows_led(rows: Seq<Vec<Vec<InlineRun>>>, indent: nat)
    ensures
        all_led(rows_lines(rows, indent), indent),
    decreases rows.len(),
{
    if rows.len() > 0 {
        lemma_rows_led(rows.drop_last(), indent);
        lemma_led_add(
            rows_lines(rows.drop_last(), indent),
            crate::wrap::wrapped_lines(row_text(rows.last()@, false), indent),
            indent,
        );
    }
}

proof fn lemma_code_led(lines: Seq<Seq<char>>, indent: nat)
    ensures
        all_led(code_lines(lines, indent), indent),
    decreases lines.len(),
{
    if lines.len() > 0 {
        lemma_code_led(lines.drop_last(), indent);
        lemma_led_add(
            code_lines(lines.drop_last(), indent),
            code_rows(
                indent,
                crate::wrap::cut_line(lines.last(), crate::wrap::budget_at(indent)),
            ),
            indent,
        );
    }
}

/// Every line of a block at `indent` is empty or opens with `indent` spaces.
pub proof fn lemma_block_led(block: Block, indent: nat)
    ensures
        all_led(block_lines(block, indent), indent),
    decreases block,
{
    match block {
        Block::CodeBlock { language, code } => {
            lemma_code_led(crate::text::lines(code@), indent);
        },
        Block::List { ordered_start, items } => {
            lemma_items_led(items@, ordered_start, indent);
        },
        Block::BlockQuote { children } => {
            lemma_quoted_led(children@, indent + 2);
            let lines = quoted_lines(children@, indent + 2);
            assert forall|i: int| 0 <= i < lines.len() implies led(
                #[trigger] with_bars(lines, indent)[i],
                indent,
            ) by {
                assert(led(lines[i], indent + 2));
            }
        },
        Block::Table { header, rows } => {
            lemma_rows_led(rows@, indent);
            lemma_led_add(
                crate::wrap::wrapped_lines(row_text(header@, true), indent),
                rows_lines(rows@, indent),
                indent,
            );
        },
        _ => {},
    }
}

proof fn lemma_blocks_led(blocks: Seq<Block>, indent: nat)
    ensures
        all_led(blocks_lines(blocks, indent), indent),
    decreases blocks,
{
    if blocks.len() > 0 {
        lemma_blocks_led(blocks.drop_last(), indent);
        lemma_block_led(blocks.last(), indent);
        lemma_led_add(
            blocks_lines(blocks.drop_last(), indent),
            block_lines(blocks.last(), indent),
            indent,
        );
    }
}

proof fn lemma_items_led(items: Seq<Vec<Block>>, start: Option<u64>, indent: nat)
    ensures
        all_led(items_lines(items, start, indent), indent),
    decreases items,
{
    if items.len() > 0 {
        lemma_items_led(items.drop_last(), start, indent);
        let mark = marker(start, (items.len() - 1) as nat);
        let inner = indent + mark.len();
        let lines = blocks_lines(items.last()@, inner);
        lemma_blocks_led(items.last()@, inner);
        lemma_led_deeper(lines, indent, inner);
        let shown = if lines.len() == 0 {
            empty_item(inner)
        } else {
            lines
        };
        assert forall|i: int| 0 <= i < shown.len() implies led(
            #[trigger] with_marker(shown, indent, mark)[i],
            indent,
        ) by {
            assert(led(shown[i], indent));
        }
        lemma_led_add(
            items_lines(items.drop_last(), start, indent),
            with_marker(shown, indent, mark),
            indent,
        );
    }
}

proof fn lemma_quoted_led(blocks: Seq<Block>, indent: nat)
    ensures
        all_led(quoted_lines(blocks, indent), indent),
    decreases blocks,
{
    if blocks.len() > 0 {
        lemma_quoted_led(blocks.drop_last(), indent);
        lemma_block_led(blocks.last(), indent);
        let before = quoted_lines(blocks.drop_last(), indent);
        let gapped = if blocks.len() > 1 {
            before.push(Seq::empty())
        } else {
            before
        };
        assert forall|i: int| 0 <= i < gapped.len() implies led(#[trigger] gapped[i], indent) by {
            if i < before.len() {
                assert(led(before[i], indent));
            }
        }
        lemma_led_add(gapped, block_lines(blocks.last(), indent), indent);
    }
}

// ---------------------------------------------------------------------------
// Executable flattening
// ---------------------------------------------------------------------------

/// A copy of `runs`, in bold where `bold` says so.
fn embolden(runs: &Vec<InlineRun>, bold: bool) -> (r: Vec<InlineRun>)
    ensures
        crate::markdown::run_views(r@) == all_emboldened(runs@, bold),
{
    let mut r: Vec<InlineRun> = Vec::new();
    let mut i: usize = 0;
    assert(crate::markdown::run_views(r@) =~= all_emboldened(runs@, bold).take(0));
    while i < runs.len()
        invariant
            i <= runs@.len(),
            crate::markdown::run_views(r@) == all_emboldened(runs@, bold).take(i as int),
        decreases runs.len() - i,
    {
        let mut run = runs[i].clone();
        run.style.bold = run.style.bold || bold;
        assert(run@ == emboldened(runs@[i as int]@, bold));
        proof {
            crate::markdown::lemma_run_views_push(r@, run);
            assert(all_emboldened(runs@, bold).take(i + 1) =~= all_emboldened(runs@, bold).take(
                i as int,
            ).push(run@));
        }
        r.push(run);
        i = i + 1;
    }
    assert(all_emboldened(runs@, bold).take(i as int) =~= all_emboldened(runs@, bold));
    r
}

proof fn lemma_flat_add(a: Seq<crate::markdown::RunView>, b: Seq<crate::markdown::RunView>)
    ensures
        crate::wrap::flat(a + b) == crate::wrap::flat(a) + crate::wrap::flat(b),
    decreases b.len(),
{
    if b.len() == 0 {
        assert(a + b =~= a);
        assert(crate::wrap::flat(a) + crate::wrap::flat(b) =~= crate::wrap::flat(a));
    } else {
        lemma_flat_add(a, b.drop_last());
        assert((a + b).drop_last() =~= a + b.drop_last());
        assert(crate::wrap::flat(a + b) =~= crate::wrap::flat(a) + crate::wrap::flat(b));
    }
}

/// The cells of a table row in one run list.
fn row_runs(cells: &Vec<Vec<InlineRun>>, bold: bool) -> (line: Vec<InlineRun>)
    ensures
        crate::wrap::flat(crate::markdown::run_views(line@)) == row_text(cells@, bold),
{
    let mut line: Vec<InlineRun> = Vec::new();
    let mut i: usize = 0;
    assert(crate::wrap::flat(crate::markdown::run_views(line@)) =~= row_text(cells@.take(0), bold));
    while i < cells.len()
        invariant
            i <= cells@.len(),
            crate::wrap::flat(crate::markdown::run_views(line@)) == row_text(
                cells@.take(i as int),
                bold,
            ),
        decreases cells.len() - i,
    {
        let ghost before = crate::wrap::flat(crate::markdown::run_views(line@));
        if i > 0 {
            let dot = InlineRun { text: " · ".to_owned(), style: InlineStyle::default() };
            proof {
                crate::markdown::lemma_run_views_push(line@, dot);
                let views = crate::markdown::run_views(line@).push(dot@);
                assert(views.drop_last() =~= crate::markdown::run_views(line@));
            }
            line.push(dot);
        }
        let ghost mid = crate::markdown::run_views(line@);
        let mut cell = embolden(&cells[i], bold);
        let ghost tail = cell@;
        let ghost head = line@;
        line.append(&mut cell);
        proof {
            assert(line@ =~= head + tail);
            assert(crate::markdown::run_views(line@) =~= mid + all_emboldened(
                cells@[i as int]@,
                bold,
            ));
            lemma_flat_add(mid, all_emboldened(cells@[i as int]@, bold));
            assert(cells@.take(i + 1).drop_last() =~= cells@.take(i as int));
            assert(cells@.take(i + 1).last() == cells@[i as int]);
            if i == 0 {
                assert(before + Seq::<crate::wrap::Glyph>::empty() =~= before);
            }
        }
        i = i + 1;
    }
    assert(cells@.take(i as int) =~= cells@);
    line
}

/// Appends the lines of a code block.
fn push_code(code: &str, indent: usize, out: &mut Vec<Vec<InlineRun>>)
    ensures
        crate::markdown::line_views(final(out)@) == crate::markdown::line_views(old(out)@)
            + code_lines(crate::text::lines(code@), indent as nat),
{
    let cols: usize = if indent <= crate::wrap::THOUGHT_WRAP_COLS - crate::wrap::MIN_WRAP_COLS {
        crate::wrap::THOUGHT_WRAP_COLS - indent
    } else {
        crate::wrap::MIN_WRAP_COLS
    };
    let lines = crate::text::lines_of(code);
    let ghost all = crate::text::lines(code@);
    let ghost base = crate::markdown::line_views(out@);
    let ghost d = indent as nat;
    let mut i: usize = 0;
    assert(base + code_lines(all.take(0), d) =~= base);
    while i < lines.len()
        invariant
            i <= lines@.len(),
            crate::text::texts(lines@) == all,
            d == indent,
            cols == crate::wrap::budget_at(d),
            cols > 0,
            crate::markdown::line_views(out@) == base + code_lines(all.take(i as int), d),
        decreases lines.len() - i,
    {
        let chunks = crate::wrap::wrap_cols(lines[i].as_str(), cols);
        let ghost cut = crate::wrap::cut_line(all[i as int], crate::wrap::budget_at(d));
        let ghost before = crate::markdown::line_views(out@);
        proof {
            assert(all[i as int] == lines@[i as int]@);
            assert(before + code_rows(d, cut.take(0)) =~= before);
        }
        let mut j: usize = 0;
        while j < chunks.len()
            invariant
                j <= chunks@.len(),
                d == indent,
                crate::text::texts(chunks@) == cut,
                crate::markdown::line_views(out@) == before + code_rows(d, cut.take(j as int)),
            decreases chunks.len() - j,
        {
            let mut row = crate::wrap::indent_run(indent);
            proof {
                assert(cut[j as int] == chunks@[j as int]@);
                assert(cut.len() == chunks@.len());
            }
            if !chunks[j].as_str().is_empty() {
                let mut style = InlineStyle::default();
                style.code = true;
                let run = InlineRun { text: chunks[j].clone(), style };
                assert(run.style@ =~= crate::markdown::code_style());
                proof {
                    crate::markdown::lemma_run_views_push(row@, run);
                }
                row.push(run);
            }
            proof {
                assert(crate::markdown::run_views(row@) =~= code_row(d, cut[j as int]));
                crate::markdown::lemma_line_views_push(out@, row);
                assert(before + code_rows(d, cut.take(j + 1)) =~= (before + code_rows(
                    d,
                    cut.take(j as int),
                )).push(code_row(d, cut[j as int])));
            }
            out.push(row);
            j = j + 1;
        }
        proof {
            assert(cut.take(j as int) =~= cut);
            assert(all.take(i + 1).drop_last() =~= all.take(i as int));
            assert(base + code_lines(all.take(i + 1), d) =~= base + code_lines(
                all.take(i as int),
                d,
            ) + code_rows(d, cut));
        }
        i = i + 1;
    }
    assert(all.take(i as int) =~= all);
}

/// The marker of item `ix`.
fn marker_text(start: Option<u64>, ix: usize) -> (r: String)
    requires
        start matches Some(n) ==> n + ix <= u64::MAX,
    ensures
        r@ == marker(start, ix as nat),
{
    match start {
        Some(n) => {
            let mut s = String::new();
            crate::text::push_decimal(&mut s, n + ix as u64);
            crate::text::push_text(&mut s, ". ");
            assert(s@ =~= marker(start, ix as nat));
            s
        },
        None => "• ".to_owned(),
    }
}

/// A line with the quote bar in place of the two spaces at `indent`.
fn bar_line(line: Vec<InlineRun>, indent: usize) -> (r: Vec<InlineRun>)
    requires
        indent + 2 <= usize::MAX,
        led(crate::markdown::run_views(line@), indent as nat + 2),
    ensures
        crate::markdown::run_views(r@) == with_bar(
            crate::markdown::run_views(line@),
            indent as nat,
        ),
{
    let mut line = line;
    let ghost before = crate::markdown::run_views(line@);
    if line.len() > 0 {
        assert(before[0] == line@[0]@);
        let v = crate::text::chars_of(line[0].text.as_str());
        let mut text = crate::text::text_between(&v, 0, indent);
        let rest = crate::text::text_between(&v, indent + 2, v.len());
        crate::text::push_text(&mut text, "│ ");
        crate::text::push_text(&mut text, rest.as_str());
        proof {
            assert(v@.subrange(0, indent as int) =~= before[0].text.take(indent as int));
            assert(v@.subrange(indent + 2, v@.len() as int) =~= before[0].text.skip(indent + 2));
        }
        line[0].text = text;
        assert(crate::markdown::run_views(line@) =~= with_bar(before, indent as nat));
    }
    line
}

/// A line with the marker in place of what it opens with.
fn mark_line(line: Vec<InlineRun>, indent: usize, mark: &str) -> (r: Vec<InlineRun>)
    ensures
        ({
            let v = crate::markdown::run_views(line@);
            crate::markdown::run_views(r@) == with_marker(seq![v], indent as nat, mark@)[0]
        }),
{
    let mut line = line;
    let ghost before = crate::markdown::run_views(line@);
    if line.len() > 0 {
        let lead = crate::wrap::indent_run(indent);
        assert(crate::markdown::run_views(lead@).len() == 1);
        assert(crate::markdown::run_views(lead@)[0] == lead@[0]@);
        let mut text = lead[0].text.clone();
        crate::text::push_text(&mut text, mark);
        line[0].text = text;
        assert(crate::markdown::run_views(line@) =~= with_marker(
            seq![before],
            indent as nat,
            mark@,
        )[0]);
    }
    line
}

/// Appends the lines of one block, `indent` spaces deep.
pub fn thought_block_lines(block: &Block, indent: usize, out: &mut Vec<Vec<InlineRun>>)
    requires
        block_fits(*block, indent as nat),
    ensures
        crate::markdown::line_views(final(out)@) == crate::markdown::line_views(old(out)@)
            + block_lines(*block, indent as nat),
    decreases block,
{
    match block {
        Block::Paragraph { runs } => crate::wrap::wrap_styled_runs(runs, indent, out),
        Block::Heading { level: _, runs } => {
            let bold = embolden(runs, true);
            crate::wrap::wrap_styled_runs(&bold, indent, out);
        },
        Block::CodeBlock { language: _, code } => push_code(code.as_str(), indent, out),
        Block::List { ordered_start, items } => push_items(items, *ordered_start, indent, out),
        Block::BlockQuote { children } => push_quote(children, indent, out),
        Block::Table { header, rows } => {
            let head = row_runs(header, true);
            let ghost base = crate::markdown::line_views(out@);
            crate::wrap::wrap_styled_runs(&head, indent, out);
            let ghost d = indent as nat;
            let ghost mid = crate::markdown::line_views(out@);
            let mut i: usize = 0;
            assert(mid + rows_lines(rows@.take(0), d) =~= mid);
            while i < rows.len()
                invariant
                    i <= rows@.len(),
                    d == indent,
                    crate::markdown::line_views(out@) == mid + rows_lines(rows@.take(i as int), d),
                decreases rows.len() - i,
            {
                let row = row_runs(&rows[i], false);
                crate::wrap::wrap_styled_runs(&row, indent, out);
                proof {
                    assert(rows@.take(i + 1).drop_last() =~= rows@.take(i as int));
                    assert(mid + rows_lines(rows@.take(i + 1), d) =~= mid + rows_lines(
                        rows@.take(i as int),
                        d,
                    ) + crate::wrap::wrapped_lines(row_text(rows@[i as int]@, false), d));
                }
                i = i + 1;
            }
            proof {
                assert(rows@.take(i as int) =~= rows@);
                assert(mid + rows_lines(rows@, d) =~= base + block_lines(*block, d));
            }
        },
        Block::Rule => {
            let mut row = crate::wrap::indent_run(indent);
            let rule = InlineRun { text: "———".to_owned(), style: InlineStyle::default() };
            proof {
                crate::markdown::lemma_run_views_push(row@, rule);
            }
            row.push(rule);
            proof {
                let d = indent as nat;
                crate::markdown::lemma_line_views_push(out@, row);
                assert(crate::markdown::run_views(row@) =~= block_lines(*block, d)[0]);
                assert(crate::markdown::line_views(out@).push(block_lines(*block, d)[0])
                    =~= crate::markdown::line_views(out@) + block_lines(*block, d));
            }
            out.push(row);
        },
    }
}

/// Appends the lines of blocks that follow each other without a gap.
fn push_blocks(blocks: &Vec<Block>, indent: usize, out: &mut Vec<Vec<InlineRun>>)
    requires
        blocks_fit(blocks@, indent as nat),
    ensures
        crate::markdown::line_views(final(out)@) == crate::markdown::line_views(old(out)@)
            + blocks_lines(blocks@, indent as nat),
    decreases blocks,
{
    let ghost base = crate::markdown::line_views(out@);
    let ghost d = indent as nat;
    let mut i: usize = 0;
    assert(base + blocks_lines(blocks@.take(0), d) =~= base);
    while i < blocks.len()
        invariant
            i <= blocks@.len(),
            d == indent,
            blocks_fit(blocks@, d),
            crate::markdown::line_views(out@) == base + blocks_lines(blocks@.take(i as int), d),
        decreases blocks.len() - i,
    {
        thought_block_lines(&blocks[i], indent, out);
        proof {
            assert(blocks@.take(i + 1).drop_last() =~= blocks@.take(i as int));
            assert(base + blocks_lines(blocks@.take(i + 1), d) =~= base + blocks_lines(
                blocks@.take(i as int),
                d,
            ) + block_lines(blocks@[i as int], d));
        }
        i = i + 1;
    }
    assert(blocks@.take(i as int) =~= blocks@);
}

/// Appends the lines of a list.
fn push_items(
    items: &Vec<Vec<Block>>,
    start: Option<u64>,
    indent: usize,
    out: &mut Vec<Vec<InlineRun>>,
)
    requires
        block_fits(Block::List { ordered_start: start, items: *items }, indent as nat),
    ensures
        crate::markdown::line_views(final(out)@) == crate::markdown::line_views(old(out)@)
            + items_lines(items@, start, indent as nat),
    decreases items,
{
    let ghost base = crate::markdown::line_views(out@);
    let ghost d = indent as nat;
    let mut i: usize = 0;
    assert(base + items_lines(items@.take(0), start, d) =~= base);
    while i < items.len()
        invariant
            i <= items@.len(),
            d == indent,
            block_fits(Block::List { ordered_start: start, items: *items }, d),
            crate::markdown::line_views(out@) == base + items_lines(
                items@.take(i as int),
                start,
                d,
            ),
        decreases items.len() - i,
    {
        let mark = marker_text(start, i);
        let ghost m = marker(start, i as nat);
        let inner: usize = indent + crate::text::chars_of(mark.as_str()).len();
        let mut lines: Vec<Vec<InlineRun>> = Vec::new();
        push_blocks(&items[i], inner, &mut lines);
        proof {
            assert(crate::markdown::line_views(Seq::<Vec<InlineRun>>::empty()) + blocks_lines(
                items@[i as int]@,
                inner as nat,
            ) =~= blocks_lines(items@[i as int]@, inner as nat));
        }
        if lines.len() == 0 {
            let row = crate::wrap::indent_run(inner);
            lines.push(row);
            assert(crate::markdown::line_views(lines@) =~= empty_item(inner as nat));
        }
        let ghost shown = crate::markdown::line_views(lines@);
        let mut first: Vec<InlineRun> = Vec::new();
        std::mem::swap(&mut first, &mut lines[0]);
        assert(crate::markdown::run_views(first@) == shown[0]);
        let first = mark_line(first, indent, mark.as_str());
        lines[0] = first;
        proof {
            assert(crate::markdown::line_views(lines@) =~= with_marker(shown, d, m));
            assert(items@.take(i + 1).drop_last() =~= items@.take(i as int));
            crate::markdown::lemma_line_views_add(out@, lines@);
        }
        let ghost head = out@;
        let ghost tail = lines@;
        out.append(&mut lines);
        proof {
            assert(out@ =~= head + tail);
            assert(base + items_lines(items@.take(i + 1), start, d) =~= base + items_lines(
                items@.take(i as int),
                start,
                d,
            ) + with_marker(shown, d, m));
        }
        i = i + 1;
    }
    assert(items@.take(i as int) =~= items@);
}

/// Appends the lines of a quote.
fn push_quote(children: &Vec<Block>, indent: usize, out: &mut Vec<Vec<InlineRun>>)
    requires
        block_fits(Block::BlockQuote { children: *children }, indent as nat),
    ensures
        crate::markdown::line_views(final(out)@) == crate::markdown::line_views(old(out)@)
            + with_bars(quoted_lines(children@, indent as nat + 2), indent as nat),
    decreases children,
{
    let ghost d = indent as nat;
    let mut lines: Vec<Vec<InlineRun>> = Vec::new();
    let mut i: usize = 0;
    assert(crate::markdown::line_views(lines@) =~= quoted_lines(children@.take(0), d + 2));
    while i < children.len()
        invariant
            i <= children@.len(),
            d == indent,
            indent + 2 <= usize::MAX,
            blocks_fit(children@, d + 2),
            crate::markdown::line_views(lines@) == quoted_lines(children@.take(i as int), d + 2),
        decreases children.len() - i,
    {
        if i > 0 {
            let gap: Vec<InlineRun> = Vec::new();
            proof {
                crate::markdown::lemma_line_views_push(lines@, gap);
                assert(crate::markdown::run_views(gap@) =~= Seq::empty());
            }
            lines.push(gap);
        }
        thought_block_lines(&children[i], indent + 2, &mut lines);
        assert(children@.take(i + 1).drop_last() =~= children@.take(i as int));
        i = i + 1;
    }
    assert(children@.take(i as int) =~= children@);
    let ghost plain = crate::markdown::line_views(lines@);
    let ghost base = crate::markdown::line_views(out@);
    proof {
        lemma_quoted_led(children@, d + 2);
        assert(base + with_bars(plain, d).take(0) =~= base);
    }
    let ghost all = lines@;
    let n: usize = lines.len();
    let mut k: usize = 0;
    while k < n
        invariant
            k <= n,
            n == lines@.len(),
            d == indent,
            indent + 2 <= usize::MAX,
            plain == crate::markdown::line_views(all),
            all.len() == n,
            forall|j: int| k <= j < n ==> lines@[j] == all[j],
            all_led(plain, d + 2),
            crate::markdown::line_views(out@) == base + with_bars(plain, d).take(k as int),
        decreases n - k,
    {
        let mut line: Vec<InlineRun> = Vec::new();
        std::mem::swap(&mut line, &mut lines[k]);
        assert(line == all[k as int]);
        assert(plain[k as int] == crate::markdown::run_views(line@));
        let barred = bar_line(line, indent);
        proof {
            crate::markdown::lemma_line_views_push(out@, barred);
            assert(base + with_bars(plain, d).take(k + 1) =~= (base + with_bars(plain, d).take(
                k as int,
            )).push(with_bar(plain[k as int], d)));
        }
        out.push(barred);
        k = k + 1;
    }
    assert(with_bars(plain, d).take(k as int) =~= with_bars(plain, d));
}

/// Whether every block of `tree` fits at no indentation.
pub open spec fn tree_fits(tree: BlockTree) -> bool {
    forall|i: int| 0 <= i < tree.blocks@.len() ==> block_fits((#[trigger] tree.blocks@[i]).block, 0)
}

/// Whether `block` fits at `indent`.
fn check_block(block: &Block, indent: usize) -> (r: bool)
    ensures
        r == block_fits(*block, indent as nat),
    decreases block,
{
    match block {
        Block::List { ordered_start, items } => check_items(items, *ordered_start, indent),
        Block::BlockQuote { children } => {
            if indent > usize::MAX - 2 {
                false
            } else {
                check_blocks(children, indent + 2)
            }
        },
        _ => true,
    }
}

/// Whether each of `blocks` fits at `indent`.
fn check_blocks(blocks: &Vec<Block>, indent: usize) -> (r: bool)
    ensures
        r == blocks_fit(blocks@, indent as nat),
    decreases blocks,
{
    let mut i: usize = 0;
    while i < blocks.len()
        invariant
            i <= blocks@.len(),
            forall|j: int| 0 <= j < i ==> block_fits(#[trigger] blocks@[j], indent as nat),
        decreases blocks.len() - i,
    {
        if !check_block(&blocks[i], indent) {
            assert(!block_fits(blocks@[i as int], indent as nat));
            return false;
        }
        i = i + 1;
    }
    true
}

/// Whether a list fits at `indent`.
fn check_items(items: &Vec<Vec<Block>>, start: Option<u64>, indent: usize) -> (r: bool)
    ensures
        r == block_fits(Block::List { ordered_start: start, items: *items }, indent as nat),
    decreases items,
{
    let ghost list = Block::List { ordered_start: start, items: *items };
    if let Some(n) = start {
        if items.len() > 0 && (items.len() - 1) as u64 > u64::MAX - n {
            return false;
        }
    }
    let mut i: usize = 0;
    while i < items.len()
        invariant
            i <= items@.len(),
            list == (Block::List { ordered_start: start, items: *items }),
            start matches Some(n) ==> n + items@.len() <= u64::MAX + 1,
            forall|j: nat|
                j < i ==> {
                    let inner = indent as nat + (#[trigger] marker(start, j)).len();
                    &&& inner <= usize::MAX
                    &&& blocks_fit(items@[j as int]@, inner)
                },
        decreases items.len() - i,
    {
        let mark = marker_text(start, i);
        let len: usize = crate::text::chars_of(mark.as_str()).len();
        assert(len == marker(start, i as nat).len());
        if len > usize::MAX - indent {
            return false;
        }
        if !check_blocks(&items[i], indent + len) {
            return false;
        }
        i = i + 1;
    }
    true
}

/// Whether [`thought_lines`] can flatten `tree`: the numbers of its ordered
/// lists and the indentation of its blocks fit the machine's integers.
pub fn check_tree(tree: &BlockTree) -> (r: bool)
    ensures
        r == tree_fits(*tree),
{
    let mut i: usize = 0;
    while i < tree.blocks.len()
        invariant
            i <= tree.blocks@.len(),
            forall|j: int| 0 <= j < i ==> block_fits((#[trigger] tree.blocks@[j]).block, 0),
        decreases tree.blocks.len() - i,
    {
        if !check_block(&tree.blocks[i].block, 0) {
            assert(!block_fits(tree.blocks@[i as int].block, 0));
            return false;
        }
        i = i + 1;
    }
    true
}

/// Whether a line shows nothing.
pub open spec fn line_blank(line: Seq<crate::markdown::RunView>) -> bool {
    forall|i: int| 0 <= i < line.len() ==> crate::text::is_blank((#[trigger] line[i]).text)
}

/// `lines` without the blank ones at the end.
pub open spec fn drop_blank_tail(lines: Seq<Seq<crate::markdown::RunView>>) -> Seq<
    Seq<crate::markdown::RunView>,
>
    decreases lines.len(),
{
    if lines.len() > 0 && line_blank(lines.last()) {
        drop_blank_tail(lines.drop_last())
    } else {
        lines
    }
}

/// `lines` without the blank ones at the start.
pub open spec fn drop_blank_head(lines: Seq<Seq<crate::markdown::RunView>>) -> Seq<
    Seq<crate::markdown::RunView>,
>
    decreases lines.len(),
{
    if lines.len() > 0 && line_blank(lines[0]) {
        drop_blank_head(lines.skip(1))
    } else {
        lines
    }
}

/// The lines of top-level blocks, a blank line before each but the first to
/// show anything.
pub open spec fn tops_lines(tops: Seq<TopBlock>) -> Seq<Seq<crate::markdown::RunView>>
    decreases tops.len(),
{
    if tops.len() == 0 {
        Seq::empty()
    } else {
        let before = tops_lines(tops.drop_last());
        let gapped = if before.len() > 0 {
            before.push(Seq::empty())
        } else {
            before
        };
        gapped + block_lines(tops.last().block, 0)
    }
}

/// The lines of a parsed thought.
pub open spec fn thought_view(tree: BlockTree) -> Seq<Seq<crate::markdown::RunView>> {
    drop_blank_tail(tops_lines(tree.blocks@))
}

/// Whether a line shows nothing.
pub fn blank_line(line: &Vec<InlineRun>) -> (r: bool)
    ensures
        r == line_blank(crate::markdown::run_views(line@)),
{
    let ghost view = crate::markdown::run_views(line@);
    let mut i: usize = 0;
    while i < line.len()
        invariant
            i <= line@.len(),
            view == crate::markdown::run_views(line@),
            forall|j: int| 0 <= j < i ==> crate::text::is_blank((#[trigger] view[j]).text),
        decreases line.len() - i,
    {
        if !crate::text::blank(line[i].text.as_str()) {
            assert(!crate::text::is_blank(view[i as int].text));
            return false;
        }
        i = i + 1;
    }
    true
}

/// Flattens a thought's parsed markdown into wrapped, styled lines.
pub fn thought_lines(tree: &BlockTree) -> (out: Vec<Vec<InlineRun>>)
    requires
        tree_fits(*tree),
    ensures
        crate::markdown::line_views(out@) == thought_view(*tree),
{
    let mut out: Vec<Vec<InlineRun>> = Vec::new();
    let mut i: usize = 0;
    assert(crate::markdown::line_views(out@) =~= tops_lines(tree.blocks@.take(0)));
    while i < tree.blocks.len()
        invariant
            i <= tree.blocks@.len(),
            tree_fits(*tree),
            crate::markdown::line_views(out@) == tops_lines(tree.blocks@.take(i as int)),
        decreases tree.blocks.len() - i,
    {
        assert(crate::markdown::line_views(out@).len() == out@.len());
        if out.len() > 0 {
            let gap: Vec<InlineRun> = Vec::new();
            proof {
                crate::markdown::lemma_line_views_push(out@, gap);
                assert(crate::markdown::run_views(gap@) =~= Seq::empty());
            }
            out.push(gap);
        }
        thought_block_lines(&tree.blocks[i].block, 0, &mut out);
        assert(tree.blocks@.take(i + 1).drop_last() =~= tree.blocks@.take(i as int));
        i = i + 1;
    }
    assert(tree.blocks@.take(i as int) =~= tree.blocks@);
    while out.len() > 0 && blank_line(&out[out.len() - 1])
        invariant
            drop_blank_tail(crate::markdown::line_views(out@)) == thought_view(*tree),
        decreases out.len(),
    {
        let ghost before = out@;
        out.pop();
        assert(crate::markdown::line_views(out@) =~= crate::markdown::line_views(
            before,
        ).drop_last());
    }
    out
}

} // verus!
