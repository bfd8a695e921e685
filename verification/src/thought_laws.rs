//! What holds of the lines of every thought.
use vstd::prelude::*;

use crate::markdown::{Block, BlockTree, InlineRun, RunView, StyleView, TopBlock};
use crate::wrap::Glyph;

verus! {

/// The columns that an indentation leaves: 96 less the indentation, 16 at least.
pub open spec fn room_at(indent: nat) -> nat {
    if indent <= 80 {
        (96 - indent) as nat
    } else {
        16
    }
}

/// Whether a text is so many spaces.
pub open spec fn is_spaces(s: Seq<char>, n: nat) -> bool {
    s.len() == n && forall|i: int| 0 <= i < s.len() ==> #[trigger] s[i] == ' '
}

// ---------------------------------------------------------------------------
// Code
// ---------------------------------------------------------------------------

/// The code on a line: what stands behind its indentation.
pub open spec fn code_on(line: Seq<RunView>) -> Seq<char> {
    if line.len() > 1 {
        line[1].text
    } else {
        Seq::empty()
    }
}

/// The code on lines, one after the other.
pub open spec fn code_over(lines: Seq<Seq<RunView>>) -> Seq<char>
    decreases lines.len(),
{
    if lines.len() == 0 {
        Seq::empty()
    } else {
        code_over(lines.drop_last()) + code_on(lines.last())
    }
}

/// Whether a line is a line of code: an indentation, and behind it at most one run,
/// which is set as code and nothing else, is not empty and fits.
pub open spec fn is_code_line(line: Seq<RunView>, indent: nat) -> bool {
    &&& 1 <= line.len() <= 2
    &&& is_spaces(line[0].text, indent)
    &&& line.len() == 2 ==> {
        &&& 0 < line[1].text.len() <= room_at(indent)
        &&& line[1].style == (StyleView {
            bold: false,
            italic: false,
            code: true,
            strikethrough: false,
            link: None,
        })
    }
}

/// Whether the lines from one place to another hold a source line, character for
/// character, and all but the last of them are full.
pub open spec fn lays_line(
    shown: Seq<Seq<RunView>>,
    line: Seq<char>,
    indent: nat,
    from: int,
    to: int,
) -> bool {
    &&& 0 <= from < to <= shown.len()
    &&& code_over(shown.subrange(from, to)) == line
    &&& forall|i: int| from <= i < to - 1 ==> code_on(#[trigger] shown[i]).len() == room_at(indent)
}

/// Whether lines are lines of code that show source lines in order: those from one
/// cut to the next show one source line.
pub open spec fn lays_out(
    shown: Seq<Seq<RunView>>,
    source: Seq<Seq<char>>,
    indent: nat,
    cuts: Seq<int>,
) -> bool {
    &&& cuts.len() == source.len() + 1
    &&& cuts[0] == 0
    &&& cuts.last() == shown.len()
    &&& forall|k: int|
        0 <= k < source.len() ==> lays_line(
            shown,
            source[k],
            indent,
            #[trigger] cuts[k],
            cuts[k + 1],
        )
    &&& forall|i: int| 0 <= i < shown.len() ==> is_code_line(#[trigger] shown[i], indent)
}

proof fn lemma_code_over_add(a: Seq<Seq<RunView>>, b: Seq<Seq<RunView>>)
    ensures
        code_over(a + b) == code_over(a) + code_over(b),
    decreases b.len(),
{
    if b.len() == 0 {
        assert(a + b =~= a);
        assert(code_over(a) + code_over(b) =~= code_over(a));
    } else {
        lemma_code_over_add(a, b.drop_last());
        assert((a + b).drop_last() =~= a + b.drop_last());
        assert(code_over(a + b) =~= code_over(a) + code_over(b));
    }
}

proof fn lemma_code_rows(indent: nat, chunks: Seq<Seq<char>>)
    ensures
        code_over(crate::thoughts::code_rows(indent, chunks)) == crate::wrap::joined(chunks),
    decreases chunks.len(),
{
    let rows = crate::thoughts::code_rows(indent, chunks);
    if chunks.len() > 0 {
        lemma_code_rows(indent, chunks.drop_last());
        assert(rows.drop_last() =~= crate::thoughts::code_rows(indent, chunks.drop_last()));
        assert(code_on(rows.last()) =~= chunks.last());
    } else {
        assert(code_over(rows) =~= crate::wrap::joined(chunks));
    }
}

proof fn lemma_full_chunks(s: Seq<char>, cols: nat, i: int)
    requires
        cols > 0,
        0 <= i < crate::wrap::whole_chunks(s, cols).len(),
    ensures
        crate::wrap::whole_chunks(s, cols)[i].len() == cols,
    decreases s.len(),
{
    if cols <= s.len() && i > 0 {
        lemma_full_chunks(s.skip(cols as int), cols, i - 1);
    }
}

/// All pieces of a line that is cut are full but the last.
pub proof fn lemma_cut_full(line: Seq<char>, cols: nat, i: int)
    requires
        cols > 0,
        0 <= i < crate::wrap::cut_line(line, cols).len() - 1,
    ensures
        crate::wrap::cut_line(line, cols)[i].len() == cols,
{
    lemma_full_chunks(line, cols, i);
}

/// A line that is cut has a piece at least.
pub proof fn lemma_cut_some(line: Seq<char>, cols: nat)
    requires
        cols > 0,
    ensures
        crate::wrap::cut_line(line, cols).len() > 0,
{
    crate::wrap::law_cut_line_is_the_line(line, cols);
    if crate::wrap::cut_line(line, cols).len() == 0 {
        assert(crate::wrap::joined(crate::wrap::cut_line(line, cols)).len() == 0);
    }
}

proof fn lemma_code_cuts(lines: Seq<Seq<char>>, indent: nat) -> (cuts: Seq<int>)
    ensures
        lays_out(crate::thoughts::code_lines(lines, indent), lines, indent, cuts),
    decreases lines.len(),
{
    let shown = crate::thoughts::code_lines(lines, indent);
    if lines.len() == 0 {
        assert(shown =~= Seq::empty());
        let cuts: Seq<int> = seq![0int];
        assert(lays_out(shown, lines, indent, cuts));
        cuts
    } else {
        let init = lines.drop_last();
        let line = lines.last();
        let room = crate::wrap::budget_at(indent);
        assert(room == room_at(indent));
        let before = crate::thoughts::code_lines(init, indent);
        let earlier = lemma_code_cuts(init, indent);
        let chunks = crate::wrap::cut_line(line, room);
        let rows = crate::thoughts::code_rows(indent, chunks);
        lemma_cut_some(line, room);
        crate::wrap::law_cut_line_is_the_line(line, room);
        lemma_code_rows(indent, chunks);
        let cuts = earlier.push(shown.len() as int);
        assert(shown == before + rows);
        let n = init.len();
        assert forall|k: int| 0 <= k < lines.len() implies lays_line(
            shown,
            lines[k],
            indent,
            #[trigger] cuts[k],
            cuts[k + 1],
        ) by {
            if k < n {
                assert(earlier[k] == cuts[k]);
                assert(earlier[k + 1] == cuts[k + 1]);
                assert(lays_line(before, init[k], indent, earlier[k], earlier[k + 1]));
                assert(shown.subrange(cuts[k], cuts[k + 1]) =~= before.subrange(
                    earlier[k],
                    earlier[k + 1],
                ));
                assert forall|i: int| cuts[k] <= i < cuts[k + 1] - 1 implies code_on(
                    #[trigger] shown[i],
                ).len() == room_at(indent) by {
                    assert(shown[i] == before[i]);
                }
            } else {
                assert(shown.subrange(cuts[k], cuts[k + 1]) =~= rows);
                assert forall|i: int| cuts[k] <= i < cuts[k + 1] - 1 implies code_on(
                    #[trigger] shown[i],
                ).len() == room_at(indent) by {
                    lemma_cut_full(line, room, i - before.len());
                    assert(shown[i] == crate::thoughts::code_row(
                        indent,
                        chunks[i - before.len()],
                    ));
                }
            }
        }
        assert forall|i: int| 0 <= i < shown.len() implies is_code_line(
            #[trigger] shown[i],
            indent,
        ) by {
            if i < before.len() {
                assert(shown[i] == before[i]);
            } else {
                let c = chunks[i - before.len()];
                assert(shown[i] == crate::thoughts::code_row(indent, c));
                if line.len() > 0 {
                    assert(0 < c.len() <= room);
                } else {
                    assert(chunks =~= seq![line]);
                }
            }
        }
        assert(cuts[0] == 0);
        assert(lays_out(shown, lines, indent, cuts));
        cuts
    }
}

/// A code block shows its code verbatim: every line of the code stands on lines of
/// its own, one or as many as it fills, whose runs of code are that line, character
/// for character, white space at either end too; none is wider than the room.
pub proof fn law_code_is_shown_verbatim(language: Option<String>, code: String, indent: nat)
    ensures
        exists|cuts: Seq<int>| #[trigger]
            lays_out(
                crate::thoughts::block_lines(Block::CodeBlock { language, code }, indent),
                crate::text::lines(code@),
                indent,
                cuts,
            ),
{
    let cuts = lemma_code_cuts(crate::text::lines(code@), indent);
    assert(lays_out(
        crate::thoughts::block_lines(Block::CodeBlock { language, code }, indent),
        crate::text::lines(code@),
        indent,
        cuts,
    ));
}

// ---------------------------------------------------------------------------
// Every character
// ---------------------------------------------------------------------------

/// What stands behind the indentation of a line, or behind what took its place.
pub open spec fn body(line: Seq<RunView>) -> Seq<RunView> {
    if line.len() > 0 {
        line.skip(1)
    } else {
        line
    }
}

/// The characters to see behind the indentation of lines, with their styles.
pub open spec fn ink(lines: Seq<Seq<RunView>>) -> Seq<Glyph>
    decreases lines.len(),
{
    if lines.len() == 0 {
        Seq::empty()
    } else {
        ink(lines.drop_last()) + crate::wrap::solid(crate::wrap::flat(body(lines.last())))
    }
}

/// Runs as they are, or in bold.
pub open spec fn set_in(runs: Seq<InlineRun>, bold: bool) -> Seq<RunView> {
    Seq::new(
        runs.len(),
        |i: int|
            RunView {
                text: runs[i].text@,
                style: StyleView { bold: bold || runs[i].style@.bold, ..runs[i].style@ },
            },
    )
}

/// The characters to see of runs.
pub open spec fn ink_of_runs(runs: Seq<InlineRun>, bold: bool) -> Seq<Glyph> {
    crate::wrap::solid(crate::wrap::flat(set_in(runs, bold)))
}

/// The characters to see of a row of cells: a dot between each two.
pub open spec fn ink_of_cells(cells: Seq<Vec<InlineRun>>, bold: bool) -> Seq<Glyph>
    decreases cells.len(),
{
    if cells.len() == 0 {
        Seq::empty()
    } else {
        ink_of_cells(cells.drop_last(), bold) + (if cells.len() > 1 {
            seq![Glyph { ch: '·', style: crate::markdown::plain_style() }]
        } else {
            Seq::empty()
        }) + ink_of_runs(cells.last()@, bold)
    }
}

/// The characters to see of the rows of a table.
pub open spec fn ink_of_rows(rows: Seq<Vec<Vec<InlineRun>>>) -> Seq<Glyph>
    decreases rows.len(),
{
    if rows.len() == 0 {
        Seq::empty()
    } else {
        ink_of_rows(rows.drop_last()) + ink_of_cells(rows.last()@, false)
    }
}

/// The characters to see of a block: its text in its styles, a heading and the head
/// of a table in bold, code as code, and what is nested in order.
pub open spec fn ink_of_block(block: Block) -> Seq<Glyph>
    decreases block,
{
    match block {
        Block::Paragraph { runs } => ink_of_runs(runs@, false),
        Block::Heading { level, runs } => ink_of_runs(runs@, true),
        Block::CodeBlock { language, code } => crate::wrap::solid(
            crate::wrap::glyphs(
                code@,
                StyleView {
                    bold: false,
                    italic: false,
                    code: true,
                    strikethrough: false,
                    link: None,
                },
            ),
        ),
        Block::List { ordered_start, items } => ink_of_items(items@),
        Block::BlockQuote { children } => ink_of_blocks(children@),
        Block::Table { header, rows } => ink_of_cells(header@, true) + ink_of_rows(rows@),
        Block::Rule => crate::wrap::glyphs("———"@, crate::markdown::plain_style()),
    }
}

/// The characters to see of blocks.
pub open spec fn ink_of_blocks(blocks: Seq<Block>) -> Seq<Glyph>
    decreases blocks,
{
    if blocks.len() == 0 {
        Seq::empty()
    } else {
        ink_of_blocks(blocks.drop_last()) + ink_of_block(blocks.last())
    }
}

/// The characters to see of the items of a list, without their markers.
pub open spec fn ink_of_items(items: Seq<Vec<Block>>) -> Seq<Glyph>
    decreases items,
{
    if items.len() == 0 {
        Seq::empty()
    } else {
        ink_of_items(items.drop_last()) + ink_of_blocks(items.last()@)
    }
}

proof fn lemma_flat_one(run: RunView)
    ensures
        crate::wrap::flat(seq![run]) == crate::wrap::glyphs(run.text, run.style),
{
    let one: Seq<RunView> = seq![run];
    let none: Seq<RunView> = Seq::empty();
    assert(one.drop_last() =~= none);
    assert(crate::wrap::flat(none) =~= Seq::<Glyph>::empty());
    assert(crate::wrap::flat(one) =~= crate::wrap::glyphs(run.text, run.style));
}

proof fn lemma_solid_one(g: Glyph)
    ensures
        crate::wrap::solid(seq![g]) == if crate::text::is_white(g.ch) {
            Seq::<Glyph>::empty()
        } else {
            seq![g]
        },
{
    let one: Seq<Glyph> = seq![g];
    let none: Seq<Glyph> = Seq::empty();
    assert(one.drop_last() =~= none);
    assert(crate::wrap::solid(none) =~= none);
    assert(none.push(g) =~= one);
}

proof fn lemma_ink_push(lines: Seq<Seq<RunView>>, line: Seq<RunView>)
    ensures
        ink(lines.push(line)) == ink(lines) + crate::wrap::solid(crate::wrap::flat(body(line))),
{
    assert(lines.push(line).drop_last() =~= lines);
}

proof fn lemma_ink_add(a: Seq<Seq<RunView>>, b: Seq<Seq<RunView>>)
    ensures
        ink(a + b) == ink(a) + ink(b),
    decreases b.len(),
{
    if b.len() == 0 {
        assert(a + b =~= a);
        assert(ink(a) + ink(b) =~= ink(a));
    } else {
        lemma_ink_add(a, b.drop_last());
        assert((a + b).drop_last() =~= a + b.drop_last());
        assert(ink(a + b) =~= ink(a) + ink(b));
    }
}

proof fn lemma_ink_by_body(a: Seq<Seq<RunView>>, b: Seq<Seq<RunView>>)
    requires
        a.len() == b.len(),
        forall|i: int| 0 <= i < a.len() ==> body(#[trigger] a[i]) == body(b[i]),
    ensures
        ink(a) == ink(b),
    decreases a.len(),
{
    if a.len() > 0 {
        let x = a.drop_last();
        let y = b.drop_last();
        assert forall|i: int| 0 <= i < x.len() implies body(#[trigger] x[i]) == body(y[i]) by {
            assert(x[i] == a[i]);
        }
        lemma_ink_by_body(x, y);
        assert(body(a[a.len() - 1]) == body(b[b.len() - 1]));
    }
}

proof fn lemma_ink_finished(indent: nat, lines: Seq<Seq<Glyph>>)
    ensures
        ink(crate::wrap::all_finished(indent, lines)) == crate::wrap::solid(
            crate::wrap::joined(lines),
        ),
    decreases lines.len(),
{
    let shown = crate::wrap::all_finished(indent, lines);
    if lines.len() == 0 {
        assert(ink(shown) =~= Seq::empty());
    } else {
        let init = lines.drop_last();
        lemma_ink_finished(indent, init);
        assert(shown.drop_last() =~= crate::wrap::all_finished(indent, init));
        assert(body(shown.last()) =~= crate::wrap::runs_of(lines.last()));
        crate::wrap::law_runs_set_the_line(lines.last());
        crate::wrap::lemma_solid_add(crate::wrap::joined(init), lines.last());
    }
}

proof fn lemma_ink_wrapped(text: Seq<Glyph>, indent: nat)
    ensures
        ink(crate::wrap::wrapped_lines(text, indent)) == crate::wrap::solid(text),
{
    let room = crate::wrap::budget_at(indent);
    lemma_ink_finished(indent, crate::wrap::wrapped(text, room));
    crate::wrap::law_wrapping_keeps_the_text(text, room);
}

proof fn lemma_glyphs_add(a: Seq<char>, b: Seq<char>, style: StyleView)
    ensures
        crate::wrap::glyphs(a + b, style) == crate::wrap::glyphs(a, style) + crate::wrap::glyphs(
            b,
            style,
        ),
{
    assert(crate::wrap::glyphs(a + b, style) =~= crate::wrap::glyphs(a, style)
        + crate::wrap::glyphs(b, style));
}

spec fn code_ink(s: Seq<char>) -> Seq<Glyph> {
    crate::wrap::solid(crate::wrap::glyphs(s, crate::markdown::code_style()))
}

proof fn lemma_code_ink_add(a: Seq<char>, b: Seq<char>)
    ensures
        code_ink(a + b) == code_ink(a) + code_ink(b),
{
    let style = crate::markdown::code_style();
    lemma_glyphs_add(a, b, style);
    crate::wrap::lemma_solid_add(crate::wrap::glyphs(a, style), crate::wrap::glyphs(b, style));
}

proof fn lemma_code_ink_white(c: char)
    requires
        crate::text::is_white(c),
    ensures
        code_ink(seq![c]) == Seq::<Glyph>::empty(),
{
    let g = crate::wrap::glyphs(seq![c], crate::markdown::code_style());
    assert(g.drop_last() =~= Seq::<Glyph>::empty());
    assert(crate::wrap::solid(g.drop_last()) =~= Seq::<Glyph>::empty());
}

proof fn lemma_code_ink_empty()
    ensures
        code_ink(Seq::<char>::empty()) == Seq::<Glyph>::empty(),
{
    assert(crate::wrap::glyphs(Seq::<char>::empty(), crate::markdown::code_style())
        =~= Seq::<Glyph>::empty());
}

proof fn lemma_ink_code_rows(indent: nat, chunks: Seq<Seq<char>>)
    ensures
        ink(crate::thoughts::code_rows(indent, chunks)) == code_ink(crate::wrap::joined(chunks)),
    decreases chunks.len(),
{
    let rows = crate::thoughts::code_rows(indent, chunks);
    if chunks.len() == 0 {
        lemma_code_ink_empty();
        assert(ink(rows) =~= Seq::empty());
    } else {
        let init = chunks.drop_last();
        lemma_ink_code_rows(indent, init);
        assert(rows.drop_last() =~= crate::thoughts::code_rows(indent, init));
        lemma_code_ink_add(crate::wrap::joined(init), chunks.last());
        let tail = body(rows.last());
        if chunks.last().len() == 0 {
            assert(tail =~= Seq::empty());
            assert(crate::wrap::flat(tail) =~= Seq::empty());
            assert(chunks.last() =~= Seq::empty());
            lemma_code_ink_empty();
        } else {
            let run = RunView { text: chunks.last(), style: crate::markdown::code_style() };
            assert(tail =~= seq![run]);
            lemma_flat_one(run);
        }
    }
}

proof fn lemma_ink_code_lines(lines: Seq<Seq<char>>, indent: nat)
    ensures
        ink(crate::thoughts::code_lines(lines, indent)) == code_ink(crate::wrap::joined(lines)),
    decreases lines.len(),
{
    if lines.len() == 0 {
        lemma_code_ink_empty();
        assert(ink(crate::thoughts::code_lines(lines, indent)) =~= Seq::empty());
    } else {
        let init = lines.drop_last();
        let room = crate::wrap::budget_at(indent);
        let chunks = crate::wrap::cut_line(lines.last(), room);
        lemma_ink_code_lines(init, indent);
        lemma_ink_code_rows(indent, chunks);
        crate::wrap::law_cut_line_is_the_line(lines.last(), room);
        lemma_ink_add(
            crate::thoughts::code_lines(init, indent),
            crate::thoughts::code_rows(indent, chunks),
        );
        lemma_code_ink_add(crate::wrap::joined(init), lines.last());
    }
}

proof fn lemma_code_ink_pieces(s: Seq<char>)
    ensures
        code_ink(crate::wrap::joined(crate::text::pieces(s, crate::text::at_newline())))
            == code_ink(s),
    decreases s.len(),
{
    let cut = crate::text::at_newline();
    let parts = crate::text::pieces(s, cut);
    if s.len() == 0 {
        crate::wrap::lemma_joined_one(Seq::<char>::empty());
        assert(s =~= Seq::empty());
    } else {
        let t = s.drop_last();
        let before = crate::text::pieces(t, cut);
        crate::text::lemma_pieces_nonempty(t, cut);
        lemma_code_ink_pieces(t);
        assert(t + seq![s.last()] =~= s);
        lemma_code_ink_add(t, seq![s.last()]);
        if s.last() == '\n' {
            crate::wrap::lemma_joined_push(before, Seq::<char>::empty());
            assert(crate::wrap::joined(before) + Seq::<char>::empty() =~= crate::wrap::joined(
                before,
            ));
            lemma_code_ink_white('\n');
            assert(code_ink(t) + Seq::<Glyph>::empty() =~= code_ink(t));
        } else {
            assert(parts.drop_last() =~= before.drop_last());
            assert(crate::wrap::joined(parts) =~= crate::wrap::joined(before) + seq![s.last()]);
            lemma_code_ink_add(crate::wrap::joined(before), seq![s.last()]);
        }
    }
}

proof fn lemma_code_ink_alike(a: Seq<Seq<char>>, b: Seq<Seq<char>>)
    requires
        a.len() == b.len(),
        forall|i: int| 0 <= i < a.len() ==> code_ink(#[trigger] a[i]) == code_ink(b[i]),
    ensures
        code_ink(crate::wrap::joined(a)) == code_ink(crate::wrap::joined(b)),
    decreases a.len(),
{
    if a.len() > 0 {
        let x = a.drop_last();
        let y = b.drop_last();
        assert forall|i: int| 0 <= i < x.len() implies code_ink(#[trigger] x[i]) == code_ink(
            y[i],
        ) by {
            assert(x[i] == a[i]);
        }
        lemma_code_ink_alike(x, y);
        assert(code_ink(a[a.len() - 1]) == code_ink(b[b.len() - 1]));
        lemma_code_ink_add(crate::wrap::joined(x), a.last());
        lemma_code_ink_add(crate::wrap::joined(y), b.last());
    }
}

proof fn lemma_code_ink_lines(s: Seq<char>)
    ensures
        code_ink(crate::wrap::joined(crate::text::lines(s))) == code_ink(s),
{
    let parts = crate::text::pieces(s, crate::text::at_newline());
    let lines = crate::text::lines(s);
    crate::text::lemma_pieces_nonempty(s, crate::text::at_newline());
    lemma_code_ink_pieces(s);
    let kept = parts.take(lines.len() as int);
    assert forall|i: int| 0 <= i < lines.len() implies code_ink(#[trigger] lines[i]) == code_ink(
        kept[i],
    ) by {
        let p = parts[i];
        if i < parts.len() - 1 && p.len() > 0 && p.last() == '\r' {
            assert(p.drop_last() + seq!['\r'] =~= p);
            lemma_code_ink_add(p.drop_last(), seq!['\r']);
            lemma_code_ink_white('\r');
            assert(code_ink(p.drop_last()) + Seq::<Glyph>::empty() =~= code_ink(p.drop_last()));
        }
    }
    lemma_code_ink_alike(lines, kept);
    if parts.last().len() == 0 {
        assert(kept =~= parts.drop_last());
        assert(crate::wrap::joined(kept) + parts.last() =~= crate::wrap::joined(kept));
    } else {
        assert(kept =~= parts);
    }
}

proof fn lemma_ink_cells(cells: Seq<Vec<InlineRun>>, bold: bool)
    ensures
        crate::wrap::solid(crate::thoughts::row_text(cells, bold)) == ink_of_cells(cells, bold),
    decreases cells.len(),
{
    if cells.len() == 0 {
        assert(crate::wrap::solid(crate::thoughts::row_text(cells, bold)) =~= Seq::empty());
    } else {
        let init = cells.drop_last();
        lemma_ink_cells(init, bold);
        let head = crate::thoughts::row_text(init, bold);
        let runs = crate::thoughts::all_emboldened(cells.last()@, bold);
        assert(runs =~= set_in(cells.last()@, bold));
        let plain = crate::markdown::plain_style();
        let dot = crate::wrap::glyphs(" · "@, plain);
        let mark = Glyph { ch: '·', style: plain };
        if cells.len() > 1 {
            reveal_strlit(" · ");
            let space = Glyph { ch: ' ', style: plain };
            assert(dot =~= seq![space, mark, space]);
            assert(dot =~= seq![space] + seq![mark] + seq![space]);
            lemma_solid_one(space);
            lemma_solid_one(mark);
            crate::wrap::lemma_solid_add(seq![space], seq![mark]);
            crate::wrap::lemma_solid_add(seq![space] + seq![mark], seq![space]);
            assert(crate::wrap::solid(dot) =~= seq![mark]);
            crate::wrap::lemma_solid_add(head, dot);
            crate::wrap::lemma_solid_add(head + dot, crate::wrap::flat(runs));
        } else {
            let none: Seq<Glyph> = Seq::empty();
            assert(head + none =~= head);
            crate::wrap::lemma_solid_add(head, crate::wrap::flat(runs));
            assert(ink_of_cells(init, bold) + none =~= ink_of_cells(init, bold));
        }
    }
}

proof fn lemma_ink_rows(rows: Seq<Vec<Vec<InlineRun>>>, indent: nat)
    ensures
        ink(crate::thoughts::rows_lines(rows, indent)) == ink_of_rows(rows),
    decreases rows.len(),
{
    if rows.len() == 0 {
        assert(ink(crate::thoughts::rows_lines(rows, indent)) =~= Seq::empty());
    } else {
        let init = rows.drop_last();
        let text = crate::thoughts::row_text(rows.last()@, false);
        lemma_ink_rows(init, indent);
        lemma_ink_wrapped(text, indent);
        lemma_ink_cells(rows.last()@, false);
        lemma_ink_add(
            crate::thoughts::rows_lines(init, indent),
            crate::wrap::wrapped_lines(text, indent),
        );
    }
}

/// A block shows every character of its text that can be seen, in order and in its
/// style, and nothing else behind its indentation, wherever its lines break.
pub proof fn law_a_block_shows_its_text(block: Block, indent: nat)
    ensures
        ink(crate::thoughts::block_lines(block, indent)) == ink_of_block(block),
    decreases block,
{
    let lines = crate::thoughts::block_lines(block, indent);
    match block {
        Block::Paragraph { runs } => {
            lemma_ink_wrapped(
                crate::wrap::flat(crate::markdown::run_views(runs@)),
                indent,
            );
            assert(crate::markdown::run_views(runs@) =~= set_in(runs@, false));
        },
        Block::Heading { level, runs } => {
            lemma_ink_wrapped(
                crate::wrap::flat(crate::thoughts::all_emboldened(runs@, true)),
                indent,
            );
            assert(crate::thoughts::all_emboldened(runs@, true) =~= set_in(runs@, true));
        },
        Block::CodeBlock { language, code } => {
            lemma_ink_code_lines(crate::text::lines(code@), indent);
            lemma_code_ink_lines(code@);
        },
        Block::List { ordered_start, items } => {
            lemma_ink_items(items@, ordered_start, indent);
        },
        Block::BlockQuote { children } => {
            let plain = crate::thoughts::quoted_lines(children@, indent + 2);
            lemma_ink_quoted(children@, indent + 2);
            assert forall|i: int| 0 <= i < lines.len() implies body(#[trigger] lines[i]) == body(
                plain[i],
            ) by {
                assert(body(lines[i]) =~= body(plain[i]));
            }
            lemma_ink_by_body(lines, plain);
        },
        Block::Table { header, rows } => {
            let text = crate::thoughts::row_text(header@, true);
            lemma_ink_wrapped(text, indent);
            lemma_ink_cells(header@, true);
            lemma_ink_rows(rows@, indent);
            lemma_ink_add(
                crate::wrap::wrapped_lines(text, indent),
                crate::thoughts::rows_lines(rows@, indent),
            );
        },
        Block::Rule => {
            let plain = crate::markdown::plain_style();
            let run = RunView { text: "———"@, style: plain };
            assert(lines.drop_last() =~= Seq::empty());
            assert(body(lines.last()) =~= seq![run]);
            lemma_flat_one(run);
            let g = crate::wrap::glyphs("———"@, plain);
            reveal_strlit("———");
            let dash = Glyph { ch: '—', style: plain };
            assert(g =~= seq![dash] + seq![dash] + seq![dash]);
            lemma_solid_one(dash);
            crate::wrap::lemma_solid_add(seq![dash], seq![dash]);
            crate::wrap::lemma_solid_add(seq![dash] + seq![dash], seq![dash]);
            assert(crate::wrap::solid(g) =~= g);
            assert(ink(lines.drop_last()) =~= Seq::<Glyph>::empty());
            assert(ink(lines) =~= g);
        },
    }
}

proof fn lemma_ink_blocks(blocks: Seq<Block>, indent: nat)
    ensures
        ink(crate::thoughts::blocks_lines(blocks, indent)) == ink_of_blocks(blocks),
    decreases blocks,
{
    if blocks.len() == 0 {
        assert(ink(crate::thoughts::blocks_lines(blocks, indent)) =~= Seq::empty());
    } else {
        lemma_ink_blocks(blocks.drop_last(), indent);
        law_a_block_shows_its_text(blocks.last(), indent);
        lemma_ink_add(
            crate::thoughts::blocks_lines(blocks.drop_last(), indent),
            crate::thoughts::block_lines(blocks.last(), indent),
        );
    }
}

proof fn lemma_ink_items(items: Seq<Vec<Block>>, start: Option<u64>, indent: nat)
    ensures
        ink(crate::thoughts::items_lines(items, start, indent)) == ink_of_items(items),
    decreases items,
{
    if items.len() == 0 {
        assert(ink(crate::thoughts::items_lines(items, start, indent)) =~= Seq::empty());
    } else {
        let init = items.drop_last();
        let mark = crate::thoughts::marker(start, (items.len() - 1) as nat);
        let inner = indent + mark.len();
        let lines = crate::thoughts::blocks_lines(items.last()@, inner);
        lemma_ink_items(init, start, indent);
        lemma_ink_blocks(items.last()@, inner);
        let shown = if lines.len() == 0 {
            crate::thoughts::empty_item(inner)
        } else {
            lines
        };
        if lines.len() == 0 {
            assert(shown.drop_last() =~= Seq::empty());
            assert(body(shown.last()) =~= Seq::empty());
            assert(crate::wrap::flat(body(shown.last())) =~= Seq::<Glyph>::empty());
            assert(ink(shown.drop_last()) =~= Seq::<Glyph>::empty());
            assert(ink(lines) =~= Seq::<Glyph>::empty());
            assert(ink(shown) =~= Seq::<Glyph>::empty());
        }
        let marked = crate::thoughts::with_marker(shown, indent, mark);
        assert forall|i: int| 0 <= i < marked.len() implies body(#[trigger] marked[i]) == body(
            shown[i],
        ) by {
            assert(body(marked[i]) =~= body(shown[i]));
        }
        lemma_ink_by_body(marked, shown);
        lemma_ink_add(crate::thoughts::items_lines(init, start, indent), marked);
    }
}

proof fn lemma_ink_gap(lines: Seq<Seq<RunView>>)
    ensures
        ink(lines.push(Seq::empty())) == ink(lines),
{
    let gap: Seq<RunView> = Seq::empty();
    lemma_ink_push(lines, gap);
    assert(body(gap) =~= Seq::empty());
    assert(crate::wrap::flat(body(gap)) =~= Seq::<Glyph>::empty());
    assert(crate::wrap::solid(crate::wrap::flat(body(gap))) =~= Seq::<Glyph>::empty());
    assert(ink(lines) + Seq::<Glyph>::empty() =~= ink(lines));
}

proof fn lemma_ink_quoted(blocks: Seq<Block>, indent: nat)
    ensures
        ink(crate::thoughts::quoted_lines(blocks, indent)) == ink_of_blocks(blocks),
    decreases blocks,
{
    if blocks.len() == 0 {
        assert(ink(crate::thoughts::quoted_lines(blocks, indent)) =~= Seq::empty());
    } else {
        let before = crate::thoughts::quoted_lines(blocks.drop_last(), indent);
        lemma_ink_quoted(blocks.drop_last(), indent);
        law_a_block_shows_its_text(blocks.last(), indent);
        lemma_ink_gap(before);
        let gapped = if blocks.len() > 1 {
            before.push(Seq::empty())
        } else {
            before
        };
        lemma_ink_add(gapped, crate::thoughts::block_lines(blocks.last(), indent));
    }
}

/// The characters to see of top-level blocks.
pub open spec fn ink_of_tops(tops: Seq<TopBlock>) -> Seq<Glyph>
    decreases tops.len(),
{
    if tops.len() == 0 {
        Seq::empty()
    } else {
        ink_of_tops(tops.drop_last()) + ink_of_block(tops.last().block)
    }
}

proof fn lemma_ink_tops(tops: Seq<TopBlock>)
    ensures
        ink(crate::thoughts::tops_lines(tops)) == ink_of_tops(tops),
    decreases tops.len(),
{
    if tops.len() == 0 {
        assert(ink(crate::thoughts::tops_lines(tops)) =~= Seq::empty());
    } else {
        let before = crate::thoughts::tops_lines(tops.drop_last());
        lemma_ink_tops(tops.drop_last());
        law_a_block_shows_its_text(tops.last().block, 0);
        lemma_ink_gap(before);
        let gapped = if before.len() > 0 {
            before.push(Seq::empty())
        } else {
            before
        };
        lemma_ink_add(gapped, crate::thoughts::block_lines(tops.last().block, 0));
    }
}

proof fn lemma_blank_has_no_ink(runs: Seq<RunView>)
    requires
        crate::thoughts::line_blank(runs),
    ensures
        crate::wrap::solid(crate::wrap::flat(runs)) == Seq::<Glyph>::empty(),
    decreases runs.len(),
{
    if runs.len() == 0 {
        assert(crate::wrap::flat(runs) =~= Seq::<Glyph>::empty());
    } else {
        let init = runs.drop_last();
        assert(crate::thoughts::line_blank(init)) by {
            assert forall|i: int| 0 <= i < init.len() implies crate::text::is_blank(
                (#[trigger] init[i]).text,
            ) by {
                assert(init[i] == runs[i]);
            }
        }
        lemma_blank_has_no_ink(init);
        let run = runs.last();
        assert(crate::text::is_blank(runs[runs.len() - 1].text));
        lemma_white_has_no_ink(run.text, run.style);
        crate::wrap::lemma_solid_add(
            crate::wrap::flat(init),
            crate::wrap::glyphs(run.text, run.style),
        );
        assert(Seq::<Glyph>::empty() + Seq::<Glyph>::empty() =~= Seq::<Glyph>::empty());
    }
}

proof fn lemma_white_has_no_ink(text: Seq<char>, style: StyleView)
    requires
        crate::text::is_blank(text),
    ensures
        crate::wrap::solid(crate::wrap::glyphs(text, style)) == Seq::<Glyph>::empty(),
    decreases text.len(),
{
    let g = crate::wrap::glyphs(text, style);
    if text.len() > 0 {
        let init = text.drop_last();
        assert forall|i: int| 0 <= i < init.len() implies crate::text::is_white(
            #[trigger] init[i],
        ) by {
            assert(init[i] == text[i]);
        }
        lemma_white_has_no_ink(init, style);
        assert(g.drop_last() =~= crate::wrap::glyphs(init, style));
        assert(crate::text::is_white(text[text.len() - 1]));
    } else {
        assert(g =~= Seq::<Glyph>::empty());
    }
}

/// `lines` up to the last one to see.
proof fn lemma_tail_dropped(lines: Seq<Seq<RunView>>)
    ensures
        ({
            let kept = crate::thoughts::drop_blank_tail(lines);
            &&& kept.len() <= lines.len()
            &&& kept == lines.take(kept.len() as int)
            &&& ink(kept) == ink(lines)
            &&& forall|i: int|
                kept.len() <= i < lines.len() ==> crate::thoughts::line_blank(#[trigger] lines[i])
            &&& kept.len() > 0 ==> !crate::thoughts::line_blank(kept.last())
        }),
    decreases lines.len(),
{
    let kept = crate::thoughts::drop_blank_tail(lines);
    if lines.len() > 0 && crate::thoughts::line_blank(lines.last()) {
        let init = lines.drop_last();
        lemma_tail_dropped(init);
        assert(kept =~= lines.take(kept.len() as int));
        let line = lines.last();
        assert(crate::thoughts::line_blank(body(line))) by {
            let b = body(line);
            assert forall|i: int| 0 <= i < b.len() implies crate::text::is_blank(
                (#[trigger] b[i]).text,
            ) by {
                if line.len() > 0 {
                    assert(b[i] == line[i + 1]);
                }
            }
        }
        lemma_blank_has_no_ink(body(line));
        assert(ink(init) + Seq::<Glyph>::empty() =~= ink(init));
        assert forall|i: int| kept.len() <= i < lines.len() implies crate::thoughts::line_blank(
            #[trigger] lines[i],
        ) by {
            if i < init.len() {
                assert(init[i] == lines[i]);
            }
        }
    } else {
        assert(kept =~= lines.take(kept.len() as int));
    }
}

/// A thought shows every character of its blocks that can be seen, in order and in
/// its style, and nothing else behind the indentation of its lines.
pub proof fn law_a_thought_shows_its_text(tree: BlockTree)
    ensures
        ink(crate::thoughts::thought_view(tree)) == ink_of_tops(tree.blocks@),
{
    lemma_ink_tops(tree.blocks@);
    lemma_tail_dropped(crate::thoughts::tops_lines(tree.blocks@));
}

// ---------------------------------------------------------------------------
// Blocks one after the other
// ---------------------------------------------------------------------------

/// Where the lines of a block begin: behind those of the block before it, with a
/// line between unless there are none before it.
pub open spec fn begins(tops: Seq<TopBlock>, i: int) -> int
    decreases i,
{
    if i <= 0 {
        0
    } else {
        let end = begins(tops, i - 1) + crate::thoughts::block_lines(tops[i - 1].block, 0).len();
        if end > 0 {
            end + 1
        } else {
            end
        }
    }
}

/// Whether the lines of a block stand where they begin, behind an empty line unless
/// they are the first.
pub open spec fn stands(lines: Seq<Seq<RunView>>, tops: Seq<TopBlock>, i: int) -> bool {
    let at = begins(tops, i);
    let mine = crate::thoughts::block_lines(tops[i].block, 0);
    &&& 0 <= at
    &&& at + mine.len() <= lines.len()
    &&& lines.subrange(at, at + mine.len()) == mine
    &&& at > 0 ==> lines[at - 1].len() == 0
}

proof fn lemma_tops_stand(tops: Seq<TopBlock>)
    ensures
        crate::thoughts::tops_lines(tops).len() == (if tops.len() == 0 {
            0
        } else {
            begins(tops, tops.len() - 1) + crate::thoughts::block_lines(
                tops.last().block,
                0,
            ).len()
        }),
        forall|i: int|
            0 <= i < tops.len() ==> #[trigger] stands(
                crate::thoughts::tops_lines(tops),
                tops,
                i,
            ),
    decreases tops.len(),
{
    if tops.len() > 0 {
        let init = tops.drop_last();
        let before = crate::thoughts::tops_lines(init);
        let all = crate::thoughts::tops_lines(tops);
        let n = init.len() as int;
        lemma_tops_stand(init);
        lemma_begins_alike(init, tops, n);
        if n > 0 {
            lemma_begins_alike(init, tops, n - 1);
            assert(init.last() == tops[n - 1]);
        }
        assert forall|i: int| 0 <= i < tops.len() implies #[trigger] stands(all, tops, i) by {
            let at = begins(tops, i);
            let mine = crate::thoughts::block_lines(tops[i].block, 0);
            lemma_begins_alike(init, tops, i);
            if i < n {
                assert(stands(before, init, i));
                assert(init[i] == tops[i]);
                assert(all.subrange(at, at + mine.len()) =~= before.subrange(
                    at,
                    at + mine.len(),
                ));
                if at > 0 {
                    assert(all[at - 1] == before[at - 1]);
                }
            } else {
                assert(all.subrange(at, at + mine.len()) =~= mine);
            }
        }
    }
}

proof fn lemma_begins_alike(a: Seq<TopBlock>, b: Seq<TopBlock>, i: int)
    requires
        a == b.drop_last(),
        b.len() > 0,
        0 <= i <= a.len(),
    ensures
        begins(a, i) == begins(b, i),
    decreases i,
{
    if i > 0 {
        lemma_begins_alike(a, b, i - 1);
        assert(a[i - 1] == b[i - 1]);
    }
}

/// Whether lines are those of blocks, each in its place, without the last ones,
/// which show nothing.
pub open spec fn cut_behind(
    shown: Seq<Seq<RunView>>,
    all: Seq<Seq<RunView>>,
    tops: Seq<TopBlock>,
) -> bool {
    &&& shown.len() <= all.len()
    &&& shown == all.take(shown.len() as int)
    &&& forall|i: int|
        shown.len() <= i < all.len() ==> crate::thoughts::line_blank(#[trigger] all[i])
    &&& forall|i: int| 0 <= i < tops.len() ==> #[trigger] stands(all, tops, i)
    &&& all.len() == (if tops.len() == 0 {
        0
    } else {
        begins(tops, tops.len() - 1) + crate::thoughts::block_lines(tops.last().block, 0).len()
    })
}

/// The blocks of a thought stand one after the other with an empty line between,
/// and the thought ends in the last line to see: what is cut off behind it shows
/// nothing.
pub proof fn law_blocks_stand_in_order(tree: BlockTree)
    ensures
        exists|all: Seq<Seq<RunView>>| #[trigger]
            cut_behind(crate::thoughts::thought_view(tree), all, tree.blocks@),
        crate::thoughts::thought_view(tree).len() > 0 ==> !crate::thoughts::line_blank(
            crate::thoughts::thought_view(tree).last(),
        ),
{
    let all = crate::thoughts::tops_lines(tree.blocks@);
    lemma_tail_dropped(all);
    lemma_tops_stand(tree.blocks@);
    assert(cut_behind(crate::thoughts::thought_view(tree), all, tree.blocks@));
}

// ---------------------------------------------------------------------------
// Markers and bars
// ---------------------------------------------------------------------------

/// The marker of an item: its number and a period, or a bullet.
pub open spec fn mark_of(start: Option<u64>, k: int) -> Seq<char> {
    match start {
        Some(n) => crate::text::decimal((n + k) as nat) + ". "@,
        None => "• "@,
    }
}

/// Whether an item stands from one place to another: it begins with its marker, and
/// its other lines hang under what stands behind the marker.
pub open spec fn marks_item(
    lines: Seq<Seq<RunView>>,
    mark: Seq<char>,
    indent: nat,
    from: int,
    to: int,
) -> bool {
    &&& 0 <= from < to <= lines.len()
    &&& lines[from].len() == 0 || lines[from][0].text == crate::wrap::spaces(indent) + mark
    &&& forall|i: int|
        from < i < to ==> crate::thoughts::led(#[trigger] lines[i], indent + mark.len())
}

/// Whether the items of a list stand one after the other, each from its cut to the
/// next.
pub open spec fn marks_items(
    lines: Seq<Seq<RunView>>,
    start: Option<u64>,
    items: int,
    indent: nat,
    cuts: Seq<int>,
) -> bool {
    &&& cuts.len() == items + 1
    &&& cuts[0] == 0
    &&& cuts.last() == lines.len()
    &&& forall|k: int|
        0 <= k < items ==> marks_item(
            lines,
            mark_of(start, k),
            indent,
            #[trigger] cuts[k],
            cuts[k + 1],
        )
}

proof fn lemma_blocks_led(blocks: Seq<Block>, indent: nat)
    ensures
        crate::thoughts::all_led(crate::thoughts::blocks_lines(blocks, indent), indent),
    decreases blocks.len(),
{
    let lines = crate::thoughts::blocks_lines(blocks, indent);
    if blocks.len() > 0 {
        let before = crate::thoughts::blocks_lines(blocks.drop_last(), indent);
        let mine = crate::thoughts::block_lines(blocks.last(), indent);
        lemma_blocks_led(blocks.drop_last(), indent);
        crate::thoughts::lemma_block_led(blocks.last(), indent);
        assert forall|i: int| 0 <= i < lines.len() implies crate::thoughts::led(
            #[trigger] lines[i],
            indent,
        ) by {
            if i < before.len() {
                assert(lines[i] == before[i]);
                assert(crate::thoughts::led(before[i], indent));
            } else {
                assert(lines[i] == mine[i - before.len()]);
                assert(crate::thoughts::led(mine[i - before.len()], indent));
            }
        }
    }
}

proof fn lemma_item_cuts(items: Seq<Vec<Block>>, start: Option<u64>, indent: nat) -> (cuts: Seq<
    int,
>)
    ensures
        marks_items(
            crate::thoughts::items_lines(items, start, indent),
            start,
            items.len() as int,
            indent,
            cuts,
        ),
    decreases items.len(),
{
    let lines = crate::thoughts::items_lines(items, start, indent);
    if items.len() == 0 {
        let cuts: Seq<int> = seq![0int];
        assert(marks_items(lines, start, 0, indent, cuts));
        cuts
    } else {
        let init = items.drop_last();
        let n = init.len() as int;
        let before = crate::thoughts::items_lines(init, start, indent);
        let earlier = lemma_item_cuts(init, start, indent);
        let mark = crate::thoughts::marker(start, n as nat);
        assert(mark == mark_of(start, n));
        let inner = indent + mark.len();
        let plain = crate::thoughts::blocks_lines(items.last()@, inner);
        lemma_blocks_led(items.last()@, inner);
        let shown = if plain.len() == 0 {
            crate::thoughts::empty_item(inner)
        } else {
            plain
        };
        let marked = crate::thoughts::with_marker(shown, indent, mark);
        assert(lines == before + marked);
        let cuts = earlier.push(lines.len() as int);
        assert forall|k: int| 0 <= k < items.len() implies marks_item(
            lines,
            mark_of(start, k),
            indent,
            #[trigger] cuts[k],
            cuts[k + 1],
        ) by {
            if k < n {
                assert(earlier[k] == cuts[k]);
                assert(earlier[k + 1] == cuts[k + 1]);
                assert(marks_item(before, mark_of(start, k), indent, earlier[k], earlier[k + 1]));
                assert(lines[cuts[k]] == before[earlier[k]]);
                assert forall|i: int| cuts[k] < i < cuts[k + 1] implies crate::thoughts::led(
                    #[trigger] lines[i],
                    indent + mark_of(start, k).len(),
                ) by {
                    assert(lines[i] == before[i]);
                }
            } else {
                assert(cuts[k] == before.len());
                assert(lines[cuts[k]] == marked[0]);
                assert forall|i: int| cuts[k] < i < cuts[k + 1] implies crate::thoughts::led(
                    #[trigger] lines[i],
                    inner,
                ) by {
                    let j = i - before.len();
                    assert(lines[i] == marked[j]);
                    assert(marked[j] == shown[j]);
                    assert(crate::thoughts::led(plain[j], inner));
                }
            }
        }
        assert(marks_items(lines, start, items.len() as int, indent, cuts));
        cuts
    }
}

/// Every item of a list begins on a line of its own with its marker, a bullet or
/// the number that it has in the list, and its other lines hang under its text.
pub proof fn law_items_begin_with_their_markers(
    ordered_start: Option<u64>,
    items: Vec<Vec<Block>>,
    indent: nat,
)
    ensures
        exists|cuts: Seq<int>| #[trigger]
            marks_items(
                crate::thoughts::block_lines(Block::List { ordered_start, items }, indent),
                ordered_start,
                items@.len() as int,
                indent,
                cuts,
            ),
{
    let cuts = lemma_item_cuts(items@, ordered_start, indent);
    assert(marks_items(
        crate::thoughts::block_lines(Block::List { ordered_start, items }, indent),
        ordered_start,
        items@.len() as int,
        indent,
        cuts,
    ));
}

/// Every line of a quote that shows anything has a bar and a space behind the
/// quote's own indentation, and what the quoted blocks show at two columns more
/// stands behind them.
pub proof fn law_quotes_have_their_bar(children: Vec<Block>, indent: nat, i: int)
    requires
        0 <= i < crate::thoughts::block_lines(Block::BlockQuote { children }, indent).len(),
        crate::thoughts::block_lines(Block::BlockQuote { children }, indent)[i].len() > 0,
    ensures
        ({
            let lead = crate::thoughts::block_lines(
                Block::BlockQuote { children },
                indent,
            )[i][0].text;
            &&& lead.len() >= indent + 2
            &&& forall|j: int| 0 <= j < indent ==> #[trigger] lead[j] == ' '
            &&& lead[indent as int] == '│'
            &&& lead[indent as int + 1] == ' '
        }),
{
    let plain = crate::thoughts::quoted_lines(children@, indent + 2);
    lemma_quoted_led(children@, indent + 2);
    assert(crate::thoughts::led(plain[i], indent + 2));
    reveal_strlit("│ ");
}

proof fn lemma_quoted_led(blocks: Seq<Block>, indent: nat)
    ensures
        crate::thoughts::all_led(crate::thoughts::quoted_lines(blocks, indent), indent),
    decreases blocks.len(),
{
    let lines = crate::thoughts::quoted_lines(blocks, indent);
    if blocks.len() > 0 {
        let before = crate::thoughts::quoted_lines(blocks.drop_last(), indent);
        let mine = crate::thoughts::block_lines(blocks.last(), indent);
        lemma_quoted_led(blocks.drop_last(), indent);
        crate::thoughts::lemma_block_led(blocks.last(), indent);
        let gapped = if blocks.len() > 1 {
            before.push(Seq::empty())
        } else {
            before
        };
        assert forall|i: int| 0 <= i < lines.len() implies crate::thoughts::led(
            #[trigger] lines[i],
            indent,
        ) by {
            if i < before.len() {
                assert(lines[i] == before[i]);
                assert(crate::thoughts::led(before[i], indent));
            } else if i >= gapped.len() {
                assert(lines[i] == mine[i - gapped.len()]);
                assert(crate::thoughts::led(mine[i - gapped.len()], indent));
            }
        }
    }
}

// ---------------------------------------------------------------------------
// Lines that are filled
// ---------------------------------------------------------------------------

/// How many characters a line begins with before its first white one.
pub open spec fn first_word(line: Seq<Glyph>) -> nat
    decreases line.len(),
{
    if line.len() == 0 || crate::text::is_white(line[0].ch) {
        0
    } else {
        1 + first_word(line.skip(1))
    }
}

/// Whether no line could have taken the first word of the next one.
pub open spec fn filled_up(lines: Seq<Seq<Glyph>>, room: nat) -> bool {
    forall|i: int|
        0 <= i < lines.len() - 1 ==> (#[trigger] lines[i]).len() + 1 + first_word(lines[i + 1])
            > room
}

proof fn lemma_first_word(word: Seq<Glyph>, rest: Seq<Glyph>)
    requires
        crate::wrap::unbroken(word),
        rest.len() > 0 ==> crate::text::is_white(rest[0].ch),
    ensures
        first_word(word + rest) == word.len(),
    decreases word.len(),
{
    if word.len() == 0 {
        assert(word + rest =~= rest);
    } else {
        let tail = word.skip(1);
        assert forall|i: int| 0 <= i < tail.len() implies !crate::text::is_white(
            (#[trigger] tail[i]).ch,
        ) by {
            assert(tail[i] == word[i + 1]);
        }
        lemma_first_word(tail, rest);
        assert((word + rest).skip(1) =~= tail + rest);
        assert(!crate::text::is_white(word[0].ch));
    }
}

proof fn lemma_first_word_alone(word: Seq<Glyph>)
    requires
        crate::wrap::unbroken(word),
    ensures
        first_word(word) == word.len(),
{
    lemma_first_word(word, Seq::empty());
    assert(word + Seq::<Glyph>::empty() =~= word);
}

proof fn lemma_first_word_keeps(line: Seq<Glyph>, rest: Seq<Glyph>)
    requires
        rest.len() > 0 && crate::text::is_white(rest[0].ch),
    ensures
        first_word(line + rest) == first_word(line),
    decreases line.len(),
{
    if line.len() == 0 {
        assert(line + rest =~= rest);
    } else if !crate::text::is_white(line[0].ch) {
        lemma_first_word_keeps(line.skip(1), rest);
        assert((line + rest).skip(1) =~= line.skip(1) + rest);
    }
}

proof fn lemma_filled_push(lines: Seq<Seq<Glyph>>, line: Seq<Glyph>, room: nat)
    requires
        filled_up(lines, room),
        lines.len() > 0 ==> lines.last().len() + 1 + first_word(line) > room,
    ensures
        filled_up(lines.push(line), room),
{
    let all = lines.push(line);
    assert forall|i: int| 0 <= i < all.len() - 1 implies (#[trigger] all[i]).len() + 1
        + first_word(all[i + 1]) > room by {
        if i < lines.len() - 1 {
            assert(lines[i].len() + 1 + first_word(lines[i + 1]) > room);
        }
    }
}

proof fn lemma_filled_chunks(lines: Seq<Seq<Glyph>>, s: Seq<Glyph>, room: nat)
    requires
        room > 0,
        crate::wrap::unbroken(s),
        filled_up(lines, room),
        s.len() > room || (lines.len() > 0 && lines.last().len() == room),
    ensures
        filled_up(lines + crate::wrap::whole_chunks(s, room), room),
        (lines + crate::wrap::whole_chunks(s, room)).len() > 0,
        (lines + crate::wrap::whole_chunks(s, room)).last().len() == room,
        crate::wrap::unbroken(crate::wrap::chunk_rest(s, room)),
    decreases s.len(),
{
    let n = room as int;
    let all = lines + crate::wrap::whole_chunks(s, room);
    if room <= s.len() {
        let first = s.take(n);
        let rest = s.skip(n);
        assert forall|i: int| 0 <= i < rest.len() implies !crate::text::is_white(
            (#[trigger] rest[i]).ch,
        ) by {
            assert(rest[i] == s[i + n]);
        }
        assert forall|i: int| 0 <= i < first.len() implies !crate::text::is_white(
            (#[trigger] first[i]).ch,
        ) by {
            assert(first[i] == s[i]);
        }
        lemma_first_word_alone(first);
        lemma_filled_push(lines, first, room);
        lemma_filled_chunks(lines.push(first), rest, room);
        assert(all =~= lines.push(first) + crate::wrap::whole_chunks(rest, room));
    } else {
        assert(all =~= lines);
    }
}

/// Where the open line is empty, the line before it is full or there is none.
spec fn open_is_due(f: crate::wrap::Fill, room: nat) -> bool {
    f.open.len() == 0 && f.done.len() > 0 ==> f.done.last().len() == room
}

proof fn lemma_place_filled(f: crate::wrap::Fill, word: Seq<Glyph>, room: nat)
    requires
        room > 0,
        word.len() > 0,
        crate::wrap::unbroken(word),
        open_is_due(f, room),
        filled_up(crate::wrap::closed_lines(f), room),
    ensures
        open_is_due(crate::wrap::place(f, word, room), room),
        filled_up(crate::wrap::closed_lines(crate::wrap::place(f, word, room)), room),
{
    let next = crate::wrap::place(f, word, room);
    let closed = crate::wrap::closed_lines(f);
    let done = crate::wrap::closed_lines(next);
    if word.len() > room {
        lemma_filled_chunks(closed, word, room);
        if next.open.len() > 0 {
            lemma_filled_push(next.done, next.open, room);
        }
    } else if f.open.len() == 0 {
        lemma_first_word_alone(word);
        lemma_filled_push(f.done, word, room);
    } else if f.open.len() + 1 + word.len() > room {
        lemma_first_word_alone(word);
        lemma_filled_push(closed, word, room);
    } else {
        let space = Glyph { ch: ' ', style: f.open.last().style };
        let tail = seq![space] + word;
        assert(next.open =~= f.open + tail);
        lemma_first_word_keeps(f.open, tail);
        assert forall|i: int| 0 <= i < done.len() - 1 implies (#[trigger] done[i]).len() + 1
            + first_word(done[i + 1]) > room by {
            assert(closed[i].len() + 1 + first_word(closed[i + 1]) > room);
            assert(done[i] == closed[i]);
        }
    }
}

proof fn lemma_fill_filled(words: Seq<Seq<Glyph>>, room: nat)
    requires
        room > 0,
        forall|i: int|
            0 <= i < words.len() ==> (#[trigger] words[i]).len() > 0 && crate::wrap::unbroken(
                words[i],
            ),
    ensures
        open_is_due(crate::wrap::fill(words, room), room),
        filled_up(crate::wrap::closed_lines(crate::wrap::fill(words, room)), room),
    decreases words.len(),
{
    if words.len() > 0 {
        let init = words.drop_last();
        assert forall|i: int| 0 <= i < init.len() implies (#[trigger] init[i]).len() > 0
            && crate::wrap::unbroken(init[i]) by {
            assert(init[i] == words[i]);
        }
        lemma_fill_filled(init, room);
        assert(words[words.len() - 1].len() > 0);
        lemma_place_filled(crate::wrap::fill(init, room), words.last(), room);
    }
}

proof fn lemma_one_piece(text: Seq<Glyph>)
    requires
        forall|i: int| 0 <= i < text.len() ==> (#[trigger] text[i]).ch != '\n',
    ensures
        crate::text::pieces(text, crate::wrap::at_break()) == seq![text],
    decreases text.len(),
{
    let cut = crate::wrap::at_break();
    if text.len() == 0 {
        assert(text =~= Seq::<Glyph>::empty());
    } else {
        let t = text.drop_last();
        assert forall|i: int| 0 <= i < t.len() implies (#[trigger] t[i]).ch != '\n' by {
            assert(t[i] == text[i]);
        }
        lemma_one_piece(t);
        assert(text[text.len() - 1].ch != '\n');
        assert(t.push(text.last()) =~= text);
        assert(crate::text::pieces(text, cut) =~= seq![text]);
    }
}

/// Wrapping fills its lines: between two line breaks no line has room for the first
/// word of the next one.
pub proof fn law_wrapped_lines_are_filled(text: Seq<Glyph>, room: nat)
    requires
        room > 0,
        forall|i: int| 0 <= i < text.len() ==> (#[trigger] text[i]).ch != '\n',
    ensures
        filled_up(crate::wrap::wrapped(text, room), room),
{
    lemma_one_piece(text);
    let one: Seq<Seq<Glyph>> = seq![text];
    assert(one.drop_last() =~= Seq::<Seq<Glyph>>::empty());
    let lines = crate::wrap::segment_lines(text, room);
    assert(crate::wrap::segments_lines(one.drop_last(), room) =~= Seq::<Seq<Glyph>>::empty());
    assert(crate::wrap::wrapped(text, room) =~= lines);
    let words = crate::text::words(text, crate::wrap::at_gap());
    crate::text::lemma_words_nonempty(text, crate::wrap::at_gap());
    crate::wrap::lemma_words_unbroken(text);
    lemma_fill_filled(words, room);
}

/// Every line of a paragraph has the room that its indentation leaves: an
/// indentation of spaces first, and behind it a line of the wrapped text.
pub proof fn law_wrapped_lines_have_their_indent(text: Seq<Glyph>, indent: nat, i: int)
    requires
        0 <= i < crate::wrap::wrapped_lines(text, indent).len(),
    ensures
        ({
            let line = crate::wrap::wrapped_lines(text, indent)[i];
            let lines = crate::wrap::wrapped(text, room_at(indent));
            &&& crate::wrap::wrapped_lines(text, indent).len() == lines.len()
            &&& line.len() > 0
            &&& is_spaces(line[0].text, indent)
            &&& line[0].style == crate::markdown::plain_style()
            &&& crate::wrap::flat(line.skip(1)) == lines[i]
        }),
{
    let lines = crate::wrap::wrapped(text, room_at(indent));
    assert(crate::wrap::budget_at(indent) == room_at(indent));
    crate::wrap::law_runs_set_the_line(lines[i]);
    let line = crate::wrap::wrapped_lines(text, indent)[i];
    assert(line.skip(1) =~= crate::wrap::runs_of(lines[i]));
}

// ---------------------------------------------------------------------------
// Words
// ---------------------------------------------------------------------------

/// The words of lines, in order.
pub open spec fn words_over(lines: Seq<Seq<Glyph>>) -> Seq<Seq<Glyph>>
    decreases lines.len(),
{
    if lines.len() == 0 {
        Seq::empty()
    } else {
        words_over(lines.drop_last()) + crate::text::words(lines.last(), crate::wrap::at_gap())
    }
}

proof fn lemma_words_over_push(lines: Seq<Seq<Glyph>>, line: Seq<Glyph>)
    ensures
        words_over(lines.push(line)) == words_over(lines) + crate::text::words(
            line,
            crate::wrap::at_gap(),
        ),
{
    assert(lines.push(line).drop_last() =~= lines);
}

proof fn lemma_word_alone(word: Seq<Glyph>)
    requires
        word.len() > 0,
        crate::wrap::unbroken(word),
    ensures
        crate::text::words(word, crate::wrap::at_gap()) == seq![word],
    decreases word.len(),
{
    let gap = crate::wrap::at_gap();
    let init = word.drop_last();
    assert(!gap(word[word.len() - 1]));
    if word.len() == 1 {
        assert(crate::text::words(init, gap) =~= Seq::<Seq<Glyph>>::empty());
        assert(seq![word.last()] =~= word);
        assert(crate::text::words(word, gap) =~= seq![word]);
    } else {
        assert forall|i: int| 0 <= i < init.len() implies !crate::text::is_white(
            (#[trigger] init[i]).ch,
        ) by {
            assert(init[i] == word[i]);
        }
        lemma_word_alone(init);
        assert(!gap(word[word.len() - 2]));
        assert(init.push(word.last()) =~= word);
        assert(crate::text::words(word, gap) =~= seq![word]);
    }
}

proof fn lemma_word_behind(line: Seq<Glyph>, space: Glyph, word: Seq<Glyph>)
    requires
        crate::text::is_white(space.ch),
        word.len() > 0,
        crate::wrap::unbroken(word),
    ensures
        crate::text::words(line.push(space) + word, crate::wrap::at_gap()) == crate::text::words(
            line,
            crate::wrap::at_gap(),
        ).push(word),
    decreases word.len(),
{
    let gap = crate::wrap::at_gap();
    let s = line.push(space) + word;
    let init = word.drop_last();
    let before = crate::text::words(line, gap);
    assert(s.drop_last() =~= line.push(space) + init);
    assert(s.last() == word[word.len() - 1]);
    assert(!gap(s.last()));
    if word.len() == 1 {
        assert(line.push(space) + init =~= line.push(space));
        assert(line.push(space).drop_last() =~= line);
        assert(gap(line.push(space).last()));
        assert(s[s.len() - 2] == space);
        assert(gap(s[s.len() - 2]));
        assert(seq![word.last()] =~= word);
        assert(crate::text::words(line.push(space), gap) == before);
        assert(crate::text::words(s.drop_last(), gap) == before);
        assert(crate::text::words(s, gap) == before.push(seq![s.last()]));
    } else {
        assert forall|i: int| 0 <= i < init.len() implies !crate::text::is_white(
            (#[trigger] init[i]).ch,
        ) by {
            assert(init[i] == word[i]);
        }
        lemma_word_behind(line, space, init);
        assert(s[s.len() - 2] == word[word.len() - 2]);
        assert(!gap(s[s.len() - 2]));
        assert(init.push(word.last()) =~= word);
        assert(crate::text::words(s, gap) =~= before.push(word));
    }
}

proof fn lemma_fill_words(words: Seq<Seq<Glyph>>, room: nat)
    requires
        forall|i: int|
            0 <= i < words.len() ==> 0 < (#[trigger] words[i]).len() <= room
                && crate::wrap::unbroken(words[i]),
    ensures
        words_over(crate::wrap::closed_lines(crate::wrap::fill(words, room))) == words,
    decreases words.len(),
{
    let gap = crate::wrap::at_gap();
    let none: Seq<Glyph> = Seq::empty();
    assert(crate::text::words(none, gap) =~= Seq::<Seq<Glyph>>::empty());
    let f = crate::wrap::fill(words, room);
    if words.len() == 0 {
        assert(words_over(crate::wrap::closed_lines(f)) =~= words);
    } else {
        let init = words.drop_last();
        let word = words.last();
        let g = crate::wrap::fill(init, room);
        assert forall|i: int| 0 <= i < init.len() implies 0 < (#[trigger] init[i]).len() <= room
            && crate::wrap::unbroken(init[i]) by {
            assert(init[i] == words[i]);
        }
        lemma_fill_words(init, room);
        assert(words[words.len() - 1] == word);
        lemma_word_alone(word);
        assert(f == crate::wrap::place(g, word, room));
        lemma_words_over_push(g.done, g.open);
        lemma_words_over_push(f.done, f.open);
        assert(init.push(word) =~= words);
        if g.open.len() == 0 {
            assert(words_over(crate::wrap::closed_lines(f)) =~= words);
        } else if g.open.len() + 1 + word.len() > room {
            assert(words_over(crate::wrap::closed_lines(f)) =~= words);
        } else {
            let space = Glyph { ch: ' ', style: g.open.last().style };
            lemma_word_behind(g.open, space, word);
            assert(words_over(crate::wrap::closed_lines(f)) =~= words_over(g.done)
                + crate::text::words(g.open, gap).push(word));
            assert(words_over(crate::wrap::closed_lines(f)) =~= words);
        }
    }
}

/// Wrapping keeps words apart: between two line breaks, where every word fits, the
/// words of the lines are the words of the text, none glued to another.
pub proof fn law_wrapping_keeps_words_apart(text: Seq<Glyph>, room: nat)
    requires
        forall|i: int| 0 <= i < text.len() ==> (#[trigger] text[i]).ch != '\n',
        forall|i: int|
            0 <= i < crate::text::words(text, crate::wrap::at_gap()).len() ==> (
            #[trigger] crate::text::words(text, crate::wrap::at_gap())[i]).len() <= room,
    ensures
        words_over(crate::wrap::wrapped(text, room)) == crate::text::words(
            text,
            crate::wrap::at_gap(),
        ),
{
    lemma_one_piece(text);
    let one: Seq<Seq<Glyph>> = seq![text];
    assert(one.drop_last() =~= Seq::<Seq<Glyph>>::empty());
    let lines = crate::wrap::segment_lines(text, room);
    assert(crate::wrap::segments_lines(one.drop_last(), room) =~= Seq::<Seq<Glyph>>::empty());
    assert(crate::wrap::wrapped(text, room) =~= lines);
    let words = crate::text::words(text, crate::wrap::at_gap());
    crate::text::lemma_words_nonempty(text, crate::wrap::at_gap());
    crate::wrap::lemma_words_unbroken(text);
    assert forall|i: int| 0 <= i < words.len() implies 0 < (#[trigger] words[i]).len() <= room
        && crate::wrap::unbroken(words[i]) by {}
    lemma_fill_words(words, room);
}

// ---------------------------------------------------------------------------
// Blocks within blocks
// ---------------------------------------------------------------------------

/// The rows of a table stand on lines of their own: one row more adds its lines
/// behind all others and changes none of them.
pub proof fn law_table_rows_have_their_own_lines(
    header: Vec<Vec<InlineRun>>,
    rows: Vec<Vec<Vec<InlineRun>>>,
    more: Vec<Vec<Vec<InlineRun>>>,
    last: Vec<Vec<InlineRun>>,
    indent: nat,
)
    requires
        more@ == rows@.push(last),
    ensures
        crate::thoughts::block_lines(Block::Table { header, rows: more }, indent)
            == crate::thoughts::block_lines(Block::Table { header, rows }, indent)
            + crate::wrap::wrapped_lines(crate::thoughts::row_text(last@, false), indent),
        rows@.len() == 0 ==> crate::thoughts::block_lines(Block::Table { header, rows }, indent)
            == crate::wrap::wrapped_lines(crate::thoughts::row_text(header@, true), indent),
{
    assert(more@.drop_last() =~= rows@);
    let head = crate::wrap::wrapped_lines(crate::thoughts::row_text(header@, true), indent);
    let before = crate::thoughts::rows_lines(rows@, indent);
    let own = crate::wrap::wrapped_lines(crate::thoughts::row_text(last@, false), indent);
    assert(head + (before + own) =~= head + before + own);
    if rows@.len() == 0 {
        assert(head + before =~= head);
    }
}

/// The cells of a row stand side by side with a dot between each two.
pub proof fn law_cells_stand_side_by_side(
    cells: Seq<Vec<InlineRun>>,
    last: Vec<InlineRun>,
    bold: bool,
)
    requires
        cells.len() > 0,
    ensures
        crate::thoughts::row_text(cells.push(last), bold) == crate::thoughts::row_text(cells, bold)
            + crate::wrap::glyphs(" · "@, crate::markdown::plain_style()) + crate::wrap::flat(
            set_in(last@, bold),
        ),
        crate::thoughts::row_text(seq![last], bold) == crate::wrap::flat(set_in(last@, bold)),
{
    assert(cells.push(last).drop_last() =~= cells);
    assert(crate::thoughts::all_emboldened(last@, bold) =~= set_in(last@, bold));
    let one: Seq<Vec<InlineRun>> = seq![last];
    let none: Seq<Vec<InlineRun>> = Seq::empty();
    assert(one.drop_last() =~= none);
    assert(crate::thoughts::row_text(none, bold) =~= Seq::<Glyph>::empty());
    assert(crate::thoughts::row_text(one, bold) =~= crate::wrap::flat(set_in(last@, bold)));
}

/// Quoted blocks stand apart by an empty line; the blocks of an item follow each
/// other without one.
pub proof fn law_quoted_blocks_stand_apart(blocks: Seq<Block>, last: Block, indent: nat)
    requires
        blocks.len() > 0,
    ensures
        crate::thoughts::quoted_lines(blocks.push(last), indent) == crate::thoughts::quoted_lines(
            blocks,
            indent,
        ) + seq![Seq::<RunView>::empty()] + crate::thoughts::block_lines(last, indent),
        crate::thoughts::blocks_lines(blocks.push(last), indent) == crate::thoughts::blocks_lines(
            blocks,
            indent,
        ) + crate::thoughts::block_lines(last, indent),
        crate::thoughts::quoted_lines(seq![last], indent) == crate::thoughts::block_lines(
            last,
            indent,
        ),
{
    assert(blocks.push(last).drop_last() =~= blocks);
    let one: Seq<Block> = seq![last];
    let none: Seq<Block> = Seq::empty();
    assert(one.drop_last() =~= none);
    assert(crate::thoughts::quoted_lines(none, indent) =~= Seq::<Seq<RunView>>::empty());
    assert(crate::thoughts::quoted_lines(one, indent) =~= crate::thoughts::block_lines(
        last,
        indent,
    ));
    assert(crate::thoughts::quoted_lines(blocks, indent).push(Seq::<RunView>::empty())
        =~= crate::thoughts::quoted_lines(blocks, indent) + seq![Seq::<RunView>::empty()]);
}

} // verus!
