//! Soft-wrapping of plain and styled text at a column budget.
//!
//! Lines are counted in characters, not measured, so the height of a wrapped
//! body is known without layout.
use vstd::prelude::*;

use crate::markdown::{InlineRun, InlineStyle};

verus! {

/// One character and the style it is set in.
#[verifier::ext_equal]
pub struct Glyph {
    pub ch: char,
    pub style: crate::markdown::StyleView,
}

/// `ch` set in `style`.
pub open spec fn glyph(ch: char, style: crate::markdown::StyleView) -> Glyph {
    Glyph { ch, style }
}

/// `text` set in one style.
pub open spec fn glyphs(text: Seq<char>, style: crate::markdown::StyleView) -> Seq<Glyph> {
    Seq::new(text.len(), |i: int| glyph(text[i], style))
}

/// The characters of a list of runs, each with its style.
pub open spec fn flat(runs: Seq<crate::markdown::RunView>) -> Seq<Glyph>
    decreases runs.len(),
{
    if runs.len() == 0 {
        Seq::empty()
    } else {
        flat(runs.drop_last()) + glyphs(runs.last().text, runs.last().style)
    }
}

/// The runs that set `line`, as few as its styles allow: neighbours of one
/// style share a run.
pub open spec fn runs_of(line: Seq<Glyph>) -> Seq<crate::markdown::RunView>
    decreases line.len(),
{
    if line.len() == 0 {
        Seq::empty()
    } else {
        add_glyph(runs_of(line.drop_last()), line.last())
    }
}

/// `runs` and one more character, in the last run where its style matches.
pub open spec fn add_glyph(
    runs: Seq<crate::markdown::RunView>,
    g: Glyph,
) -> Seq<crate::markdown::RunView> {
    if runs.len() > 0 && runs.last().style == g.style {
        runs.update(
            runs.len() - 1,
            crate::markdown::RunView { text: runs.last().text.push(g.ch), style: g.style },
        )
    } else {
        runs.push(crate::markdown::RunView { text: seq![g.ch], style: g.style })
    }
}

/// The predicate that ends a segment: a hard line break.
pub open spec fn at_break() -> spec_fn(Glyph) -> bool {
    |g: Glyph| g.ch == '\n'
}

/// The predicate that separates words.
pub open spec fn at_gap() -> spec_fn(Glyph) -> bool {
    |g: Glyph| crate::text::is_white(g.ch)
}

/// Lines that are full, and the line that is being filled.
pub struct Fill {
    pub done: Seq<Seq<Glyph>>,
    pub open: Seq<Glyph>,
}

/// The whole pieces of `cols` elements that `s` begins with.
pub open spec fn whole_chunks<T>(s: Seq<T>, cols: nat) -> Seq<Seq<T>>
    decreases s.len(),
{
    if 0 < cols <= s.len() {
        seq![s.take(cols as int)] + whole_chunks(s.skip(cols as int), cols)
    } else {
        Seq::empty()
    }
}

/// What `whole_chunks` leaves over.
pub open spec fn chunk_rest<T>(s: Seq<T>, cols: nat) -> Seq<T>
    decreases s.len(),
{
    if 0 < cols <= s.len() {
        chunk_rest(s.skip(cols as int), cols)
    } else {
        s
    }
}

/// `f` with its open line closed, unless that is empty.
pub open spec fn closed_lines(f: Fill) -> Seq<Seq<Glyph>> {
    if f.open.len() > 0 {
        f.done.push(f.open)
    } else {
        f.done
    }
}

/// `f` with one more word. A word over the budget starts a line of its own and
/// is cut at the budget. Another word goes behind a space, set like the
/// character before it, on the open line where both fit, else on a new line.
pub open spec fn place(f: Fill, word: Seq<Glyph>, budget: nat) -> Fill {
    if word.len() > budget {
        Fill {
            done: closed_lines(f) + whole_chunks(word, budget),
            open: chunk_rest(word, budget),
        }
    } else if f.open.len() == 0 {
        Fill { done: f.done, open: word }
    } else if f.open.len() + 1 + word.len() > budget {
        Fill { done: f.done.push(f.open), open: word }
    } else {
        Fill {
            done: f.done,
            open: f.open.push(Glyph { ch: ' ', style: f.open.last().style }) + word,
        }
    }
}

/// The words of a segment placed from the first on.
pub open spec fn fill(words: Seq<Seq<Glyph>>, budget: nat) -> Fill
    decreases words.len(),
{
    if words.len() == 0 {
        Fill { done: Seq::empty(), open: Seq::empty() }
    } else {
        place(fill(words.drop_last(), budget), words.last(), budget)
    }
}

/// The lines of one segment.
pub open spec fn segment_lines(segment: Seq<Glyph>, budget: nat) -> Seq<Seq<Glyph>> {
    closed_lines(fill(crate::text::words(segment, at_gap()), budget))
}

/// The lines of the segments, one segment after the other.
pub open spec fn segments_lines(segments: Seq<Seq<Glyph>>, budget: nat) -> Seq<Seq<Glyph>>
    decreases segments.len(),
{
    if segments.len() == 0 {
        Seq::empty()
    } else {
        segments_lines(segments.drop_last(), budget) + segment_lines(segments.last(), budget)
    }
}

/// The lines that `text` wraps into: its segments between hard breaks, each
/// wrapped by itself.
pub open spec fn wrapped(text: Seq<Glyph>, budget: nat) -> Seq<Seq<Glyph>> {
    segments_lines(crate::text::pieces(text, at_break()), budget)
}

/// Column budget of a thought line.
pub const THOUGHT_WRAP_COLS: usize = 96;

/// The least budget that indentation leaves.
pub const MIN_WRAP_COLS: usize = 16;

/// The columns that `indent` leaves of [`THOUGHT_WRAP_COLS`], never under
/// [`MIN_WRAP_COLS`].
pub open spec fn budget_at(indent: nat) -> nat {
    if indent + MIN_WRAP_COLS <= THOUGHT_WRAP_COLS {
        (THOUGHT_WRAP_COLS - indent) as nat
    } else {
        MIN_WRAP_COLS as nat
    }
}

/// `n` spaces.
pub open spec fn spaces(n: nat) -> Seq<char> {
    Seq::new(n, |i: int| ' ')
}

/// The run that opens every line: its indentation, possibly empty.
pub open spec fn indent_view(indent: nat) -> crate::markdown::RunView {
    crate::markdown::RunView { text: spaces(indent), style: crate::markdown::plain_style() }
}

/// A finished line: the indent run, then the runs that set it.
pub open spec fn finished(indent: nat, line: Seq<Glyph>) -> Seq<crate::markdown::RunView> {
    seq![indent_view(indent)] + runs_of(line)
}

/// Each of `lines` finished.
pub open spec fn all_finished(indent: nat, lines: Seq<Seq<Glyph>>) -> Seq<
    Seq<crate::markdown::RunView>,
> {
    Seq::new(lines.len(), |i: int| finished(indent, lines[i]))
}

/// The finished lines of `text` at `indent`.
pub open spec fn wrapped_lines(text: Seq<Glyph>, indent: nat) -> Seq<
    Seq<crate::markdown::RunView>,
> {
    all_finished(indent, wrapped(text, budget_at(indent)))
}

// ---------------------------------------------------------------------------
// How the definitions grow with their argument
// ---------------------------------------------------------------------------

proof fn lemma_pieces_extend<T>(s: Seq<T>, w: Seq<T>, cut: spec_fn(T) -> bool)
    requires
        forall|i: int| 0 <= i < w.len() ==> !cut(#[trigger] w[i]),
    ensures
        crate::text::pieces(s + w, cut) == crate::text::pieces(s, cut).update(
            crate::text::pieces(s, cut).len() - 1,
            crate::text::pieces(s, cut).last() + w,
        ),
    decreases w.len(),
{
    let before = crate::text::pieces(s, cut);
    crate::text::lemma_pieces_nonempty(s, cut);
    if w.len() == 0 {
        assert(s + w =~= s);
        assert(before.last() + w =~= before.last());
        assert(before.update(before.len() - 1, before.last()) =~= before);
    } else {
        let v = w.drop_last();
        assert forall|i: int| 0 <= i < v.len() implies !cut(#[trigger] v[i]) by {
            assert(v[i] == w[i]);
        }
        lemma_pieces_extend(s, v, cut);
        assert((s + w).drop_last() =~= s + v);
        assert((s + w).last() == w.last());
        assert(!cut(w[w.len() - 1]));
        let mid = before.update(before.len() - 1, before.last() + v);
        assert((before.last() + v).push(w.last()) =~= before.last() + w);
        assert(mid.update(mid.len() - 1, mid.last().push(w.last())) =~= before.update(
            before.len() - 1,
            before.last() + w,
        ));
    }
}

proof fn lemma_chunks_push<T>(s: Seq<T>, x: T, cols: nat)
    requires
        cols > 0,
    ensures
        chunk_rest(s, cols).len() < cols,
        chunk_rest(s, cols).len() + 1 == cols ==> whole_chunks(s.push(x), cols) == whole_chunks(
            s,
            cols,
        ).push(chunk_rest(s, cols).push(x)) && chunk_rest(s.push(x), cols) == Seq::<T>::empty(),
        chunk_rest(s, cols).len() + 1 < cols ==> whole_chunks(s.push(x), cols) == whole_chunks(
            s,
            cols,
        ) && chunk_rest(s.push(x), cols) == chunk_rest(s, cols).push(x),
    decreases s.len(),
{
    let n = cols as int;
    if cols <= s.len() {
        lemma_chunks_push(s.skip(n), x, cols);
        assert(s.push(x).take(n) =~= s.take(n));
        assert(s.push(x).skip(n) =~= s.skip(n).push(x));
        if chunk_rest(s, cols).len() + 1 == cols {
            assert(whole_chunks(s.push(x), cols) =~= whole_chunks(s, cols).push(
                chunk_rest(s, cols).push(x),
            ));
        }
    } else if s.len() + 1 == cols {
        assert(s.push(x).take(n) =~= s.push(x));
        assert(s.push(x).skip(n) =~= Seq::<T>::empty());
        assert(whole_chunks(s.push(x).skip(n), cols) =~= Seq::<Seq<T>>::empty());
        assert(chunk_rest(s.push(x), cols) == chunk_rest(s.push(x).skip(n), cols));
        assert(whole_chunks(s.push(x), cols) =~= whole_chunks(s, cols).push(s.push(x)));
    }
}

// ---------------------------------------------------------------------------
// Executable wrapping
// ---------------------------------------------------------------------------

/// The glyphs that a list of characters and run indices stands for.
spec fn listed(l: Seq<(char, usize)>, runs: Seq<InlineRun>) -> Seq<Glyph> {
    Seq::new(l.len(), |i: int| glyph(l[i].0, runs[l[i].1 as int].style@))
}

/// Every run index of `l` is in range.
spec fn indexed(l: Seq<(char, usize)>, runs: Seq<InlineRun>) -> bool {
    forall|i: int| 0 <= i < l.len() ==> (#[trigger] l[i]).1 < runs.len()
}

/// The characters of `runs`, each with the index of its run.
fn flatten(runs: &Vec<InlineRun>) -> (l: Vec<(char, usize)>)
    ensures
        indexed(l@, runs@),
        listed(l@, runs@) == flat(crate::markdown::run_views(runs@)),
{
    let mut l: Vec<(char, usize)> = Vec::new();
    let mut i: usize = 0;
    let ghost views = crate::markdown::run_views(runs@);
    assert(listed(l@, runs@) =~= flat(views.take(0)));
    while i < runs.len()
        invariant
            i <= runs@.len(),
            views == crate::markdown::run_views(runs@),
            indexed(l@, runs@),
            listed(l@, runs@) == flat(views.take(i as int)),
        decreases runs.len() - i,
    {
        let v = crate::text::chars_of(runs[i].text.as_str());
        let mut j: usize = 0;
        let ghost base = listed(l@, runs@);
        let ghost style = runs@[i as int].style@;
        while j < v.len()
            invariant
                i < runs@.len(),
                j <= v@.len(),
                indexed(l@, runs@),
                style == runs@[i as int].style@,
                listed(l@, runs@) =~= base + glyphs(v@.take(j as int), style),
            decreases v.len() - j,
        {
            let ghost before = l@;
            l.push((v[j], i));
            assert(listed(l@, runs@) =~= listed(before, runs@).push(glyph(v@[j as int], style)));
            assert(v@.take(j + 1) =~= v@.take(j as int).push(v@[j as int]));
            j = j + 1;
        }
        proof {
            assert(v@.take(j as int) =~= v@);
            assert(views.take(i + 1).drop_last() =~= views.take(i as int));
            assert(views.take(i + 1).last() == runs@[i as int]@);
        }
        i = i + 1;
    }
    assert(views.take(i as int) =~= views);
    l
}

/// Appends a character to a line's runs, to the last run where the styles
/// match.
pub fn push_styled(line: &mut Vec<InlineRun>, c: char, style: &InlineStyle)
    ensures
        crate::markdown::run_views(final(line)@) == add_glyph(
            crate::markdown::run_views(old(line)@),
            Glyph { ch: c, style: style@ },
        ),
{
    let ghost before = crate::markdown::run_views(line@);
    let n: usize = line.len();
    if n > 0 && line[n - 1].style.same(style) {
        line[n - 1].text.push(c);
    } else {
        let mut text = String::new();
        text.push(c);
        assert(text@ =~= seq![c]);
        line.push(InlineRun { text, style: style.clone() });
    }
    assert(crate::markdown::run_views(line@) =~= add_glyph(
        before,
        Glyph { ch: c, style: style@ },
    ));
}

/// A run of `indent` spaces, alone on its line.
pub fn indent_run(indent: usize) -> (line: Vec<InlineRun>)
    ensures
        crate::markdown::run_views(line@) == seq![indent_view(indent as nat)],
{
    let mut text = String::new();
    let mut i: usize = 0;
    while i < indent
        invariant
            i <= indent,
            text@ =~= spaces(i as nat),
        decreases indent - i,
    {
        text.push(' ');
        i = i + 1;
    }
    let mut line: Vec<InlineRun> = Vec::new();
    line.push(InlineRun { text, style: InlineStyle::default() });
    assert(crate::markdown::run_views(line@) =~= seq![indent_view(indent as nat)]);
    line
}

/// Closes a line: the indent run in front of it.
pub fn finish_line(indent: usize, line: Vec<InlineRun>) -> (full: Vec<InlineRun>)
    ensures
        crate::markdown::run_views(full@) == seq![indent_view(indent as nat)]
            + crate::markdown::run_views(line@),
{
    let mut full = indent_run(indent);
    let ghost head = full@;
    let ghost tail = line@;
    let mut line = line;
    full.append(&mut line);
    assert(full@ =~= head + tail);
    assert(crate::markdown::run_views(full@) =~= crate::markdown::run_views(head)
        + crate::markdown::run_views(tail));
    full
}

proof fn lemma_all_finished_push(indent: nat, lines: Seq<Seq<Glyph>>, line: Seq<Glyph>)
    ensures
        all_finished(indent, lines.push(line)) == all_finished(indent, lines).push(
            finished(indent, line),
        ),
{
    assert(all_finished(indent, lines.push(line)) =~= all_finished(indent, lines).push(
        finished(indent, line),
    ));
}

/// A nonempty line's last run has the style of its last character.
proof fn lemma_runs_of_last(line: Seq<Glyph>)
    requires
        line.len() > 0,
    ensures
        runs_of(line).len() > 0,
        runs_of(line).last().style == line.last().style,
{
}

/// The state of a wrap in progress: `line` sets the open line of `f`, and
/// `out` holds `base` and the full lines of `f`.
spec fn wrapping(
    f: Fill,
    base: Seq<Seq<crate::markdown::RunView>>,
    indent: nat,
    line: Seq<InlineRun>,
    len: usize,
    out: Seq<Vec<InlineRun>>,
) -> bool {
    &&& crate::markdown::run_views(line) == runs_of(f.open)
    &&& len == f.open.len()
    &&& len <= budget_at(indent)
    &&& crate::markdown::line_views(out) == base + all_finished(indent, f.done)
}

/// Closes the open line, unless it is empty.
fn close_open(
    indent: usize,
    line: Vec<InlineRun>,
    len: usize,
    out: &mut Vec<Vec<InlineRun>>,
    Ghost(f): Ghost<Fill>,
    Ghost(base): Ghost<Seq<Seq<crate::markdown::RunView>>>,
)
    requires
        wrapping(f, base, indent as nat, line@, len, old(out)@),
    ensures
        crate::markdown::line_views(final(out)@) == base + all_finished(
            indent as nat,
            closed_lines(f),
        ),
{
    if len > 0 {
        let full = finish_line(indent, line);
        proof {
            crate::markdown::lemma_line_views_push(out@, full);
            lemma_all_finished_push(indent as nat, f.done, f.open);
            assert((base + all_finished(indent as nat, f.done)).push(
                finished(indent as nat, f.open),
            ) =~= base + all_finished(indent as nat, f.done.push(f.open)));
        }
        out.push(full);
    }
}

/// Places the word `list[from..to]`.
fn place_word(
    list: &Vec<(char, usize)>,
    runs: &Vec<InlineRun>,
    from: usize,
    to: usize,
    indent: usize,
    budget: usize,
    line: Vec<InlineRun>,
    len: usize,
    out: &mut Vec<Vec<InlineRun>>,
    Ghost(f): Ghost<Fill>,
    Ghost(base): Ghost<Seq<Seq<crate::markdown::RunView>>>,
) -> (r: (Vec<InlineRun>, usize))
    requires
        indexed(list@, runs@),
        from < to <= list@.len(),
        budget == budget_at(indent as nat),
        wrapping(f, base, indent as nat, line@, len, old(out)@),
    ensures
        wrapping(
            place(f, listed(list@, runs@).subrange(from as int, to as int), budget as nat),
            base,
            indent as nat,
            r.0@,
            r.1,
            final(out)@,
        ),
{
    let ghost word = listed(list@, runs@).subrange(from as int, to as int);
    let ghost d = indent as nat;
    if to - from > budget {
        close_open(indent, line, len, out, Ghost(f), Ghost(base));
        let ghost start = closed_lines(f);
        let mut line: Vec<InlineRun> = Vec::new();
        let mut len: usize = 0;
        let mut k: usize = from;
        proof {
            assert(crate::markdown::run_views(line@) =~= runs_of(Seq::<Glyph>::empty()));
            assert(word.take(0) =~= Seq::<Glyph>::empty());
            assert(start + whole_chunks(word.take(0), budget as nat) =~= start);
        }
        while k < to
            invariant
                indexed(list@, runs@),
                from <= k <= to <= list@.len(),
                d == indent,
                budget == budget_at(d),
                word == listed(list@, runs@).subrange(from as int, to as int),
                crate::markdown::run_views(line@) == runs_of(
                    chunk_rest(word.take(k - from), budget as nat),
                ),
                len == chunk_rest(word.take(k - from), budget as nat).len(),
                len < budget,
                crate::markdown::line_views(out@) == base + all_finished(
                    d,
                    start + whole_chunks(word.take(k - from), budget as nat),
                ),
            decreases to - k,
        {
            let ghost p = word.take(k - from);
            let ghost g = word[k - from];
            let ghost rest = chunk_rest(p, budget as nat);
            let ghost whole = whole_chunks(p, budget as nat);
            proof {
                lemma_chunks_push(p, g, budget as nat);
                assert(word.take(k + 1 - from) =~= p.push(g));
                assert(rest.push(g).drop_last() =~= rest);
            }
            push_styled(&mut line, list[k].0, &runs[list[k].1].style);
            len = len + 1;
            if len == budget {
                let full = finish_line(indent, line);
                proof {
                    crate::markdown::lemma_line_views_push(out@, full);
                    lemma_all_finished_push(d, start + whole, rest.push(g));
                    assert(start + whole.push(rest.push(g)) =~= (start + whole).push(
                        rest.push(g),
                    ));
                    assert((base + all_finished(d, start + whole)).push(
                        finished(d, rest.push(g)),
                    ) =~= base + all_finished(d, start + whole.push(rest.push(g))));
                }
                out.push(full);
                line = Vec::new();
                len = 0;
                assert(crate::markdown::run_views(line@) =~= runs_of(Seq::<Glyph>::empty()));
            }
            k = k + 1;
        }
        assert(word.take(k - from) =~= word);
        return (line, len);
    }
    let ghost wl = word.len();
    let mut line = line;
    let mut len = len;
    let ghost mut g = f;
    if len > 0 && len + 1 + (to - from) > budget {
        close_open(indent, line, len, out, Ghost(f), Ghost(base));
        line = Vec::new();
        len = 0;
        proof {
            g = Fill { done: f.done.push(f.open), open: Seq::empty() };
            assert(crate::markdown::run_views(line@) =~= runs_of(Seq::<Glyph>::empty()));
        }
    } else if len > 0 {
        let ghost sp = Glyph { ch: ' ', style: f.open.last().style };
        proof {
            lemma_runs_of_last(f.open);
            assert(crate::markdown::run_views(line@).len() == line@.len());
            assert(f.open.push(sp).drop_last() =~= f.open);
        }
        let n: usize = line.len();
        line[n - 1].text.push(' ');
        len = len + 1;
        proof {
            g = Fill { done: f.done, open: f.open.push(sp) };
            assert(crate::markdown::run_views(line@) =~= runs_of(g.open));
        }
    }
    let mut k: usize = from;
    proof {
        assert(g.open + word.take(0) =~= g.open);
    }
    while k < to
        invariant
            indexed(list@, runs@),
            from <= k <= to <= list@.len(),
            word == listed(list@, runs@).subrange(from as int, to as int),
            crate::markdown::run_views(line@) == runs_of(g.open + word.take(k - from)),
        decreases to - k,
    {
        let ghost p = g.open + word.take(k - from);
        proof {
            assert(g.open + word.take(k + 1 - from) =~= p.push(word[k - from]));
            assert(p.push(word[k - from]).drop_last() =~= p);
        }
        push_styled(&mut line, list[k].0, &runs[list[k].1].style);
        k = k + 1;
    }
    proof {
        assert(word.take(k - from) =~= word);
        assert(Seq::<Glyph>::empty() + word =~= word);
    }
    (line, len + (to - from))
}

/// Wraps styled runs at the column budget of `indent` and appends the lines.
///
/// Words are glued across style boundaries, the space between two words rides
/// the run before it, an overlong word is cut at the budget, and line feeds in
/// the runs are hard breaks.
pub fn wrap_styled_runs(runs: &Vec<InlineRun>, indent: usize, out: &mut Vec<Vec<InlineRun>>)
    ensures
        crate::markdown::line_views(final(out)@) == crate::markdown::line_views(old(out)@)
            + wrapped_lines(flat(crate::markdown::run_views(runs@)), indent as nat),
{
    let budget: usize = if indent <= THOUGHT_WRAP_COLS - MIN_WRAP_COLS {
        THOUGHT_WRAP_COLS - indent
    } else {
        MIN_WRAP_COLS
    };
    let list = flatten(runs);
    let ghost all = listed(list@, runs@);
    let ghost base = crate::markdown::line_views(out@);
    let ghost d = indent as nat;
    let ghost b = budget as nat;
    let mut line: Vec<InlineRun> = Vec::new();
    let mut len: usize = 0;
    let mut i: usize = 0;
    let ghost mut past: Seq<Seq<Glyph>> = Seq::empty();
    let ghost mut segment: Seq<Glyph> = Seq::empty();
    let ghost mut earlier: Seq<Seq<Glyph>> = Seq::empty();
    let n: usize = list.len();
    proof {
        assert(all.take(0) =~= Seq::<Glyph>::empty());
        assert(past.push(segment) =~= seq![segment]);
        assert(crate::markdown::run_views(line@) =~= runs_of(Seq::<Glyph>::empty()));
        assert(base + all_finished(d, Seq::empty()) =~= base);
        assert(base + all_finished(d, earlier) =~= base);
        assert(crate::text::words(segment, at_gap()) =~= Seq::empty());
    }
    while i < n
        invariant
            i <= n,
            n == list@.len(),
            indexed(list@, runs@),
            all == listed(list@, runs@),
            d == indent,
            b == budget,
            budget == budget_at(d),
            crate::text::pieces(all.take(i as int), at_break()) == past.push(segment),
            earlier == segments_lines(past, b),
            segment.len() > 0 && i < n && !crate::text::is_white(all[i as int].ch) ==> at_gap()(
                segment.last(),
            ),
            wrapping(
                fill(crate::text::words(segment, at_gap()), b),
                base + all_finished(d, earlier),
                d,
                line@,
                len,
                out@,
            ),
        decreases n - i,
    {
        let c = list[i].0;
        let ghost f = fill(crate::text::words(segment, at_gap()), b);
        let ghost g = all[i as int];
        proof {
            assert(all.take(i + 1).drop_last() =~= all.take(i as int));
            assert(all.take(i + 1).last() == g);
            assert(g.ch == c);
            assert(past.push(segment).drop_last() =~= past);
        }
        if c == '\n' {
            close_open(indent, line, len, out, Ghost(f), Ghost(base + all_finished(d, earlier)));
            line = Vec::new();
            len = 0;
            proof {
                let next = past.push(segment);
                let empty: Seq<Glyph> = Seq::empty();
                assert(next.drop_last() =~= past);
                assert(earlier + segment_lines(segment, b) == segments_lines(next, b));
                assert(base + all_finished(d, earlier) + all_finished(d, closed_lines(f))
                    =~= base + all_finished(d, segments_lines(next, b)));
                past = next;
                segment = empty;
                earlier = segments_lines(next, b);
                assert(crate::text::words(segment, at_gap()) =~= Seq::empty());
                assert(crate::markdown::run_views(line@) =~= runs_of(empty));
                assert(base + all_finished(d, earlier) + all_finished(d, Seq::empty()) =~= base
                    + all_finished(d, earlier));
            }
            i = i + 1;
        } else if crate::text::white(c) {
            proof {
                let next = segment.push(g);
                assert(next.drop_last() =~= segment);
                assert(past.push(segment).update(past.len() as int, next) =~= past.push(next));
                segment = next;
            }
            i = i + 1;
        } else {
            let mut j: usize = i + 1;
            while j < n && !crate::text::white(list[j].0)
                invariant
                    i < j <= n,
                    n == list@.len(),
                    all == listed(list@, runs@),
                    !crate::text::is_white(all[i as int].ch),
                    forall|k: int| i <= k < j ==> !crate::text::is_white((#[trigger] all[k]).ch),
                decreases n - j,
            {
                j = j + 1;
            }
            let ghost word = all.subrange(i as int, j as int);
            proof {
                assert forall|k: int| 0 <= k < word.len() implies !at_gap()(#[trigger] word[k])
                    && !at_break()(word[k]) by {
                    assert(word[k] == all[i + k]);
                }
                lemma_pieces_extend(all.take(i as int), word, at_break());
                assert(all.take(i as int) + word =~= all.take(j as int));
                crate::text::lemma_words_extend(segment, word, at_gap());
                assert(past.push(segment).update(past.len() as int, segment + word) =~= past.push(
                    segment + word,
                ));
                assert(crate::text::words(segment, at_gap()).push(word).drop_last()
                    =~= crate::text::words(segment, at_gap()));
            }
            let (next_line, next_len) = place_word(
                &list,
                runs,
                i,
                j,
                indent,
                budget,
                line,
                len,
                out,
                Ghost(f),
                Ghost(base + all_finished(d, earlier)),
            );
            line = next_line;
            len = next_len;
            proof {
                segment = segment + word;
            }
            i = j;
        }
    }
    assert(all.take(i as int) =~= all);
    close_open(
        indent,
        line,
        len,
        out,
        Ghost(fill(crate::text::words(segment, at_gap()), b)),
        Ghost(base + all_finished(d, earlier)),
    );
    proof {
        assert(past.push(segment).drop_last() =~= past);
        assert(base + all_finished(d, earlier) + all_finished(d, segment_lines(segment, b))
            =~= base + all_finished(d, wrapped(all, b)));
    }
}

/// `line` in pieces of `cols` characters, the last one as long as what is left;
/// a line that fits, the empty one too, is one piece.
pub open spec fn cut_line(line: Seq<char>, cols: nat) -> Seq<Seq<char>> {
    if line.len() <= cols {
        seq![line]
    } else if chunk_rest(line, cols).len() > 0 {
        whole_chunks(line, cols).push(chunk_rest(line, cols))
    } else {
        whole_chunks(line, cols)
    }
}

/// Cuts one raw line into pieces of `cols` characters.
pub fn wrap_cols(line: &str, cols: usize) -> (r: Vec<String>)
    requires
        cols > 0,
    ensures
        crate::text::texts(r@) == cut_line(line@, cols as nat),
{
    let v = crate::text::chars_of(line);
    let mut r: Vec<String> = Vec::new();
    if v.len() <= cols {
        let s = crate::text::text_of(&v);
        r.push(s);
        assert(crate::text::texts(r@) =~= seq![line@]);
        return r;
    }
    let mut cur = String::new();
    let mut len: usize = 0;
    let mut i: usize = 0;
    let ghost n = cols as nat;
    assert(crate::text::texts(r@) =~= whole_chunks(v@.take(0), n));
    assert(cur@ =~= chunk_rest(v@.take(0), n));
    while i < v.len()
        invariant
            i <= v@.len(),
            n == cols,
            cols > 0,
            crate::text::texts(r@) == whole_chunks(v@.take(i as int), n),
            cur@ == chunk_rest(v@.take(i as int), n),
            len == cur@.len(),
            len < cols,
        decreases v.len() - i,
    {
        proof {
            lemma_chunks_push(v@.take(i as int), v@[i as int], n);
            assert(v@.take(i + 1) =~= v@.take(i as int).push(v@[i as int]));
        }
        cur.push(v[i]);
        len = len + 1;
        if len == cols {
            proof {
                crate::text::lemma_texts_push(r@, cur);
            }
            r.push(cur);
            cur = String::new();
            len = 0;
        }
        i = i + 1;
    }
    assert(v@.take(i as int) =~= line@);
    if len > 0 {
        proof {
            crate::text::lemma_texts_push(r@, cur);
        }
        r.push(cur);
    }
    r
}

// ---------------------------------------------------------------------------
// Laws
// ---------------------------------------------------------------------------

/// One line after the other.
pub open spec fn joined<T>(lines: Seq<Seq<T>>) -> Seq<T>
    decreases lines.len(),
{
    if lines.len() == 0 {
        Seq::empty()
    } else {
        joined(lines.drop_last()) + lines.last()
    }
}

/// The characters that are not white, with their styles.
pub open spec fn solid(s: Seq<Glyph>) -> Seq<Glyph>
    decreases s.len(),
{
    if s.len() == 0 {
        Seq::empty()
    } else if crate::text::is_white(s.last().ch) {
        solid(s.drop_last())
    } else {
        solid(s.drop_last()).push(s.last())
    }
}

/// Whether lines are filled within a budget, none of them empty.
pub open spec fn within<T>(lines: Seq<Seq<T>>, budget: nat) -> bool {
    forall|i: int| 0 <= i < lines.len() ==> 0 < (#[trigger] lines[i]).len() <= budget
}

/// Whether a line holds `w` in one piece.
pub open spec fn held_in_one<T>(lines: Seq<Seq<T>>, w: Seq<T>) -> bool {
    exists|i: int, o: int|
        0 <= i < lines.len() && 0 <= o && o + w.len() <= lines[i].len()
            && #[trigger] lines[i].subrange(o, o + w.len()) == w
}

proof fn lemma_within_push<T>(lines: Seq<Seq<T>>, line: Seq<T>, budget: nat)
    requires
        within(lines, budget),
        0 < line.len() <= budget,
    ensures
        within(lines.push(line), budget),
{
    assert forall|i: int| 0 <= i < lines.push(line).len() implies 0 < (#[trigger] lines.push(
        line,
    )[i]).len() <= budget by {
        if i < lines.len() {
            assert(0 < lines[i].len() <= budget);
        }
    }
}

proof fn lemma_within_add<T>(a: Seq<Seq<T>>, b: Seq<Seq<T>>, budget: nat)
    requires
        within(a, budget),
        within(b, budget),
    ensures
        within(a + b, budget),
{
    assert forall|i: int| 0 <= i < (a + b).len() implies 0 < (#[trigger] (a + b)[i]).len()
        <= budget by {
        if i < a.len() {
            assert(0 < a[i].len() <= budget);
        } else {
            assert(0 < b[i - a.len()].len() <= budget);
        }
    }
}

proof fn lemma_chunks_within<T>(s: Seq<T>, cols: nat)
    requires
        cols > 0,
    ensures
        within(whole_chunks(s, cols), cols),
        chunk_rest(s, cols).len() < cols,
        joined(whole_chunks(s, cols)) + chunk_rest(s, cols) == s,
    decreases s.len(),
{
    let n = cols as int;
    if cols <= s.len() {
        lemma_chunks_within(s.skip(n), cols);
        let first: Seq<Seq<T>> = seq![s.take(n)];
        assert(within(first, cols));
        lemma_within_add(first, whole_chunks(s.skip(n), cols), cols);
        lemma_joined_add(first, whole_chunks(s.skip(n), cols));
        lemma_joined_one(s.take(n));
        assert(s.take(n) + joined(whole_chunks(s.skip(n), cols)) + chunk_rest(s.skip(n), cols)
            =~= s.take(n) + (joined(whole_chunks(s.skip(n), cols)) + chunk_rest(s.skip(n), cols)));
        assert(s.take(n) + s.skip(n) =~= s);
    } else {
        assert(joined(whole_chunks(s, cols)) + chunk_rest(s, cols) =~= s);
    }
}

/// One line joined is that line.
pub proof fn lemma_joined_one<T>(line: Seq<T>)
    ensures
        joined(seq![line]) == line,
{
    let one: Seq<Seq<T>> = seq![line];
    let none: Seq<Seq<T>> = Seq::empty();
    assert(one.drop_last() =~= none);
    assert(joined(none) =~= Seq::<T>::empty());
    assert(joined(one) =~= line);
}

/// One more line joined comes behind the others.
pub proof fn lemma_joined_push<T>(a: Seq<Seq<T>>, line: Seq<T>)
    ensures
        joined(a.push(line)) == joined(a) + line,
{
    assert(a.push(line).drop_last() =~= a);
}

/// Lines joined in two lots are the lots joined.
pub proof fn lemma_joined_add<T>(a: Seq<Seq<T>>, b: Seq<Seq<T>>)
    ensures
        joined(a + b) == joined(a) + joined(b),
    decreases b.len(),
{
    if b.len() == 0 {
        assert(a + b =~= a);
        assert(joined(a) + joined(b) =~= joined(a));
    } else {
        assert((a + b).drop_last() =~= a + b.drop_last());
        lemma_joined_add(a, b.drop_last());
        assert(joined(a) + joined(b.drop_last()) + b.last() =~= joined(a) + (joined(b.drop_last())
            + b.last()));
    }
}

proof fn lemma_fill_within(words: Seq<Seq<Glyph>>, budget: nat)
    requires
        budget > 0,
        forall|i: int| 0 <= i < words.len() ==> (#[trigger] words[i]).len() > 0,
    ensures
        within(fill(words, budget).done, budget),
        fill(words, budget).open.len() <= budget,
    decreases words.len(),
{
    if words.len() > 0 {
        let init = words.drop_last();
        assert forall|i: int| 0 <= i < init.len() implies (#[trigger] init[i]).len() > 0 by {
            assert(init[i] == words[i]);
        }
        lemma_fill_within(init, budget);
        let f = fill(init, budget);
        let word = words.last();
        assert(words[words.len() - 1].len() > 0);
        lemma_chunks_within(word, budget);
        if f.open.len() > 0 {
            lemma_within_push(f.done, f.open, budget);
        }
        if word.len() > budget {
            lemma_within_add(closed_lines(f), whole_chunks(word, budget), budget);
        }
    }
}

proof fn lemma_segment_within(segment: Seq<Glyph>, budget: nat)
    requires
        budget > 0,
    ensures
        within(segment_lines(segment, budget), budget),
{
    let ws = crate::text::words(segment, at_gap());
    crate::text::lemma_words_nonempty(segment, at_gap());
    lemma_fill_within(ws, budget);
    let f = fill(ws, budget);
    if f.open.len() > 0 {
        lemma_within_push(f.done, f.open, budget);
    }
}

proof fn lemma_segments_within(segments: Seq<Seq<Glyph>>, budget: nat)
    requires
        budget > 0,
    ensures
        within(segments_lines(segments, budget), budget),
    decreases segments.len(),
{
    if segments.len() > 0 {
        lemma_segments_within(segments.drop_last(), budget);
        lemma_segment_within(segments.last(), budget);
        lemma_within_add(
            segments_lines(segments.drop_last(), budget),
            segment_lines(segments.last(), budget),
            budget,
        );
    }
}

/// No wrapped line is longer than the budget, and none is empty.
pub proof fn law_wrapped_lines_fit(text: Seq<Glyph>, budget: nat)
    requires
        budget > 0,
    ensures
        within(wrapped(text, budget), budget),
{
    lemma_segments_within(crate::text::pieces(text, at_break()), budget);
}

/// What is not white of two texts, one behind the other.
pub proof fn lemma_solid_add(a: Seq<Glyph>, b: Seq<Glyph>)
    ensures
        solid(a + b) == solid(a) + solid(b),
    decreases b.len(),
{
    if b.len() == 0 {
        assert(a + b =~= a);
        assert(solid(a) + solid(b) =~= solid(a));
    } else {
        assert((a + b).drop_last() =~= a + b.drop_last());
        lemma_solid_add(a, b.drop_last());
        assert(solid(a + b) =~= solid(a) + solid(b));
    }
}

proof fn lemma_words_joined(s: Seq<Glyph>)
    ensures
        joined(crate::text::words(s, at_gap())) == solid(s),
    decreases s.len(),
{
    let ws = crate::text::words(s, at_gap());
    if s.len() > 0 {
        let t = s.drop_last();
        let before = crate::text::words(t, at_gap());
        lemma_words_joined(t);
        crate::text::lemma_words_nonempty(t, at_gap());
        if at_gap()(s.last()) {
        } else if s.len() >= 2 && !at_gap()(s[s.len() - 2]) {
            assert(t.last() == s[s.len() - 2]);
            assert(ws.drop_last() =~= before.drop_last());
            assert(joined(ws) =~= joined(before).push(s.last()));
        } else {
            lemma_joined_push(before, seq![s.last()]);
            assert(joined(ws) =~= joined(before).push(s.last()));
        }
    } else {
        assert(joined(ws) =~= solid(s));
    }
}

proof fn lemma_closed_solid(f: Fill)
    ensures
        solid(joined(closed_lines(f))) == solid(joined(f.done)) + solid(f.open),
{
    if f.open.len() > 0 {
        lemma_joined_push(f.done, f.open);
        lemma_solid_add(joined(f.done), f.open);
    } else {
        assert(solid(joined(f.done)) + solid(f.open) =~= solid(joined(f.done)));
    }
}

proof fn lemma_place_solid(f: Fill, word: Seq<Glyph>, budget: nat)
    requires
        budget > 0,
    ensures
        solid(joined(place(f, word, budget).done)) + solid(place(f, word, budget).open) == solid(
            joined(f.done),
        ) + solid(f.open) + solid(word),
{
    let g = place(f, word, budget);
    let all = solid(joined(f.done)) + solid(f.open);
    if word.len() > budget {
        let chunks = whole_chunks(word, budget);
        let rest = chunk_rest(word, budget);
        lemma_closed_solid(f);
        lemma_joined_add(closed_lines(f), chunks);
        lemma_solid_add(joined(closed_lines(f)), joined(chunks));
        lemma_chunks_within(word, budget);
        lemma_solid_add(joined(chunks), rest);
        assert(solid(joined(g.done)) + solid(g.open) =~= all + (solid(joined(chunks)) + solid(
            rest,
        )));
    } else if f.open.len() == 0 {
        assert(solid(joined(f.done)) + solid(word) =~= all + solid(word));
    } else if f.open.len() + 1 + word.len() > budget {
        lemma_joined_push(f.done, f.open);
        lemma_solid_add(joined(f.done), f.open);
    } else {
        let sp = Glyph { ch: ' ', style: f.open.last().style };
        lemma_solid_add(f.open.push(sp), word);
        assert(f.open.push(sp).drop_last() =~= f.open);
        assert(solid(f.open.push(sp)) == solid(f.open));
        assert(solid(joined(f.done)) + (solid(f.open) + solid(word)) =~= all + solid(word));
    }
}

proof fn lemma_fill_solid(words: Seq<Seq<Glyph>>, budget: nat)
    requires
        budget > 0,
    ensures
        solid(joined(fill(words, budget).done)) + solid(fill(words, budget).open) == solid(
            joined(words),
        ),
    decreases words.len(),
{
    if words.len() == 0 {
        assert(solid(joined(fill(words, budget).done)) + solid(fill(words, budget).open) =~= solid(
            joined(words),
        ));
    } else {
        lemma_fill_solid(words.drop_last(), budget);
        lemma_place_solid(fill(words.drop_last(), budget), words.last(), budget);
        lemma_solid_add(joined(words.drop_last()), words.last());
    }
}

proof fn lemma_solid_twice(s: Seq<Glyph>)
    ensures
        solid(solid(s)) == solid(s),
    decreases s.len(),
{
    if s.len() > 0 {
        lemma_solid_twice(s.drop_last());
        if !crate::text::is_white(s.last().ch) {
            assert(solid(s).drop_last() =~= solid(s.drop_last()));
        }
    }
}

proof fn lemma_segment_solid(segment: Seq<Glyph>, budget: nat)
    requires
        budget > 0,
    ensures
        solid(joined(segment_lines(segment, budget))) == solid(segment),
{
    let ws = crate::text::words(segment, at_gap());
    lemma_fill_solid(ws, budget);
    lemma_closed_solid(fill(ws, budget));
    lemma_words_joined(segment);
    lemma_solid_twice(segment);
}

proof fn lemma_segments_solid(segments: Seq<Seq<Glyph>>, budget: nat)
    requires
        budget > 0,
    ensures
        solid(joined(segments_lines(segments, budget))) == solid(joined(segments)),
    decreases segments.len(),
{
    if segments.len() > 0 {
        let init = segments.drop_last();
        lemma_segments_solid(init, budget);
        lemma_segment_solid(segments.last(), budget);
        lemma_joined_add(segments_lines(init, budget), segment_lines(segments.last(), budget));
        lemma_solid_add(
            joined(segments_lines(init, budget)),
            joined(segment_lines(segments.last(), budget)),
        );
        lemma_solid_add(joined(init), segments.last());
    }
}

proof fn lemma_pieces_solid(s: Seq<Glyph>)
    ensures
        solid(joined(crate::text::pieces(s, at_break()))) == solid(s),
    decreases s.len(),
{
    let ps = crate::text::pieces(s, at_break());
    if s.len() == 0 {
        lemma_joined_one(Seq::<Glyph>::empty());
    } else {
        let t = s.drop_last();
        let before = crate::text::pieces(t, at_break());
        lemma_pieces_solid(t);
        crate::text::lemma_pieces_nonempty(t, at_break());
        if at_break()(s.last()) {
            lemma_joined_push(before, Seq::<Glyph>::empty());
            assert(joined(before) + Seq::<Glyph>::empty() =~= joined(before));
        } else {
            assert(ps.drop_last() =~= before.drop_last());
            assert(joined(ps) =~= joined(before).push(s.last()));
            assert(joined(before).push(s.last()).drop_last() =~= joined(before));
        }
    }
}

/// Wrapping loses no character, adds none and keeps their order and styles: what
/// is not white comes out as it went in.
pub proof fn law_wrapping_keeps_the_text(text: Seq<Glyph>, budget: nat)
    requires
        budget > 0,
    ensures
        solid(joined(wrapped(text, budget))) == solid(text),
{
    lemma_segments_solid(crate::text::pieces(text, at_break()), budget);
    lemma_pieces_solid(text);
}

/// Whether a line is words parted by single spaces: it begins and ends in a word,
/// no other white character is in it, and each space is set like the character
/// before it.
pub open spec fn neat(line: Seq<Glyph>) -> bool {
    &&& line.len() > 0
    &&& !crate::text::is_white(line[0].ch)
    &&& !crate::text::is_white(line.last().ch)
    &&& forall|i: int|
        0 < i < line.len() && crate::text::is_white((#[trigger] line[i]).ch) ==> line[i].ch == ' '
            && !crate::text::is_white(line[i - 1].ch) && line[i].style == line[i - 1].style
}

/// Whether no character is white.
pub open spec fn unbroken(s: Seq<Glyph>) -> bool {
    forall|i: int| 0 <= i < s.len() ==> !crate::text::is_white((#[trigger] s[i]).ch)
}

/// Whether all lines are neat.
pub open spec fn all_neat(lines: Seq<Seq<Glyph>>) -> bool {
    forall|i: int| 0 <= i < lines.len() ==> neat(#[trigger] lines[i])
}

proof fn lemma_neat_push(lines: Seq<Seq<Glyph>>, line: Seq<Glyph>)
    requires
        all_neat(lines),
        neat(line),
    ensures
        all_neat(lines.push(line)),
{
    assert forall|i: int| 0 <= i < lines.push(line).len() implies neat(
        #[trigger] lines.push(line)[i],
    ) by {
        if i < lines.len() {
            assert(neat(lines[i]));
        }
    }
}

proof fn lemma_neat_add(a: Seq<Seq<Glyph>>, b: Seq<Seq<Glyph>>)
    requires
        all_neat(a),
        all_neat(b),
    ensures
        all_neat(a + b),
{
    assert forall|i: int| 0 <= i < (a + b).len() implies neat(#[trigger] (a + b)[i]) by {
        if i < a.len() {
            assert(neat(a[i]));
        } else {
            assert(neat(b[i - a.len()]));
        }
    }
}

/// No word holds a white character.
pub proof fn lemma_words_unbroken(s: Seq<Glyph>)
    ensures
        forall|i: int|
            0 <= i < crate::text::words(s, at_gap()).len() ==> unbroken(
                #[trigger] crate::text::words(s, at_gap())[i],
            ),
    decreases s.len(),
{
    if s.len() > 0 {
        let t = s.drop_last();
        let before = crate::text::words(t, at_gap());
        let ws = crate::text::words(s, at_gap());
        lemma_words_unbroken(t);
        crate::text::lemma_words_nonempty(t, at_gap());
        if s.len() >= 2 {
            assert(t.last() == s[s.len() - 2]);
        }
        assert forall|i: int| 0 <= i < ws.len() implies unbroken(#[trigger] ws[i]) by {
            if i < before.len() {
                assert(unbroken(before[i]));
                if i == before.len() - 1 && ws[i] != before[i] {
                    assert(ws[i] == before[i].push(s.last()));
                    assert forall|j: int| 0 <= j < ws[i].len() implies !crate::text::is_white(
                        (#[trigger] ws[i][j]).ch,
                    ) by {
                        if j < before[i].len() {
                            assert(ws[i][j] == before[i][j]);
                        }
                    }
                }
            }
        }
    }
}

proof fn lemma_chunks_neat(s: Seq<Glyph>, cols: nat)
    requires
        cols > 0,
        unbroken(s),
    ensures
        all_neat(whole_chunks(s, cols)),
        unbroken(chunk_rest(s, cols)),
    decreases s.len(),
{
    let n = cols as int;
    if cols <= s.len() {
        let first = s.take(n);
        let rest = s.skip(n);
        assert(unbroken(rest)) by {
            assert forall|i: int| 0 <= i < rest.len() implies !crate::text::is_white(
                (#[trigger] rest[i]).ch,
            ) by {
                assert(rest[i] == s[i + n]);
            }
        }
        assert(unbroken(first)) by {
            assert forall|i: int| 0 <= i < first.len() implies !crate::text::is_white(
                (#[trigger] first[i]).ch,
            ) by {
                assert(first[i] == s[i]);
            }
        }
        lemma_chunks_neat(rest, cols);
        let one: Seq<Seq<Glyph>> = seq![first];
        assert(neat(first));
        assert(all_neat(one));
        lemma_neat_add(one, whole_chunks(rest, cols));
    }
}

proof fn lemma_place_neat(f: Fill, word: Seq<Glyph>, budget: nat)
    requires
        budget > 0,
        word.len() > 0,
        unbroken(word),
        all_neat(f.done),
        f.open.len() > 0 ==> neat(f.open),
    ensures
        all_neat(place(f, word, budget).done),
        place(f, word, budget).open.len() > 0 ==> neat(place(f, word, budget).open),
{
    if f.open.len() > 0 {
        lemma_neat_push(f.done, f.open);
    }
    if word.len() > budget {
        lemma_chunks_neat(word, budget);
        lemma_neat_add(closed_lines(f), whole_chunks(word, budget));
    } else if f.open.len() > 0 && f.open.len() + 1 + word.len() <= budget {
        let sp = Glyph { ch: ' ', style: f.open.last().style };
        let line = f.open.push(sp) + word;
        let n = f.open.len() as int;
        assert(line[0] == f.open[0]);
        assert(line.last() == word.last());
        assert forall|i: int| 0 < i < line.len() && crate::text::is_white(
            (#[trigger] line[i]).ch,
        ) implies line[i].ch == ' ' && !crate::text::is_white(line[i - 1].ch) && line[i].style
            == line[i - 1].style by {
            if i < n {
                assert(line[i] == f.open[i]);
                assert(line[i - 1] == f.open[i - 1]);
            } else if i == n {
                assert(line[i] == sp);
                assert(line[i - 1] == f.open.last());
            } else {
                assert(line[i] == word[i - n - 1]);
            }
        }
    }
}

proof fn lemma_fill_neat(words: Seq<Seq<Glyph>>, budget: nat)
    requires
        budget > 0,
        forall|i: int| 0 <= i < words.len() ==> (#[trigger] words[i]).len() > 0,
        forall|i: int| 0 <= i < words.len() ==> unbroken(#[trigger] words[i]),
    ensures
        all_neat(closed_lines(fill(words, budget))),
        all_neat(fill(words, budget).done),
        fill(words, budget).open.len() > 0 ==> neat(fill(words, budget).open),
    decreases words.len(),
{
    if words.len() > 0 {
        let init = words.drop_last();
        assert forall|i: int| 0 <= i < init.len() implies (#[trigger] init[i]).len() > 0 by {
            assert(init[i] == words[i]);
        }
        assert forall|i: int| 0 <= i < init.len() implies unbroken(#[trigger] init[i]) by {
            assert(init[i] == words[i]);
        }
        lemma_fill_neat(init, budget);
        assert(words[words.len() - 1].len() > 0);
        assert(unbroken(words[words.len() - 1]));
        lemma_place_neat(fill(init, budget), words.last(), budget);
    }
    let f = fill(words, budget);
    if f.open.len() > 0 {
        lemma_neat_push(f.done, f.open);
    }
}

proof fn lemma_segments_neat(segments: Seq<Seq<Glyph>>, budget: nat)
    requires
        budget > 0,
    ensures
        all_neat(segments_lines(segments, budget)),
    decreases segments.len(),
{
    if segments.len() > 0 {
        lemma_segments_neat(segments.drop_last(), budget);
        let segment = segments.last();
        crate::text::lemma_words_nonempty(segment, at_gap());
        lemma_words_unbroken(segment);
        lemma_fill_neat(crate::text::words(segment, at_gap()), budget);
        lemma_neat_add(
            segments_lines(segments.drop_last(), budget),
            segment_lines(segment, budget),
        );
    }
}

/// A wrapped line begins and ends in a word, and its words are parted by one
/// space, set like the character before it: no other white character is left.
pub proof fn law_wrapped_lines_are_neat(text: Seq<Glyph>, budget: nat)
    requires
        budget > 0,
    ensures
        all_neat(wrapped(text, budget)),
{
    lemma_segments_neat(crate::text::pieces(text, at_break()), budget);
}

proof fn lemma_pieces_around(a: Seq<Glyph>, cut: Glyph, b: Seq<Glyph>)
    requires
        cut.ch == '\n',
    ensures
        crate::text::pieces(a.push(cut) + b, at_break()) == crate::text::pieces(a, at_break())
            + crate::text::pieces(b, at_break()),
    decreases b.len(),
{
    let s = a.push(cut) + b;
    let left = crate::text::pieces(a, at_break());
    let right = crate::text::pieces(b, at_break());
    if b.len() == 0 {
        assert(s =~= a.push(cut));
        assert(s.drop_last() =~= a);
        assert(crate::text::pieces(s, at_break()) =~= left + right);
    } else {
        let c = b.drop_last();
        let before = crate::text::pieces(c, at_break());
        lemma_pieces_around(a, cut, c);
        crate::text::lemma_pieces_nonempty(c, at_break());
        assert(s.drop_last() =~= a.push(cut) + c);
        assert(s.last() == b.last());
        assert((left + before).last() == before.last());
        assert(crate::text::pieces(s, at_break()) =~= left + right);
    }
}

proof fn lemma_segments_add(a: Seq<Seq<Glyph>>, b: Seq<Seq<Glyph>>, budget: nat)
    ensures
        segments_lines(a + b, budget) == segments_lines(a, budget) + segments_lines(b, budget),
    decreases b.len(),
{
    if b.len() == 0 {
        assert(a + b =~= a);
        assert(segments_lines(a, budget) + segments_lines(b, budget) =~= segments_lines(a, budget));
    } else {
        lemma_segments_add(a, b.drop_last(), budget);
        assert((a + b).drop_last() =~= a + b.drop_last());
        assert(segments_lines(a + b, budget) =~= segments_lines(a, budget) + segments_lines(
            b,
            budget,
        ));
    }
}

/// A line break parts lines: what stands before it and what stands behind it wrap
/// each by itself, so no line holds a word of both.
pub proof fn law_a_break_parts_the_lines(
    before: Seq<Glyph>,
    at: Glyph,
    behind: Seq<Glyph>,
    budget: nat,
)
    requires
        at.ch == '\n',
    ensures
        wrapped(before.push(at) + behind, budget) == wrapped(before, budget) + wrapped(
            behind,
            budget,
        ),
{
    lemma_pieces_around(before, at, behind);
    lemma_segments_add(
        crate::text::pieces(before, at_break()),
        crate::text::pieces(behind, at_break()),
        budget,
    );
}

proof fn lemma_held_line<T>(lines: Seq<Seq<T>>, i: int, o: int, w: Seq<T>)
    requires
        0 <= i < lines.len(),
        0 <= o,
        o + w.len() <= lines[i].len(),
        lines[i].subrange(o, o + w.len()) == w,
    ensures
        held_in_one(lines, w),
{
}

proof fn lemma_place_holds(f: Fill, word: Seq<Glyph>, budget: nat, w: Seq<Glyph>)
    requires
        w.len() > 0,
        held_in_one(closed_lines(f), w),
    ensures
        held_in_one(closed_lines(place(f, word, budget)), w),
{
    let before = closed_lines(f);
    let g = place(f, word, budget);
    let after = closed_lines(g);
    let (i, o) = choose|i: int, o: int|
        0 <= i < before.len() && 0 <= o && o + w.len() <= before[i].len()
            && #[trigger] before[i].subrange(o, o + w.len()) == w;
    if i < f.done.len() {
        assert(before[i] == f.done[i]);
        assert(after[i] == f.done[i]);
        lemma_held_line(after, i, o, w);
    } else {
        assert(before[i] == f.open);
        if word.len() > budget || f.open.len() + 1 + word.len() > budget {
            assert(after[i] == f.open);
            lemma_held_line(after, i, o, w);
        } else {
            assert(after[i] == g.open);
            assert(g.open.subrange(o, o + w.len()) =~= f.open.subrange(o, o + w.len()));
            lemma_held_line(after, i, o, w);
        }
    }
}

proof fn lemma_fill_holds(words: Seq<Seq<Glyph>>, budget: nat, k: int)
    requires
        0 <= k < words.len(),
        0 < words[k].len() <= budget,
    ensures
        held_in_one(closed_lines(fill(words, budget)), words[k]),
    decreases words.len(),
{
    let init = words.drop_last();
    let f = fill(init, budget);
    let g = fill(words, budget);
    if k < words.len() - 1 {
        lemma_fill_holds(init, budget, k);
        lemma_place_holds(f, words.last(), budget, words[k]);
    } else {
        let word = words.last();
        let lines = closed_lines(g);
        let at = g.open.len() - word.len();
        assert(lines[lines.len() - 1] == g.open);
        assert(g.open.subrange(at as int, at + word.len()) =~= word);
        lemma_held_line(lines, lines.len() - 1, at as int, word);
    }
}

proof fn lemma_held_add<T>(a: Seq<Seq<T>>, b: Seq<Seq<T>>, w: Seq<T>)
    requires
        held_in_one(a, w) || held_in_one(b, w),
    ensures
        held_in_one(a + b, w),
{
    if held_in_one(a, w) {
        let (i, o) = choose|i: int, o: int|
            0 <= i < a.len() && 0 <= o && o + w.len() <= a[i].len() && #[trigger] a[i].subrange(
                o,
                o + w.len(),
            ) == w;
        assert((a + b)[i] == a[i]);
        lemma_held_line(a + b, i, o, w);
    } else {
        let (i, o) = choose|i: int, o: int|
            0 <= i < b.len() && 0 <= o && o + w.len() <= b[i].len() && #[trigger] b[i].subrange(
                o,
                o + w.len(),
            ) == w;
        assert((a + b)[a.len() + i] == b[i]);
        lemma_held_line(a + b, a.len() + i, o, w);
    }
}

proof fn lemma_segments_hold(segments: Seq<Seq<Glyph>>, budget: nat, k: int, w: Seq<Glyph>)
    requires
        0 <= k < segments.len(),
        held_in_one(segment_lines(segments[k], budget), w),
    ensures
        held_in_one(segments_lines(segments, budget), w),
    decreases segments.len(),
{
    if k < segments.len() - 1 {
        lemma_segments_hold(segments.drop_last(), budget, k, w);
    }
    lemma_held_add(
        segments_lines(segments.drop_last(), budget),
        segment_lines(segments.last(), budget),
        w,
    );
}

/// A word that fits the budget is never cut: one line holds it whole, also where
/// its styles change inside it.
pub proof fn law_words_are_not_cut(text: Seq<Glyph>, budget: nat, segment: int, word: int)
    requires
        0 <= segment < crate::text::pieces(text, at_break()).len(),
        0 <= word < crate::text::words(
            crate::text::pieces(text, at_break())[segment],
            at_gap(),
        ).len(),
        crate::text::words(
            crate::text::pieces(text, at_break())[segment],
            at_gap(),
        )[word].len() <= budget,
    ensures
        held_in_one(
            wrapped(text, budget),
            crate::text::words(crate::text::pieces(text, at_break())[segment], at_gap())[word],
        ),
{
    let ps = crate::text::pieces(text, at_break());
    let ws = crate::text::words(ps[segment], at_gap());
    crate::text::lemma_words_nonempty(ps[segment], at_gap());
    lemma_fill_holds(ws, budget, word);
    lemma_segments_hold(ps, budget, segment, ws[word]);
}

/// A line that is cut falls into pieces that fit, none of them empty but the
/// empty line's own, and they are the line again one after the other.
pub proof fn law_cut_line_is_the_line(line: Seq<char>, cols: nat)
    requires
        cols > 0,
    ensures
        joined(cut_line(line, cols)) == line,
        line.len() > 0 ==> within(cut_line(line, cols), cols),
{
    lemma_chunks_within(line, cols);
    if line.len() <= cols {
        lemma_joined_one(line);
    } else if chunk_rest(line, cols).len() > 0 {
        lemma_joined_push(whole_chunks(line, cols), chunk_rest(line, cols));
        lemma_within_push(whole_chunks(line, cols), chunk_rest(line, cols), cols);
    } else {
        assert(joined(whole_chunks(line, cols)) + chunk_rest(line, cols) =~= joined(
            whole_chunks(line, cols),
        ));
    }
}

proof fn lemma_glyphs_push(text: Seq<char>, style: crate::markdown::StyleView, c: char)
    ensures
        glyphs(text.push(c), style) == glyphs(text, style).push(glyph(c, style)),
{
    assert(glyphs(text.push(c), style) =~= glyphs(text, style).push(glyph(c, style)));
}

proof fn lemma_flat_add_glyph(runs: Seq<crate::markdown::RunView>, g: Glyph)
    ensures
        flat(add_glyph(runs, g)) == flat(runs).push(g),
{
    let next = add_glyph(runs, g);
    if runs.len() > 0 && runs.last().style == g.style {
        assert(next.drop_last() =~= runs.drop_last());
        lemma_glyphs_push(runs.last().text, g.style, g.ch);
        assert(flat(next) =~= flat(runs).push(g));
    } else {
        assert(next.drop_last() =~= runs);
        assert(glyphs(seq![g.ch], g.style) =~= seq![g]);
        assert(flat(next) =~= flat(runs).push(g));
    }
}

/// The runs of a line set exactly its characters in their styles, and no two
/// neighbours could share a run.
pub proof fn law_runs_set_the_line(line: Seq<Glyph>)
    ensures
        flat(runs_of(line)) == line,
        forall|i: int, j: int|
            0 <= i < j < runs_of(line).len() && j == i + 1 ==> (#[trigger] runs_of(line)[i]).style
                != (#[trigger] runs_of(line)[j]).style,
    decreases line.len(),
{
    if line.len() == 0 {
        assert(flat(runs_of(line)) =~= line);
    } else {
        law_runs_set_the_line(line.drop_last());
        lemma_flat_add_glyph(runs_of(line.drop_last()), line.last());
        assert(line.drop_last().push(line.last()) =~= line);
    }
}

proof fn lemma_flat_front(run: crate::markdown::RunView, runs: Seq<crate::markdown::RunView>)
    ensures
        flat(seq![run] + runs) == glyphs(run.text, run.style) + flat(runs),
    decreases runs.len(),
{
    let all = seq![run] + runs;
    if runs.len() == 0 {
        let none: Seq<crate::markdown::RunView> = Seq::empty();
        assert(all.drop_last() =~= none);
        assert(runs =~= none);
        assert(flat(none) =~= Seq::<Glyph>::empty());
        assert(flat(all) =~= glyphs(run.text, run.style) + flat(runs));
    } else {
        lemma_flat_front(run, runs.drop_last());
        assert(all.drop_last() =~= seq![run] + runs.drop_last());
        assert(flat(all) =~= glyphs(run.text, run.style) + flat(runs));
    }
}

/// A finished line is as wide as its indentation and what it holds, so it never
/// passes the columns of a thought as long as the indentation leaves the least
/// budget.
pub proof fn law_finished_lines_fit(text: Seq<Glyph>, indent: nat, i: int)
    requires
        0 <= i < wrapped_lines(text, indent).len(),
    ensures
        flat(wrapped_lines(text, indent)[i]).len() <= indent + budget_at(indent),
        indent + MIN_WRAP_COLS <= THOUGHT_WRAP_COLS ==> flat(wrapped_lines(text, indent)[i]).len()
            <= THOUGHT_WRAP_COLS,
{
    let lines = wrapped(text, budget_at(indent));
    law_wrapped_lines_fit(text, budget_at(indent));
    assert(0 < lines[i].len() <= budget_at(indent));
    law_runs_set_the_line(lines[i]);
    lemma_flat_front(indent_view(indent), runs_of(lines[i]));
}

} // verus!
