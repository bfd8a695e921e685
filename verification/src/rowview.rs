//! What a row shows around its content: its gaps, its bubble, its hover strip.
use vstd::prelude::*;

use crate::message::MentionSpan;
use crate::rows::{Row, RowKind};
use crate::rowset::RowGap;

verus! {

/// The space above a row.
#[derive(Debug, Clone, Copy, PartialEq, Eq, Structural)]
pub enum TopGap {
    /// The first row of a chat rests below the titlebar.
    BelowTitlebar,
    /// The first row in the right pane, which is below the titlebar already.
    PaneTop,
    Between(RowGap),
}

/// The space below a row.
#[derive(Debug, Clone, Copy, PartialEq, Eq, Structural)]
pub enum BottomPad {
    Nothing,
    /// The last row clears what the transcript scrolls under, and keeps the
    /// space reserved for a reply where its prompt is there.
    Clearance { runway: bool },
}

/// The space above a row.
pub open spec fn top_gap(rows: Seq<crate::rows::RowView>, ix: int, in_pane: bool) -> TopGap {
    if ix == 0 {
        if in_pane {
            TopGap::PaneTop
        } else {
            TopGap::BelowTitlebar
        }
    } else {
        TopGap::Between(crate::rowset::gap_above(Some(rows[ix - 1]), rows[ix]))
    }
}

/// Whether a message has a row.
pub open spec fn has_entry(rows: Seq<crate::rows::RowView>, message_id: Option<Seq<char>>) -> bool {
    message_id matches Some(m) && exists|i: int|
        0 <= i < rows.len() && (#[trigger] rows[i]).entry_id == m
}

fn entry_shown(rows: &Vec<Row>, message_id: &Option<String>) -> (r: bool)
    ensures
        r == has_entry(crate::rows::row_views(rows@), crate::markdown::opt_text(*message_id)),
{
    let ghost views = crate::rows::row_views(rows@);
    let m = match message_id {
        Some(m) => m,
        None => {
            return false;
        },
    };
    let mut i: usize = 0;
    while i < rows.len()
        invariant
            i <= rows@.len(),
            views == crate::rows::row_views(rows@),
            crate::markdown::opt_text(*message_id) == Some(m@),
            forall|j: int| 0 <= j < i ==> (#[trigger] views[j]).entry_id != m@,
        decreases rows.len() - i,
    {
        assert(views[i as int] == rows@[i as int]@);
        if rows[i].entry_id == *m {
            return true;
        }
        i = i + 1;
    }
    false
}

/// The space above and below a row; nothing for a row that is not there.
/// `turn` is the message that the reserved space belongs to.
pub fn row_frame(rows: &Vec<Row>, ix: usize, in_pane: bool, turn: &Option<String>) -> (r: Option<
    (TopGap, BottomPad),
>)
    ensures
        ({
            let views = crate::rows::row_views(rows@);
            r == if ix < rows@.len() {
                Some(
                    (
                        top_gap(views, ix as int, in_pane),
                        if ix + 1 == rows@.len() {
                            BottomPad::Clearance {
                                runway: has_entry(views, crate::markdown::opt_text(*turn)),
                            }
                        } else {
                            BottomPad::Nothing
                        },
                    ),
                )
            } else {
                None
            }
        }),
{
    if ix >= rows.len() {
        return None;
    }
    let ghost views = crate::rows::row_views(rows@);
    let top = if ix == 0 {
        if in_pane {
            TopGap::PaneTop
        } else {
            TopGap::BelowTitlebar
        }
    } else {
        assert(views[ix - 1] == rows@[ix - 1]@);
        assert(views[ix as int] == rows@[ix as int]@);
        TopGap::Between(crate::rowset::top_gap_for(Some(&rows[ix - 1]), &rows[ix]))
    };
    let bottom = if ix == rows.len() - 1 {
        BottomPad::Clearance { runway: entry_shown(rows, turn) }
    } else {
        BottomPad::Nothing
    };
    Some((top, bottom))
}

/// What stands of a prompt: its images, its badges and its bubble.
#[derive(Debug, Clone, Copy, PartialEq, Eq, Structural)]
pub struct UserSections {
    pub attachments: bool,
    pub badges: bool,
    /// A prompt of images alone has no bubble.
    pub bubble: bool,
    /// Not confirmed yet: the bubble is faint.
    pub faint: bool,
}

/// What stands of a prompt; nothing for any other row.
pub fn user_sections(kind: &RowKind) -> (r: Option<UserSections>)
    ensures
        r == match kind@ {
            crate::rows::KindView::User { text, mentions, attachments, badges, pending } => Some(
                UserSections {
                    attachments: attachments@.len() > 0,
                    badges: badges@.len() > 0,
                    bubble: text.len() > 0,
                    faint: pending,
                },
            ),
            _ => None,
        },
{
    match kind {
        RowKind::User { text, mentions: _, attachments, badges, pending } => Some(
            UserSections {
                attachments: attachments.len() > 0,
                badges: badges.len() > 0,
                bubble: !text.as_str().is_empty(),
                faint: *pending,
            },
        ),
        _ => None,
    }
}

// ---------------------------------------------------------------------------
// The bubble's text
// ---------------------------------------------------------------------------

/// A stretch of a prompt's text, in bytes: plain, or a mention's chip.
#[derive(Debug, Clone, Copy, PartialEq, Eq, Structural)]
pub struct BubbleRun {
    pub len: usize,
    pub chip: bool,
}

/// The length of a mention.
pub open spec fn span_len(span: MentionSpan) -> nat {
    if span.range.start < span.range.end {
        (span.range.end - span.range.start) as nat
    } else {
        0
    }
}

/// The stretch of a mention.
pub open spec fn chip_run(span: MentionSpan) -> BubbleRun {
    BubbleRun { len: span_len(span) as usize, chip: true }
}

/// Where the mentions end.
pub open spec fn spans_end(spans: Seq<MentionSpan>) -> nat {
    if spans.len() == 0 {
        0
    } else {
        spans.last().range.end as nat
    }
}

/// The stretches up to the end of the mentions.
pub open spec fn span_runs(spans: Seq<MentionSpan>) -> Seq<BubbleRun>
    decreases spans.len(),
{
    if spans.len() == 0 {
        Seq::empty()
    } else {
        let before = span_runs(spans.drop_last());
        let at = spans_end(spans.drop_last());
        let start = spans.last().range.start;
        let filled = if at < start {
            before.push(BubbleRun { len: (start - at) as usize, chip: false })
        } else {
            before
        };
        filled.push(chip_run(spans.last()))
    }
}

/// The stretches of a text of `len` bytes with mentions in it.
pub open spec fn bubble_runs_of(len: nat, spans: Seq<MentionSpan>) -> Seq<BubbleRun> {
    let at = spans_end(spans);
    if at < len {
        span_runs(spans).push(BubbleRun { len: (len - at) as usize, chip: false })
    } else {
        span_runs(spans)
    }
}

/// The stretches of a prompt's text of `len` bytes: each mention, and what
/// stands before, between and after them.
pub fn bubble_runs(len: usize, mentions: &Vec<MentionSpan>) -> (r: Vec<BubbleRun>)
    ensures
        r@ == bubble_runs_of(len as nat, mentions@),
{
    let mut runs: Vec<BubbleRun> = Vec::new();
    let mut at: usize = 0;
    let mut i: usize = 0;
    assert(mentions@.take(0) =~= Seq::empty());
    while i < mentions.len()
        invariant
            i <= mentions@.len(),
            at == spans_end(mentions@.take(i as int)),
            runs@ == span_runs(mentions@.take(i as int)),
        decreases mentions.len() - i,
    {
        assert(mentions@.take(i + 1).drop_last() =~= mentions@.take(i as int));
        assert(mentions@.take(i + 1).last() == mentions@[i as int]);
        let start: usize = mentions[i].range.start;
        let end: usize = mentions[i].range.end;
        if at < start {
            runs.push(BubbleRun { len: start - at, chip: false });
        }
        let long: usize = if start < end {
            end - start
        } else {
            0
        };
        runs.push(BubbleRun { len: long, chip: true });
        at = end;
        i = i + 1;
    }
    assert(mentions@.take(i as int) =~= mentions@);
    if at < len {
        runs.push(BubbleRun { len: len - at, chip: false });
    }
    runs
}

/// The bytes that stretches cover.
pub open spec fn covered(runs: Seq<BubbleRun>) -> nat
    decreases runs.len(),
{
    if runs.len() == 0 {
        0
    } else {
        covered(runs.drop_last()) + runs.last().len as nat
    }
}

/// Whether mentions stand in order, none over another, within `len` bytes.
pub open spec fn in_order(spans: Seq<MentionSpan>, len: nat) -> bool {
    &&& forall|i: int|
        0 <= i < spans.len() ==> (#[trigger] spans[i]).range.start <= spans[i].range.end
            && spans[i].range.end <= len
    &&& forall|i: int, j: int|
        0 <= i < j < spans.len() ==> (#[trigger] spans[i]).range.end <= (
        #[trigger] spans[j]).range.start
}

proof fn lemma_covered_push(runs: Seq<BubbleRun>, r: BubbleRun)
    ensures
        covered(runs.push(r)) == covered(runs) + r.len,
{
    assert(runs.push(r).drop_last() =~= runs);
}

/// Up to the last mention, the stretches cover just what comes before its end.
pub proof fn lemma_spans_covered(spans: Seq<MentionSpan>, len: nat)
    requires
        in_order(spans, len),
        len <= usize::MAX,
    ensures
        covered(span_runs(spans)) == spans_end(spans),
    decreases spans.len(),
{
    if spans.len() > 0 {
        let init = spans.drop_last();
        lemma_spans_covered(init, len);
        let before = span_runs(init);
        let at = spans_end(init);
        let start = spans.last().range.start;
        if init.len() > 0 {
            assert(spans[init.len() - 1].range.end <= spans[spans.len() - 1].range.start);
        }
        let gap = BubbleRun { len: (start - at) as usize, chip: false };
        lemma_covered_push(before, gap);
        if at < start {
            lemma_covered_push(before.push(gap), chip_run(spans.last()));
        } else {
            lemma_covered_push(before, chip_run(spans.last()));
        }
    }
}

/// The stretches of a text cover it, whatever mentions stand in it in order.
pub proof fn law_bubble_runs_cover_the_text(len: usize, spans: Seq<MentionSpan>)
    requires
        in_order(spans, len as nat),
    ensures
        covered(bubble_runs_of(len as nat, spans)) == len,
{
    lemma_spans_covered(spans, len as nat);
    if spans.len() > 0 {
        assert(spans[spans.len() - 1].range.end <= len);
    }
    let at = spans_end(spans);
    lemma_covered_push(span_runs(spans), BubbleRun { len: (len - at) as usize, chip: false });
}

// ---------------------------------------------------------------------------
// Hovering and copying
// ---------------------------------------------------------------------------

/// The row that the pointer is on, and its entry.
pub struct Hover {
    pub row: String,
    pub entry: String,
}

/// What an optional [`Hover`] holds.
pub open spec fn opt_hover(h: Option<Hover>) -> Option<(Seq<char>, Seq<char>)> {
    match h {
        Some(h) => Some((h.row@, h.entry@)),
        None => None,
    }
}

/// The pointer came onto a row. Says whether the strip moves to another entry.
pub fn hover_row(hover: &mut Option<Hover>, row: &str, entry: &str) -> (r: bool)
    ensures
        opt_hover(*final(hover)) == Some((row@, entry@)),
        r == match opt_hover(*old(hover)) {
            Some((_, e)) => e != entry@,
            None => true,
        },
{
    let moved = match hover {
        Some(h) => h.entry != entry.to_owned(),
        None => true,
    };
    *hover = Some(Hover { row: row.to_owned(), entry: entry.to_owned() });
    moved
}

/// The pointer left a row. Only the row that it was last on clears the strip: a
/// leave that comes late does not take it from the next row.
pub fn leave_row(hover: &mut Option<Hover>, row: &str) -> (r: bool)
    ensures
        r == match opt_hover(*old(hover)) {
            Some((owner, _)) => owner == row@,
            None => false,
        },
        opt_hover(*final(hover)) == if r {
            None
        } else {
            opt_hover(*old(hover))
        },
{
    let owns = match hover {
        Some(h) => h.row == row.to_owned(),
        None => false,
    };
    if owns {
        *hover = None;
    }
    owns
}

/// The strip under an entry's last row.
pub struct MetaStrip {
    /// When the entry was made.
    pub ms: i64,
    /// It stands at the right, under a bubble.
    pub at_end: bool,
    /// The pointer is on the entry.
    pub shown: bool,
    /// What its copy button copies.
    pub copy: Option<String>,
    /// It was copied just now.
    pub copied: bool,
}

/// The strip under a row; nothing for a row without a time. Its place is
/// reserved whether it is shown or not.
pub fn meta_strip(row: &Row, hover: &Option<Hover>, copied: &Option<String>) -> (r: Option<
    MetaStrip,
>)
    ensures
        match r {
            Some(s) => {
                &&& row@.timestamp == Some(s.ms)
                &&& s.at_end == (row@.kind is User)
                &&& s.shown == (opt_hover(*hover) matches Some((_, e)) && e == row@.entry_id)
                &&& crate::markdown::opt_text(s.copy) == row@.copy_text
                &&& s.copied == (crate::markdown::opt_text(*copied) == Some(row@.entry_id))
            },
            None => row@.timestamp is None,
        },
{
    let ms = match row.timestamp {
        Some(ms) => ms,
        None => {
            return None;
        },
    };
    let at_end = match row.kind {
        RowKind::User { .. } => true,
        _ => false,
    };
    let shown = match hover {
        Some(h) => h.entry == row.entry_id,
        None => false,
    };
    let was_copied = match copied {
        Some(c) => *c == row.entry_id,
        None => false,
    };
    Some(
        MetaStrip {
            ms,
            at_end,
            shown,
            copy: crate::markdown::copy_opt(&row.copy_text),
            copied: was_copied,
        },
    )
}

/// The code block of a row that was copied just now.
pub fn copied_block(copied: &Option<(String, usize)>, row_id: &str) -> (r: Option<usize>)
    ensures
        r == match *copied {
            Some(c) => if c.0@ == row_id@ {
                Some(c.1)
            } else {
                None
            },
            None => None,
        },
{
    match copied {
        Some(c) => if c.0 == row_id.to_owned() {
            Some(c.1)
        } else {
            None
        },
        None => None,
    }
}

} // verus!
