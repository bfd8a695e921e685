//! Parsed markdown: block trees and styled inline runs.
use std::ops::Range;

use vstd::prelude::*;

verus! {

/// How a run of inline text is set.
pub struct InlineStyle {
    pub bold: bool,
    pub italic: bool,
    pub code: bool,
    pub strikethrough: bool,
    /// The target, where the run is a link.
    pub link: Option<String>,
}

/// A stretch of inline text in one style.
pub struct InlineRun {
    pub text: String,
    pub style: InlineStyle,
}

/// A markdown block.
pub enum Block {
    Paragraph { runs: Vec<InlineRun> },
    Heading { level: u8, runs: Vec<InlineRun> },
    CodeBlock { language: Option<String>, code: String },
    List { ordered_start: Option<u64>, items: Vec<Vec<Block>> },
    BlockQuote { children: Vec<Block> },
    Table { header: Vec<Vec<InlineRun>>, rows: Vec<Vec<Vec<InlineRun>>> },
    Rule,
}

/// A top-level block and the bytes of the source it was parsed from.
pub struct TopBlock {
    pub block: Block,
    pub range: Range<usize>,
}

/// The top-level blocks of a parsed text, in source order.
pub struct BlockTree {
    pub blocks: Vec<TopBlock>,
}

/// The text of an optional string.
pub open spec fn opt_text(s: Option<String>) -> Option<Seq<char>> {
    match s {
        Some(t) => Some(t@),
        None => None,
    }
}

/// A copy of an optional string.
pub fn copy_opt(s: &Option<String>) -> (r: Option<String>)
    ensures
        r == *s,
{
    match s {
        Some(t) => Some(t.clone()),
        None => None,
    }
}

/// What an [`InlineStyle`] holds.
#[verifier::ext_equal]
pub struct StyleView {
    pub bold: bool,
    pub italic: bool,
    pub code: bool,
    pub strikethrough: bool,
    pub link: Option<Seq<char>>,
}

/// What an [`InlineRun`] holds.
#[verifier::ext_equal]
pub struct RunView {
    pub text: Seq<char>,
    pub style: StyleView,
}

impl View for InlineStyle {
    type V = StyleView;

    open spec fn view(&self) -> StyleView {
        StyleView {
            bold: self.bold,
            italic: self.italic,
            code: self.code,
            strikethrough: self.strikethrough,
            link: opt_text(self.link),
        }
    }
}

impl View for InlineRun {
    type V = RunView;

    open spec fn view(&self) -> RunView {
        RunView { text: self.text@, style: self.style@ }
    }
}

/// The style of unmarked text.
pub open spec fn plain_style() -> StyleView {
    StyleView { bold: false, italic: false, code: false, strikethrough: false, link: None }
}

/// The style of inline code.
pub open spec fn code_style() -> StyleView {
    StyleView { code: true, ..plain_style() }
}

impl Default for InlineStyle {
    fn default() -> (r: Self)
        ensures
            r@ == plain_style(),
    {
        InlineStyle { bold: false, italic: false, code: false, strikethrough: false, link: None }
    }
}

impl Clone for InlineStyle {
    fn clone(&self) -> (r: Self)
        ensures
            r == *self,
    {
        InlineStyle {
            bold: self.bold,
            italic: self.italic,
            code: self.code,
            strikethrough: self.strikethrough,
            link: copy_opt(&self.link),
        }
    }
}

impl Clone for InlineRun {
    fn clone(&self) -> (r: Self)
        ensures
            r == *self,
    {
        InlineRun { text: self.text.clone(), style: self.style.clone() }
    }
}

impl InlineStyle {
    /// Whether two styles set text alike.
    pub fn same(&self, other: &InlineStyle) -> (r: bool)
        ensures
            r == (self@ == other@),
    {
        let links = match (&self.link, &other.link) {
            (None, None) => true,
            (Some(a), Some(b)) => *a == *b,
            _ => false,
        };
        self.bold == other.bold && self.italic == other.italic && self.code == other.code
            && self.strikethrough == other.strikethrough && links
    }
}

/// What a sequence of runs holds.
pub open spec fn run_views(s: Seq<InlineRun>) -> Seq<RunView> {
    Seq::new(s.len(), |i: int| s[i]@)
}

/// What a sequence of lines holds.
pub open spec fn line_views(s: Seq<Vec<InlineRun>>) -> Seq<Seq<RunView>> {
    Seq::new(s.len(), |i: int| run_views(s[i]@))
}

/// `run_views` of one more run.
pub proof fn lemma_run_views_push(s: Seq<InlineRun>, r: InlineRun)
    ensures
        run_views(s.push(r)) == run_views(s).push(r@),
{
    assert(run_views(s.push(r)) =~= run_views(s).push(r@));
}

/// `line_views` of one more line.
pub proof fn lemma_line_views_push(s: Seq<Vec<InlineRun>>, l: Vec<InlineRun>)
    ensures
        line_views(s.push(l)) == line_views(s).push(run_views(l@)),
{
    assert(line_views(s.push(l)) =~= line_views(s).push(run_views(l@)));
}

/// `line_views` of two sequences on end.
pub proof fn lemma_line_views_add(s: Seq<Vec<InlineRun>>, t: Seq<Vec<InlineRun>>)
    ensures
        line_views(s + t) == line_views(s) + line_views(t),
{
    assert(line_views(s + t) =~= line_views(s) + line_views(t));
}

} // verus!
