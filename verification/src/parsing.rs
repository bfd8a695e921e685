//! How a row's markdown comes to be parsed: live parts by a parser that is fed
//! the growing text, settled parts once, with the live parser's tree taken over
//! where it saw the same text.
use std::sync::Arc;

use vstd::hash_map::StringHashMap;
use vstd::prelude::*;

use crate::markdown::BlockTree;

verus! {

/// How a row's tree was produced.
#[derive(Debug, Clone, Copy, PartialEq, Eq, Structural)]
pub enum ParseOutcome {
    /// The live parser advanced by one commit.
    Incremental {
        /// Bytes parsed for this commit.
        parsed_bytes: usize,
        /// Leading top-level blocks left untouched.
        stable_prefix_blocks: usize,
    },
    /// The settled tree was at hand.
    Cached,
    /// The live parser's tree was taken over.
    Handoff,
    /// The text was parsed from scratch.
    Full,
}

/// What is to be done for a row's tree.
pub enum ParseStep {
    /// Give the text to the live parser of the key, a new one where there is
    /// none, and show its display tree.
    Advance,
    /// Use this settled tree.
    Reuse(Arc<BlockTree>),
    /// Take the tree of the live parser of the key, which is dropped.
    Adopt,
    /// Parse the text; a live parser of the key is dropped.
    Parse,
}

/// The texts that the live parsers hold and the trees of settled parts.
pub struct ParseCaches {
    live: StringHashMap<String>,
    settled: StringHashMap<(usize, Arc<BlockTree>)>,
}

/// What a [`ParseCaches`] holds.
#[verifier::ext_equal]
pub struct CachesView {
    /// The text of each live parser.
    pub live: Map<Seq<char>, Seq<char>>,
    /// Each settled tree with its text's length in bytes.
    pub settled: Map<Seq<char>, (usize, Arc<BlockTree>)>,
}

impl View for ParseCaches {
    type V = CachesView;

    closed spec fn view(&self) -> CachesView {
        CachesView {
            live: self.live@.map_values(|s: String| s@),
            settled: self.settled@,
        }
    }
}

/// The length of a text in bytes.
pub open spec fn byte_len(text: Seq<char>) -> usize {
    vstd::utf8::encode_utf8(text).len() as usize
}

/// Whether the tree of `key` is settled for a text of this length.
pub open spec fn is_settled(c: CachesView, key: Seq<char>, text: Seq<char>) -> bool {
    c.settled.contains_key(key) && c.settled[key].0 == byte_len(text)
}

/// What is to be done, and the caches after the decision.
pub open spec fn parse_plan(
    c: CachesView,
    streaming: bool,
    key: Seq<char>,
    text: Seq<char>,
) -> (ParseStep, CachesView) {
    if streaming {
        (ParseStep::Advance, CachesView { live: c.live.insert(key, text), ..c })
    } else if is_settled(c, key, text) {
        (ParseStep::Reuse(c.settled[key].1), c)
    } else if c.live.contains_key(key) && c.live[key] == text {
        (ParseStep::Adopt, CachesView { live: c.live.remove(key), ..c })
    } else {
        (ParseStep::Parse, CachesView { live: c.live.remove(key), ..c })
    }
}

/// The caches once the step has given `tree`: a tree that was made for a
/// settled part is kept.
pub open spec fn parse_kept(
    c: CachesView,
    step: ParseStep,
    key: Seq<char>,
    text: Seq<char>,
    tree: Arc<BlockTree>,
) -> CachesView {
    if step is Adopt || step is Parse {
        CachesView { settled: c.settled.insert(key, (byte_len(text), tree)), ..c }
    } else {
        c
    }
}

impl ParseCaches {
    /// Nothing parsed yet.
    pub fn new() -> (r: Self)
        ensures
            r@ == (CachesView { live: Map::empty(), settled: Map::empty() }),
    {
        let r = ParseCaches { live: StringHashMap::new(), settled: StringHashMap::new() };
        assert(r@.live =~= Map::empty());
        r
    }

    /// Keeps the tree that a step gave for a settled part.
    pub fn keep(&mut self, step: &ParseStep, key: &str, text: &str, tree: &Arc<BlockTree>)
        ensures
            final(self)@ == parse_kept(old(self)@, *step, key@, text@, *tree),
    {
        match step {
            ParseStep::Adopt | ParseStep::Parse => {
                self.settled.insert(key.to_owned(), (text.len(), tree.clone()));
            },
            _ => {},
        }
    }
}

/// Decides how the tree of one text part is to be had: once per part and sync.
/// A streaming part advances its live parser. A settled one takes the cached
/// tree of the same length, else the live parser's tree where that saw the same
/// text, else a full parse.
pub fn parse_for_row(streaming: bool, key: &str, text: &str, caches: &mut ParseCaches) -> (r:
    ParseStep)
    ensures
        ({
            let plan = parse_plan(old(caches)@, streaming, key@, text@);
            r == plan.0 && final(caches)@ == plan.1
        }),
{
    let ghost before = caches@;
    if streaming {
        caches.live.insert(key.to_owned(), text.to_owned());
        assert(caches@.live =~= before.live.insert(key@, text@));
        return ParseStep::Advance;
    }
    if let Some(entry) = caches.settled.get(key) {
        if entry.0 == text.len() {
            return ParseStep::Reuse(entry.1.clone());
        }
    }
    let same = match caches.live.get(key) {
        Some(source) => *source == text.to_owned(),
        None => false,
    };
    caches.live.remove(key);
    assert(caches@.live =~= before.live.remove(key@));
    if same {
        ParseStep::Adopt
    } else {
        ParseStep::Parse
    }
}

/// How the tree of a step counts; a live parser's work is given.
pub fn parse_outcome(step: &ParseStep, parsed_bytes: usize, stable_prefix_blocks: usize) -> (r:
    ParseOutcome)
    ensures
        r == match *step {
            ParseStep::Advance => ParseOutcome::Incremental { parsed_bytes, stable_prefix_blocks },
            ParseStep::Reuse(_) => ParseOutcome::Cached,
            ParseStep::Adopt => ParseOutcome::Handoff,
            ParseStep::Parse => ParseOutcome::Full,
        },
{
    match step {
        ParseStep::Advance => ParseOutcome::Incremental { parsed_bytes, stable_prefix_blocks },
        ParseStep::Reuse(_) => ParseOutcome::Cached,
        ParseStep::Adopt => ParseOutcome::Handoff,
        ParseStep::Parse => ParseOutcome::Full,
    }
}

/// A live part that settles with the text it last streamed takes over the live
/// parser's tree, unless a tree of that length is settled already.
pub proof fn law_settling_adopts_the_live_tree(c: CachesView, key: Seq<char>, text: Seq<char>)
    requires
        !is_settled(c, key, text),
    ensures
        parse_plan(parse_plan(c, true, key, text).1, false, key, text).0 == ParseStep::Adopt,
{
}

/// Once a settled part has its tree, asking again parses nothing and gives that
/// tree.
pub proof fn law_settled_trees_are_reused(
    c: CachesView,
    key: Seq<char>,
    text: Seq<char>,
    tree: Arc<BlockTree>,
)
    requires
        !is_settled(c, key, text),
    ensures
        ({
            let (step, after) = parse_plan(c, false, key, text);
            let kept = parse_kept(after, step, key, text, tree);
            parse_plan(kept, false, key, text) == (ParseStep::Reuse(tree), kept)
        }),
{
}

/// Deciding for one part leaves what is kept of the others alone.
pub proof fn law_parts_do_not_interfere(
    c: CachesView,
    streaming: bool,
    key: Seq<char>,
    text: Seq<char>,
    other: Seq<char>,
)
    requires
        key != other,
    ensures
        ({
            let after = parse_plan(c, streaming, key, text).1;
            &&& after.live.contains_key(other) == c.live.contains_key(other)
            &&& c.live.contains_key(other) ==> after.live[other] == c.live[other]
            &&& after.settled == c.settled
        }),
{
}

} // verus!
