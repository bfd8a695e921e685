//! Which code is highlighted, and which of it must be highlighted anew.

use vstd::hash_map::StringHashMap;
use vstd::prelude::*;

use crate::markdown::{Block, BlockTree};
use crate::tools::ToolDetail;

verus! {

/// The languages that can be highlighted.
#[derive(Debug, Clone, Copy, PartialEq, Eq, Structural)]
pub enum Lang {
    Rust,
    JavaScript,
    Jsx,
    TypeScript,
    Tsx,
    Python,
    Go,
    Json,
    Jsonc,
    Bash,
    Toml,
    Markdown,
    Html,
    Css,
    Yaml,
    C,
    Cpp,
    CSharp,
    Java,
    Kotlin,
    Swift,
    Ruby,
    Php,
    Sql,
    Lua,
    Dockerfile,
    Nix,
    Make,
}

/// The tag of a language.
pub open spec fn tag_of(lang: Lang) -> Seq<char> {
    match lang {
        Lang::Rust => "rust"@,
        Lang::JavaScript => "javascript"@,
        Lang::Jsx => "jsx"@,
        Lang::TypeScript => "typescript"@,
        Lang::Tsx => "tsx"@,
        Lang::Python => "python"@,
        Lang::Go => "go"@,
        Lang::Json => "json"@,
        Lang::Jsonc => "jsonc"@,
        Lang::Bash => "bash"@,
        Lang::Toml => "toml"@,
        Lang::Markdown => "markdown"@,
        Lang::Html => "html"@,
        Lang::Css => "css"@,
        Lang::Yaml => "yaml"@,
        Lang::C => "c"@,
        Lang::Cpp => "cpp"@,
        Lang::CSharp => "csharp"@,
        Lang::Java => "java"@,
        Lang::Kotlin => "kotlin"@,
        Lang::Swift => "swift"@,
        Lang::Ruby => "ruby"@,
        Lang::Php => "php"@,
        Lang::Sql => "sql"@,
        Lang::Lua => "lua"@,
        Lang::Dockerfile => "dockerfile"@,
        Lang::Nix => "nix"@,
        Lang::Make => "make"@,
    }
}

/// The fence tag that the highlighter is given for a language.
pub fn fence_tag(lang: Lang) -> (r: &'static str)
    ensures
        r@ == tag_of(lang),
{
    match lang {
        Lang::Rust => "rust",
        Lang::JavaScript => "javascript",
        Lang::Jsx => "jsx",
        Lang::TypeScript => "typescript",
        Lang::Tsx => "tsx",
        Lang::Python => "python",
        Lang::Go => "go",
        Lang::Json => "json",
        Lang::Jsonc => "jsonc",
        Lang::Bash => "bash",
        Lang::Toml => "toml",
        Lang::Markdown => "markdown",
        Lang::Html => "html",
        Lang::Css => "css",
        Lang::Yaml => "yaml",
        Lang::C => "c",
        Lang::Cpp => "cpp",
        Lang::CSharp => "csharp",
        Lang::Java => "java",
        Lang::Kotlin => "kotlin",
        Lang::Swift => "swift",
        Lang::Ruby => "ruby",
        Lang::Php => "php",
        Lang::Sql => "sql",
        Lang::Lua => "lua",
        Lang::Dockerfile => "dockerfile",
        Lang::Nix => "nix",
        Lang::Make => "make",
    }
}

/// A source text to highlight: its language and the print of its text.
#[derive(Debug, Clone, Copy, PartialEq, Eq, Structural)]
pub struct SourceKey {
    pub lang: Lang,
    pub print: u64,
}

/// What a place in the transcript has: the source that was asked for there, and
/// the handle of its highlights once they are there.
#[derive(Debug, Clone, Copy, PartialEq, Eq, Structural)]
pub struct Slot {
    pub key: SourceKey,
    pub document: Option<u64>,
}

/// What a request for highlights comes to.
#[derive(Debug, Clone, Copy, PartialEq, Eq, Structural)]
pub enum HighlightStep {
    /// They are there, by their handle.
    Ready { document: u64 },
    /// They are on their way.
    Pending,
    /// Make them.
    Start,
}

/// The places that asked for highlights, by their key.
pub struct HighlightStore {
    slots: StringHashMap<Slot>,
}

impl View for HighlightStore {
    type V = Map<Seq<char>, Slot>;

    closed spec fn view(&self) -> Map<Seq<char>, Slot> {
        self.slots@
    }
}

/// The key of a place: `{row}#{block}`.
pub open spec fn slot_key(row_id: Seq<char>, block_ix: nat) -> Seq<char> {
    row_id + "#"@ + crate::text::decimal(block_ix)
}

fn make_slot_key(row_id: &str, block_ix: usize) -> (r: String)
    ensures
        r@ == slot_key(row_id@, block_ix as nat),
{
    let mut s = row_id.to_owned();
    crate::text::push_text(&mut s, "#");
    crate::text::push_decimal(&mut s, block_ix as u64);
    s
}

/// What a request comes to: highlights for the same source that are still
/// there, or on their way, serve; else those that are cached; else they are
/// made.
pub open spec fn request_step(
    slot: Option<Slot>,
    key: SourceKey,
    alive: bool,
    cached: Option<u64>,
) -> HighlightStep {
    match slot {
        Some(s) => if s.key == key && s.document is None {
            HighlightStep::Pending
        } else if s.key == key && alive {
            HighlightStep::Ready { document: s.document->0 }
        } else {
            fresh_step(cached)
        },
        None => fresh_step(cached),
    }
}

/// What a request comes to where its place does not serve.
pub open spec fn fresh_step(cached: Option<u64>) -> HighlightStep {
    match cached {
        Some(d) => HighlightStep::Ready { document: d },
        None => HighlightStep::Start,
    }
}

/// Whether a place serves a request as it is.
pub open spec fn serves(slot: Option<Slot>, key: SourceKey, alive: bool) -> bool {
    slot matches Some(s) && s.key == key && (s.document is None || alive)
}

/// The place of a key.
pub open spec fn slot_at(m: Map<Seq<char>, Slot>, key: Seq<char>) -> Option<Slot> {
    if m.contains_key(key) {
        Some(m[key])
    } else {
        None
    }
}

impl HighlightStore {
    /// Nothing asked for.
    pub fn new() -> (r: Self)
        ensures
            r@ == Map::<Seq<char>, Slot>::empty(),
    {
        HighlightStore { slots: StringHashMap::new() }
    }

    /// The handle that a place holds.
    pub fn document(&self, row_id: &str, block_ix: usize) -> (r: Option<u64>)
        ensures
            r == match slot_at(self@, slot_key(row_id@, block_ix as nat)) {
                Some(s) => s.document,
                None => None,
            },
    {
        let at = make_slot_key(row_id, block_ix);
        match self.slots.get(at.as_str()) {
            Some(s) => s.document,
            None => None,
        }
    }

    /// Asks for the highlights of a source. `alive` says whether what the
    /// place's handle names is still held, `cached` what the cache has for the
    /// source.
    pub fn request(
        &mut self,
        row_id: &str,
        block_ix: usize,
        key: SourceKey,
        alive: bool,
        cached: Option<u64>,
    ) -> (r: HighlightStep)
        ensures
            ({
                let at = slot_key(row_id@, block_ix as nat);
                let slot = slot_at(old(self)@, at);
                &&& r == request_step(slot, key, alive, cached)
                &&& final(self)@ == if serves(slot, key, alive) {
                    old(self)@
                } else {
                    old(self)@.insert(at, Slot { key, document: cached })
                }
            }),
    {
        let at = make_slot_key(row_id, block_ix);
        let found = match self.slots.get(at.as_str()) {
            Some(s) => Some(*s),
            None => None,
        };
        if let Some(s) = found {
            if s.key == key {
                match s.document {
                    None => {
                        return HighlightStep::Pending;
                    },
                    Some(d) => {
                        if alive {
                            return HighlightStep::Ready { document: d };
                        }
                    },
                }
            }
        }
        self.slots.insert(at, Slot { key, document: cached });
        match cached {
            Some(d) => HighlightStep::Ready { document: d },
            None => HighlightStep::Start,
        }
    }

    /// Highlights were made; `retained` says whether the cache kept them. They
    /// are for a place only if it still asks for the same source. Says whether
    /// to paint.
    pub fn finish(
        &mut self,
        row_id: &str,
        block_ix: usize,
        key: SourceKey,
        document: u64,
        retained: bool,
    ) -> (r: bool)
        ensures
            ({
                let at = slot_key(row_id@, block_ix as nat);
                let slot = slot_at(old(self)@, at);
                &&& r == (slot matches Some(s) && s.key == key)
                &&& final(self)@ == if r {
                    old(self)@.insert(
                        at,
                        Slot {
                            key,
                            document: if retained {
                                Some(document)
                            } else {
                                None
                            },
                        },
                    )
                } else {
                    old(self)@
                }
            }),
    {
        let at = make_slot_key(row_id, block_ix);
        let asked = match self.slots.get(at.as_str()) {
            Some(s) => s.key == key,
            None => false,
        };
        if asked {
            let kept = if retained {
                Some(document)
            } else {
                None
            };
            self.slots.insert(at, Slot { key, document: kept });
        }
        asked
    }
}

// ---------------------------------------------------------------------------
// What is highlighted
// ---------------------------------------------------------------------------

/// Whether a block is code in a named language, and is asked for.
pub open spec fn wants_highlight(block: Block, ix: int, only: Option<usize>) -> bool {
    (only matches Some(o) ==> o == ix) && (block matches Block::CodeBlock { language, .. }
        && language is Some)
}

/// The blocks up to `n` that are code in a named language.
pub open spec fn code_at(tree: BlockTree, only: Option<usize>, n: nat) -> Seq<usize>
    decreases n,
{
    if n == 0 {
        Seq::empty()
    } else {
        let before = code_at(tree, only, (n - 1) as nat);
        if wants_highlight(tree.blocks@[n - 1].block, n - 1, only) {
            before.push((n - 1) as usize)
        } else {
            before
        }
    }
}

/// The top-level blocks of a message that are code in a named language; `only`
/// limits them to one block.
pub fn code_blocks(tree: &BlockTree, only: Option<usize>) -> (r: Vec<usize>)
    ensures
        r@ == code_at(*tree, only, tree.blocks@.len()),
{
    let mut out: Vec<usize> = Vec::new();
    let mut i: usize = 0;
    while i < tree.blocks.len()
        invariant
            i <= tree.blocks@.len(),
            out@ == code_at(*tree, only, i as nat),
        decreases tree.blocks.len() - i,
    {
        let asked = match only {
            Some(o) => o == i,
            None => true,
        };
        let code = match &tree.blocks[i].block {
            Block::CodeBlock { language, .. } => language.is_some(),
            _ => false,
        };
        if asked && code {
            out.push(i);
        }
        i = i + 1;
    }
    out
}

/// A source text and the path that tells its language.
pub struct Source {
    pub path: String,
    pub text: String,
}

/// What an optional source holds.
pub open spec fn opt_source(s: Option<Source>) -> Option<(Seq<char>, Seq<char>)> {
    match s {
        Some(s) => Some((s.path@, s.text@)),
        None => None,
    }
}

/// The two sides of a diff, with the paths that tell their languages: the old
/// side has the old path where the file was renamed. Nothing for a detail that
/// is no diff.
pub fn diff_sources(detail: &ToolDetail) -> (r: Option<(Option<Source>, Option<Source>)>)
    ensures
        match detail@ {
            crate::tools::DetailView::Diff { file, old_text, new_text } => r matches Some((old, new))
                && opt_source(old) == (match old_text {
                Some(t) => Some(
                    (
                        match file.old_path {
                            Some(p) => p,
                            None => file.path,
                        },
                        t,
                    ),
                ),
                None => None,
            }) && opt_source(new) == (match new_text {
                Some(t) => Some((file.path, t)),
                None => None,
            }),
            _ => r is None,
        },
{
    match detail {
        ToolDetail::Diff { file, old_text, new_text } => {
            let old = match old_text {
                Some(t) => {
                    let path = match &file.old_path {
                        Some(p) => p.clone(),
                        None => file.path.clone(),
                    };
                    Some(Source { path, text: t.clone() })
                },
                None => None,
            };
            let new = match new_text {
                Some(t) => Some(Source { path: file.path.clone(), text: t.clone() }),
                None => None,
            };
            Some((old, new))
        },
        _ => None,
    }
}

/// The row that the highlights of a tool's diff are kept under:
/// `{row}#tool-diff-{tool}`.
pub fn diff_row(row_id: &str, tool_ix: usize) -> (r: String)
    ensures
        r@ == row_id@ + "#tool-diff-"@ + crate::text::decimal(tool_ix as nat),
{
    let mut s = row_id.to_owned();
    crate::text::push_text(&mut s, "#tool-diff-");
    crate::text::push_decimal(&mut s, tool_ix as u64);
    s
}

// ---------------------------------------------------------------------------
// Laws
// ---------------------------------------------------------------------------

/// A request that found nothing and made its highlights finds them at the next
/// request for the same source, as long as they are held.
pub proof fn law_made_highlights_are_found(
    m: Map<Seq<char>, Slot>,
    at: Seq<char>,
    key: SourceKey,
    document: u64,
    cached: Option<u64>,
)
    ensures
        request_step(
            slot_at(m.insert(at, Slot { key, document: Some(document) }), at),
            key,
            true,
            cached,
        ) == (HighlightStep::Ready { document }),
{
}

/// While highlights are being made, no request for the same source makes them
/// again.
pub proof fn law_highlights_are_made_once(slot: Slot, alive: bool, cached: Option<u64>)
    requires
        slot.document is None,
    ensures
        request_step(Some(slot), slot.key, alive, cached) == HighlightStep::Pending,
{
}

/// A number is written in digits, one at least.
pub proof fn lemma_decimal_digits(n: nat)
    ensures
        crate::text::decimal(n).len() > 0,
        forall|i: int|
            0 <= i < crate::text::decimal(n).len() ==> '0' <= #[trigger] crate::text::decimal(n)[i]
                <= '9',
    decreases n,
{
    if n >= 10 {
        lemma_decimal_digits(n / 10);
        let d = crate::text::decimal(n / 10);
        assert forall|i: int| 0 <= i < crate::text::decimal(n).len() implies '0'
            <= #[trigger] crate::text::decimal(n)[i] <= '9' by {
            if i < d.len() {
                assert('0' <= d[i] <= '9');
            }
        }
    }
}

/// Two numbers written alike are the same.
pub proof fn lemma_decimal_differs(a: nat, b: nat)
    requires
        crate::text::decimal(a) == crate::text::decimal(b),
    ensures
        a == b,
    decreases a,
{
    let x = crate::text::decimal(a);
    let y = crate::text::decimal(b);
    if a >= 10 {
        lemma_decimal_digits(a / 10);
    }
    if b >= 10 {
        lemma_decimal_digits(b / 10);
    }
    if a < 10 && b < 10 {
        assert(x[0] == crate::text::digit(a));
        assert(y[0] == crate::text::digit(b));
    } else if a >= 10 && b >= 10 {
        assert(x.drop_last() =~= crate::text::decimal(a / 10));
        assert(y.drop_last() =~= crate::text::decimal(b / 10));
        lemma_decimal_differs(a / 10, b / 10);
        assert(x.last() == crate::text::digit(a % 10));
        assert(y.last() == crate::text::digit(b % 10));
    } else if a < 10 {
        assert(x.len() == 1);
        assert(y == crate::text::decimal(b / 10).push(crate::text::digit(b % 10)));
        assert(y.len() >= 2);
    } else {
        assert(y.len() == 1);
        assert(x == crate::text::decimal(a / 10).push(crate::text::digit(a % 10)));
        assert(x.len() >= 2);
    }
}

/// Two places have two keys.
pub proof fn law_places_have_their_own_keys(a: Seq<char>, i: nat, b: Seq<char>, j: nat)
    requires
        slot_key(a, i) == slot_key(b, j),
    ensures
        a == b,
        i == j,
{
    reveal_strlit("#");
    let x = slot_key(a, i);
    let p = crate::text::decimal(i);
    let q = crate::text::decimal(j);
    lemma_decimal_digits(i);
    lemma_decimal_digits(j);
    assert(x.len() == a.len() + 1 + p.len());
    assert(x.len() == b.len() + 1 + q.len());
    assert(x[a.len() as int] == '#');
    assert(x[b.len() as int] == '#');
    if a.len() < b.len() {
        assert(x[b.len() as int] == p[b.len() - a.len() - 1]);
    }
    if b.len() < a.len() {
        assert(slot_key(b, j)[a.len() as int] == q[a.len() - b.len() - 1]);
    }
    assert(a =~= x.take(a.len() as int));
    assert(b =~= slot_key(b, j).take(b.len() as int));
    assert(p =~= x.skip(a.len() as int + 1));
    assert(q =~= slot_key(b, j).skip(b.len() as int + 1));
    lemma_decimal_differs(i, j);
}

} // verus!
