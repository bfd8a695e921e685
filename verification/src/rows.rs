//! Transcript rows: one per block, with a stable id and a content version.
use std::sync::Arc;

use vstd::prelude::*;

use crate::markdown::BlockTree;
use crate::message::{
    MentionSpan, MessageBadge, MessagePart, MessageRole, SessionMessageEntry, UserBody,
    UserImageAttachment,
};
use crate::tools::ToolItem;

verus! {

/// What a row shows.
#[allow(inconsistent_fields)]
pub enum RowKind {
    /// A prompt.
    User {
        text: String,
        mentions: Arc<Vec<MentionSpan>>,
        attachments: Arc<Vec<UserImageAttachment>>,
        badges: Arc<Vec<MessageBadge>>,
        /// Not confirmed yet.
        pending: bool,
    },
    /// One top-level markdown block of a settled message.
    Markdown { tree: Arc<BlockTree>, block_ix: usize },
    /// One top-level markdown block of a streaming message.
    LiveMarkdown { tree: Arc<BlockTree>, block_ix: usize },
    /// Consecutive tools.
    ToolGroup { tools: Arc<Vec<ToolItem>>, auto_open: bool },
    /// A question, by its header.
    InputChip { header: String, resolved: bool },
    /// An error.
    ErrorChip { message: String },
}

/// A transcript row.
pub struct Row {
    pub id: String,
    /// Changes with the row's content.
    pub version: u64,
    /// First row of its entry.
    pub turn_start: bool,
    pub kind: RowKind,
    pub entry_id: String,
    /// When the entry was made, on the last row of a settled entry.
    pub timestamp: Option<i64>,
    /// What copying the entry gives, on the last row of a settled entry.
    pub copy_text: Option<String>,
}

/// What a [`RowKind`] holds.
#[allow(inconsistent_fields)]
#[verifier::ext_equal]
pub enum KindView {
    User {
        text: Seq<char>,
        mentions: Vec<MentionSpan>,
        attachments: Vec<UserImageAttachment>,
        badges: Vec<MessageBadge>,
        pending: bool,
    },
    Markdown { tree: Arc<BlockTree>, block_ix: nat },
    LiveMarkdown { tree: Arc<BlockTree>, block_ix: nat },
    ToolGroup { tools: Seq<crate::tools::ItemView>, auto_open: bool },
    InputChip { header: Seq<char>, resolved: bool },
    ErrorChip { message: Seq<char> },
}

impl View for RowKind {
    type V = KindView;

    open spec fn view(&self) -> KindView {
        match self {
            RowKind::User { text, mentions, attachments, badges, pending } => KindView::User {
                text: text@,
                mentions: **mentions,
                attachments: **attachments,
                badges: **badges,
                pending: *pending,
            },
            RowKind::Markdown { tree, block_ix } => KindView::Markdown {
                tree: *tree,
                block_ix: *block_ix as nat,
            },
            RowKind::LiveMarkdown { tree, block_ix } => KindView::LiveMarkdown {
                tree: *tree,
                block_ix: *block_ix as nat,
            },
            RowKind::ToolGroup { tools, auto_open } => KindView::ToolGroup {
                tools: crate::tools::item_views(tools@),
                auto_open: *auto_open,
            },
            RowKind::InputChip { header, resolved } => KindView::InputChip {
                header: header@,
                resolved: *resolved,
            },
            RowKind::ErrorChip { message } => KindView::ErrorChip { message: message@ },
        }
    }
}

/// What a [`Row`] holds.
#[verifier::ext_equal]
pub struct RowView {
    pub id: Seq<char>,
    pub version: u64,
    pub turn_start: bool,
    pub kind: KindView,
    pub entry_id: Seq<char>,
    pub timestamp: Option<i64>,
    pub copy_text: Option<Seq<char>>,
}

impl View for Row {
    type V = RowView;

    open spec fn view(&self) -> RowView {
        RowView {
            id: self.id@,
            version: self.version,
            turn_start: self.turn_start,
            kind: self.kind@,
            entry_id: self.entry_id@,
            timestamp: self.timestamp,
            copy_text: crate::markdown::opt_text(self.copy_text),
        }
    }
}

/// What a sequence of rows holds.
pub open spec fn row_views(s: Seq<Row>) -> Seq<RowView> {
    Seq::new(s.len(), |i: int| s[i]@)
}

proof fn lemma_row_views_push(s: Seq<Row>, r: Row)
    ensures
        row_views(s.push(r)) == row_views(s).push(r@),
{
    assert(row_views(s.push(r)) =~= row_views(s).push(r@));
}

impl Clone for RowKind {
    fn clone(&self) -> (r: Self)
        ensures
            r == *self,
    {
        match self {
            RowKind::User { text, mentions, attachments, badges, pending } => RowKind::User {
                text: text.clone(),
                mentions: mentions.clone(),
                attachments: attachments.clone(),
                badges: badges.clone(),
                pending: *pending,
            },
            RowKind::Markdown { tree, block_ix } => RowKind::Markdown {
                tree: tree.clone(),
                block_ix: *block_ix,
            },
            RowKind::LiveMarkdown { tree, block_ix } => RowKind::LiveMarkdown {
                tree: tree.clone(),
                block_ix: *block_ix,
            },
            RowKind::ToolGroup { tools, auto_open } => RowKind::ToolGroup {
                tools: tools.clone(),
                auto_open: *auto_open,
            },
            RowKind::InputChip { header, resolved } => RowKind::InputChip {
                header: header.clone(),
                resolved: *resolved,
            },
            RowKind::ErrorChip { message } => RowKind::ErrorChip { message: message.clone() },
        }
    }
}

impl Clone for Row {
    fn clone(&self) -> (r: Self)
        ensures
            r == *self,
    {
        Row {
            id: self.id.clone(),
            version: self.version,
            turn_start: self.turn_start,
            kind: self.kind.clone(),
            entry_id: self.entry_id.clone(),
            timestamp: self.timestamp,
            copy_text: crate::markdown::copy_opt(&self.copy_text),
        }
    }
}

/// A copy of rows.
pub fn copy_rows(rows: &Vec<Row>) -> (r: Vec<Row>)
    ensures
        r@ == rows@,
{
    let mut r: Vec<Row> = Vec::new();
    let mut i: usize = 0;
    while i < rows.len()
        invariant
            i <= rows@.len(),
            r@ =~= rows@.take(i as int),
        decreases rows.len() - i,
    {
        r.push(rows[i].clone());
        i = i + 1;
    }
    r
}

// ---------------------------------------------------------------------------
// Row ids
// ---------------------------------------------------------------------------

/// The key of a part: `{entry}#{part}`.
pub open spec fn part_key(entry_id: Seq<char>, part_id: Seq<char>) -> Seq<char> {
    entry_id + "#"@ + part_id
}

/// The id of a part's block: `{entry}#{part}.{block}`.
pub open spec fn block_id(key: Seq<char>, block_ix: nat) -> Seq<char> {
    key + "."@ + crate::text::decimal(block_ix)
}

/// The id of an entry's tool group: `{entry}#g{group}`.
pub open spec fn group_id(entry_id: Seq<char>, group_ix: nat) -> Seq<char> {
    entry_id + "#g"@ + crate::text::decimal(group_ix)
}

fn make_part_key(entry_id: &str, part_id: &str) -> (r: String)
    ensures
        r@ == part_key(entry_id@, part_id@),
{
    let mut s = entry_id.to_owned();
    crate::text::push_text(&mut s, "#");
    crate::text::push_text(&mut s, part_id);
    s
}

fn make_block_id(key: &str, block_ix: usize) -> (r: String)
    ensures
        r@ == block_id(key@, block_ix as nat),
{
    let mut s = key.to_owned();
    crate::text::push_text(&mut s, ".");
    crate::text::push_decimal(&mut s, block_ix as u64);
    s
}

fn make_group_id(entry_id: &str, group_ix: usize) -> (r: String)
    ensures
        r@ == group_id(entry_id@, group_ix as nat),
{
    let mut s = entry_id.to_owned();
    crate::text::push_text(&mut s, "#g");
    crate::text::push_decimal(&mut s, group_ix as u64);
    s
}

// ---------------------------------------------------------------------------
// The rows of an entry
// ---------------------------------------------------------------------------

/// A row of `entry` as it is built: neither first nor last.
pub open spec fn inner_row(
    entry: SessionMessageEntry,
    id: Seq<char>,
    version: u64,
    kind: KindView,
) -> RowView {
    RowView {
        id,
        version,
        turn_start: false,
        kind,
        entry_id: entry.id@,
        timestamp: None,
        copy_text: None,
    }
}

/// `hash` with its lowest bit given to `flag`.
pub open spec fn flagged(hash: u64, flag: bool) -> u64 {
    (hash << 1) | (if flag {
        1u64
    } else {
        0u64
    })
}

/// The bytes of `text` from `start` to `end`, as far as there are any.
pub open spec fn byte_slice(text: Seq<char>, start: usize, end: usize) -> Seq<u8> {
    let all = vstd::utf8::encode_utf8(text);
    let to = if end <= all.len() {
        end as int
    } else {
        all.len() as int
    };
    let from = if start <= to {
        start as int
    } else {
        to
    };
    all.subrange(from, to)
}

/// The row of one block of a text part. Live and settled blocks share ids; the
/// version hashes the block's bytes and tells the two apart.
pub open spec fn block_row(
    entry: SessionMessageEntry,
    key: Seq<char>,
    text: Seq<char>,
    tree: Arc<BlockTree>,
    block_ix: nat,
) -> RowView {
    let range = tree.blocks@[block_ix as int].range;
    inner_row(
        entry,
        block_id(key, block_ix),
        flagged(crate::hash::fnv(byte_slice(text, range.start, range.end)), entry.streaming()),
        if entry.streaming() {
            KindView::LiveMarkdown { tree, block_ix }
        } else {
            KindView::Markdown { tree, block_ix }
        },
    )
}

/// The rows of a text part, one per top-level block.
pub open spec fn text_rows(
    entry: SessionMessageEntry,
    key: Seq<char>,
    text: Seq<char>,
    tree: Arc<BlockTree>,
) -> Seq<RowView> {
    Seq::new(tree.blocks@.len(), |i: int| block_row(entry, key, text, tree, i as nat))
}

/// The row of a tool group.
pub open spec fn group_row(
    entry: SessionMessageEntry,
    tools: Seq<crate::tools::ItemView>,
    group_ix: nat,
    auto_open: bool,
) -> RowView {
    inner_row(
        entry,
        group_id(entry.id@, group_ix),
        crate::fingerprint::group_print(tools, auto_open),
        KindView::ToolGroup { tools, auto_open },
    )
}

/// The header of a question chip.
pub open spec fn input_header(questions: Seq<crate::message::Question>) -> Seq<char> {
    crate::text::one_line(
        if questions.len() > 0 {
            questions[0].header@
        } else {
            "Question"@
        },
    )
}

/// The rows built so far, the group that is open, how many groups were closed,
/// and the index of the part that last joined a group.
#[verifier::ext_equal]
pub struct RowState {
    pub rows: Seq<RowView>,
    pub group: Seq<crate::tools::ItemView>,
    pub groups: nat,
    pub last: nat,
}

/// The index of the last part, zero where there is none.
pub open spec fn last_part(entry: SessionMessageEntry) -> nat {
    if entry.parts@.len() == 0 {
        0
    } else {
        (entry.parts@.len() - 1) as nat
    }
}

/// `st` with the open group closed into a row. A group that ends in the last
/// part of a streaming entry opens by itself.
pub open spec fn flushed(entry: SessionMessageEntry, st: RowState) -> RowState {
    if st.group.len() == 0 {
        st
    } else {
        RowState {
            rows: st.rows.push(
                group_row(
                    entry,
                    st.group,
                    st.groups,
                    entry.streaming() && st.last == last_part(entry),
                ),
            ),
            group: Seq::empty(),
            groups: st.groups + 1,
            last: st.last,
        }
    }
}

/// `st` with a chip in the open group, which is closed first where it is of
/// the other genus: spawn chips share no group with others.
pub open spec fn joined(
    entry: SessionMessageEntry,
    st: RowState,
    item: crate::tools::ItemView,
    ix: nat,
) -> RowState {
    let open = if st.group.len() > 0 && st.group[0].facts.spawn != item.facts.spawn {
        flushed(entry, st)
    } else {
        st
    };
    RowState { rows: open.rows, group: open.group.push(item), groups: open.groups, last: ix }
}

/// The chip of a tool part.
pub open spec fn part_chip(part: MessagePart) -> crate::tools::ItemView
    recommends
        part is Tool,
{
    match part {
        MessagePart::Tool {
            id,
            call,
            facts,
            is_error,
            resolved,
            output,
            diff,
            output_ref,
            output_bytes,
            diff_ref,
            diff_stats,
            subagent_ref,
            subagent_status,
            subagent_tail,
        } => crate::tools::ItemView {
            call: call@,
            facts: facts@,
            is_error,
            resolved,
            detail: crate::tools::detail_of(
                crate::markdown::opt_text(output),
                diff,
                match diff_stats {
                    Some(v) => Some(crate::tools::stat_views(v@)),
                    None => None,
                },
            ),
            invocation: crate::tools::invocation_of(call@),
            output_ref: crate::markdown::opt_text(output_ref),
            output_bytes,
            diff_ref: crate::markdown::opt_text(diff_ref),
            subagent_ref: crate::markdown::opt_text(subagent_ref),
            subagent_status,
            subagent_tail: crate::markdown::opt_text(subagent_tail),
            is_thought: false,
        },
        _ => arbitrary(),
    }
}

/// `st` after one more part. Tools and thoughts join the open group; any other
/// part closes it. Blank text and blank thoughts show nothing.
pub open spec fn stepped(
    entry: SessionMessageEntry,
    trees: Seq<Arc<BlockTree>>,
    st: RowState,
    ix: nat,
) -> RowState {
    let part = entry.parts@[ix as int];
    match part {
        MessagePart::Tool { .. } => joined(entry, st, part_chip(part), ix),
        MessagePart::Reasoning { id, text } => if crate::text::is_blank(text@) {
            st
        } else {
            let live = entry.streaming() && ix == last_part(entry);
            joined(entry, st, crate::tools::thought_chip(*trees[ix as int], live), ix)
        },
        MessagePart::Text { id, text } => {
            let st = flushed(entry, st);
            if crate::text::is_blank(text@) {
                st
            } else {
                RowState {
                    rows: st.rows + text_rows(
                        entry,
                        part_key(entry.id@, id@),
                        text@,
                        trees[ix as int],
                    ),
                    ..st
                }
            }
        },
        MessagePart::Input { id, questions, resolved } => {
            let st = flushed(entry, st);
            let header = input_header(questions@);
            RowState {
                rows: st.rows.push(
                    inner_row(
                        entry,
                        part_key(entry.id@, id@),
                        flagged(crate::hash::text_hash(header), resolved),
                        KindView::InputChip { header, resolved },
                    ),
                ),
                ..st
            }
        },
        MessagePart::Error { id, message } => {
            let st = flushed(entry, st);
            RowState {
                rows: st.rows.push(
                    inner_row(
                        entry,
                        part_key(entry.id@, id@),
                        (vstd::utf8::encode_utf8(message@).len() as usize) as u64,
                        KindView::ErrorChip { message: crate::text::one_line(message@) },
                    ),
                ),
                ..st
            }
        },
    }
}

/// The state after the first `n` parts.
pub open spec fn built(
    entry: SessionMessageEntry,
    trees: Seq<Arc<BlockTree>>,
    n: nat,
) -> RowState
    decreases n,
{
    if n == 0 {
        RowState { rows: Seq::empty(), group: Seq::empty(), groups: 0, last: 0 }
    } else {
        stepped(entry, trees, built(entry, trees, (n - 1) as nat), (n - 1) as nat)
    }
}

/// The bit that a settled entry's last row differs by.
pub const SETTLED_BIT: u64 = 0x4000_0000_0000_0000;

/// `rows` with the first one opening the turn, and the last one, once the turn
/// has settled, bearing its time and what copying it gives.
pub open spec fn settled(entry: SessionMessageEntry, rows: Seq<RowView>) -> Seq<RowView> {
    if rows.len() == 0 {
        rows
    } else {
        let opened = rows.update(0, RowView { turn_start: true, ..rows[0] });
        if entry.streaming() {
            opened
        } else {
            let last = opened.last();
            opened.update(
                opened.len() - 1,
                RowView {
                    version: last.version ^ SETTLED_BIT,
                    timestamp: Some(entry.created_at),
                    copy_text: crate::message::copy_of(entry),
                    ..last
                },
            )
        }
    }
}

/// The row of a prompt.
pub open spec fn user_row(
    entry: SessionMessageEntry,
    pending: bool,
    body: UserBody,
) -> RowView {
    let raw = crate::message::joined_text(entry.parts@, true);
    RowView {
        id: entry.id@,
        version: flagged((vstd::utf8::encode_utf8(raw).len() as usize) as u64, pending),
        turn_start: true,
        kind: KindView::User {
            text: body.text@,
            mentions: *body.mentions,
            attachments: *body.attachments,
            badges: *body.badges,
            pending,
        },
        entry_id: entry.id@,
        timestamp: Some(entry.created_at),
        copy_text: if crate::text::is_blank(body.text@) {
            None
        } else {
            Some(body.text@)
        },
    }
}

/// The rows of an entry that is no prompt.
pub open spec fn reply_rows(
    entry: SessionMessageEntry,
    trees: Seq<Arc<BlockTree>>,
) -> Seq<RowView> {
    settled(entry, flushed(entry, built(entry, trees, entry.parts@.len())).rows)
}

/// The rows of an entry.
pub open spec fn entry_rows(
    entry: SessionMessageEntry,
    pending: bool,
    body: UserBody,
    trees: Seq<Arc<BlockTree>>,
) -> Seq<RowView> {
    if entry.role == MessageRole::User {
        seq![user_row(entry, pending, body)]
    } else {
        reply_rows(entry, trees)
    }
}

/// Whether a part is parsed as markdown: text or reasoning that is not blank.
pub open spec fn parsed_part(part: MessagePart) -> bool {
    match part {
        MessagePart::Text { id, text } => !crate::text::is_blank(text@),
        MessagePart::Reasoning { id, text } => !crate::text::is_blank(text@),
        _ => false,
    }
}

/// Whether `trees` holds a tree for each part, and the thoughts among them fit.
pub open spec fn trees_fit(entry: SessionMessageEntry, trees: Seq<Arc<BlockTree>>) -> bool {
    &&& trees.len() == entry.parts@.len()
    &&& forall|i: int|
        0 <= i < trees.len() && (#[trigger] entry.parts@[i]) is Reasoning
            ==> crate::thoughts::tree_fits(*trees[i])
}

// ---------------------------------------------------------------------------
// Building rows
// ---------------------------------------------------------------------------

/// Rows under construction.
struct Builder {
    rows: Vec<Row>,
    group: Vec<ToolItem>,
    groups: usize,
    last: usize,
}

impl View for Builder {
    type V = RowState;

    closed spec fn view(&self) -> RowState {
        RowState {
            rows: row_views(self.rows@),
            group: crate::tools::item_views(self.group@),
            groups: self.groups as nat,
            last: self.last as nat,
        }
    }
}

/// `hash` with its lowest bit given to `flag`.
fn flag_version(hash: u64, flag: bool) -> (r: u64)
    ensures
        r == flagged(hash, flag),
{
    (hash << 1) | (if flag {
        1u64
    } else {
        0u64
    })
}

/// A row of `entry` that is neither first nor last.
fn make_row(entry: &SessionMessageEntry, id: String, version: u64, kind: RowKind) -> (r: Row)
    ensures
        r@ == inner_row(*entry, id@, version, kind@),
{
    Row {
        id,
        version,
        turn_start: false,
        kind,
        entry_id: entry.id.clone(),
        timestamp: None,
        copy_text: None,
    }
}

impl Builder {
    fn push_row(&mut self, row: Row)
        ensures
            final(self)@ == (RowState { rows: old(self)@.rows.push(row@), ..old(self)@ }),
            final(self).groups == old(self).groups,
    {
        proof {
            lemma_row_views_push(self.rows@, row);
        }
        self.rows.push(row);
    }

    /// Closes the open group.
    fn flush(&mut self, entry: &SessionMessageEntry)
        requires
            old(self).groups < usize::MAX || old(self)@.group.len() == 0,
        ensures
            final(self)@ == flushed(*entry, old(self)@),
    {
        let ghost before = self@;
        assert(before.group.len() == self.group@.len());
        if self.group.len() == 0 {
            return;
        }
        let last_ix: usize = if entry.parts.len() == 0 {
            0
        } else {
            entry.parts.len() - 1
        };
        let auto_open = crate::message::is_streaming(entry) && self.last == last_ix;
        let mut tools: Vec<ToolItem> = Vec::new();
        std::mem::swap(&mut tools, &mut self.group);
        let version = crate::fingerprint::tool_fingerprint(&tools, auto_open);
        let id = make_group_id(entry.id.as_str(), self.groups);
        let row = make_row(
            entry,
            id,
            version,
            RowKind::ToolGroup { tools: Arc::new(tools), auto_open },
        );
        self.groups = self.groups + 1;
        self.push_row(row);
        assert(crate::tools::item_views(self.group@) =~= Seq::empty());
    }

    /// Adds a chip to the open group.
    fn join(&mut self, entry: &SessionMessageEntry, item: ToolItem, ix: usize)
        requires
            old(self).groups < usize::MAX,
        ensures
            final(self)@ == joined(*entry, old(self)@, item@, ix as nat),
    {
        let ghost before = self@;
        if self.group.len() > 0 {
            assert(before.group[0] == self.group@[0]@);
            if crate::tools::is_agent_tool(&self.group[0]) != crate::tools::is_agent_tool(&item) {
                self.flush(entry);
            }
        }
        let ghost group = self.group@;
        self.group.push(item);
        self.last = ix;
        assert(crate::tools::item_views(self.group@) =~= crate::tools::item_views(group).push(
            item@,
        ));
    }
}

/// The chip of a tool part.
fn chip_of(part: &MessagePart) -> (r: Option<ToolItem>)
    ensures
        match r {
            Some(item) => *part is Tool && item@ == part_chip(*part),
            None => !(*part is Tool),
        },
{
    if let MessagePart::Tool {
        id: _,
        call,
        facts,
        is_error,
        resolved,
        output,
        diff,
        output_ref,
        output_bytes,
        diff_ref,
        diff_stats,
        subagent_ref,
        subagent_status,
        subagent_tail,
    } = part {
        let out = match output {
            Some(s) => Some(s.as_str()),
            None => None,
        };
        let detail = match crate::tools::tool_detail(out, diff.as_ref(), diff_stats.as_ref()) {
            Some(d) => Some(Arc::new(d)),
            None => None,
        };
        let invocation = match crate::tools::call_block(call) {
            Some(d) => Some(Arc::new(d)),
            None => None,
        };
        Some(
            ToolItem {
                call: call.clone(),
                facts: facts.clone(),
                is_error: *is_error,
                resolved: *resolved,
                detail,
                invocation,
                output_ref: crate::markdown::copy_opt(output_ref),
                output_bytes: *output_bytes,
                diff_ref: crate::markdown::copy_opt(diff_ref),
                subagent_ref: crate::markdown::copy_opt(subagent_ref),
                subagent_status: *subagent_status,
                subagent_tail: crate::markdown::copy_opt(subagent_tail),
                is_thought: false,
            },
        )
    } else {
        None
    }
}

/// Appends the rows of a text part.
fn push_text_rows(
    b: &mut Builder,
    entry: &SessionMessageEntry,
    key: &str,
    text: &str,
    tree: &Arc<BlockTree>,
)
    ensures
        final(b)@ == (RowState {
            rows: old(b)@.rows + text_rows(*entry, key@, text@, *tree),
            ..old(b)@
        }),
        final(b).groups == old(b).groups,
{
    let ghost before = b@;
    let ghost all = text_rows(*entry, key@, text@, *tree);
    let streaming = crate::message::is_streaming(entry);
    let bytes = text.as_bytes();
    let mut i: usize = 0;
    assert(before.rows + all.take(0) =~= before.rows);
    while i < tree.blocks.len()
        invariant
            i <= tree.blocks@.len(),
            bytes@ == vstd::utf8::encode_utf8(text@),
            streaming == entry.streaming(),
            all == text_rows(*entry, key@, text@, *tree),
            b@ == (RowState { rows: before.rows + all.take(i as int), ..before }),
            b.groups == before.groups,
        decreases tree.blocks.len() - i,
    {
        let range = &tree.blocks[i].range;
        let to: usize = if range.end <= bytes.len() {
            range.end
        } else {
            bytes.len()
        };
        let from: usize = if range.start <= to {
            range.start
        } else {
            to
        };
        let version = flag_version(crate::hash::fnv_range(bytes, from, to), streaming);
        let kind = if streaming {
            RowKind::LiveMarkdown { tree: tree.clone(), block_ix: i }
        } else {
            RowKind::Markdown { tree: tree.clone(), block_ix: i }
        };
        let row = make_row(entry, make_block_id(key, i), version, kind);
        proof {
            assert(row@ == all[i as int]);
            assert(before.rows + all.take(i + 1) =~= (before.rows + all.take(i as int)).push(
                row@,
            ));
        }
        b.push_row(row);
        i = i + 1;
    }
    assert(all.take(i as int) =~= all);
}

/// Builds the rows of one part.
fn push_part(b: &mut Builder, entry: &SessionMessageEntry, trees: &Vec<Arc<BlockTree>>, ix: usize)
    requires
        trees_fit(*entry, trees@),
        ix < entry.parts@.len(),
        old(b).groups < usize::MAX,
    ensures
        final(b)@ == stepped(*entry, trees@, old(b)@, ix as nat),
{
    let ghost st = b@;
    let part = &entry.parts[ix];
    match part {
        MessagePart::Tool { .. } => {
            if let Some(item) = chip_of(part) {
                b.join(entry, item, ix);
            }
        },
        MessagePart::Reasoning { id: _, text } => {
            if !crate::text::blank(text.as_str()) {
                let live = crate::message::is_streaming(entry) && ix == entry.parts.len() - 1;
                let item = crate::tools::thought_item(&trees[ix], live);
                b.join(entry, item, ix);
            }
        },
        MessagePart::Text { id, text } => {
            b.flush(entry);
            if !crate::text::blank(text.as_str()) {
                let key = make_part_key(entry.id.as_str(), id.as_str());
                push_text_rows(b, entry, key.as_str(), text.as_str(), &trees[ix]);
            }
        },
        MessagePart::Input { id, questions, resolved } => {
            b.flush(entry);
            let header = if questions.len() > 0 {
                crate::text::single_line(questions[0].header.as_str())
            } else {
                crate::text::single_line("Question")
            };
            let version = flag_version(crate::hash::hash_text(header.as_str()), *resolved);
            let row = make_row(
                entry,
                make_part_key(entry.id.as_str(), id.as_str()),
                version,
                RowKind::InputChip { header, resolved: *resolved },
            );
            b.push_row(row);
        },
        MessagePart::Error { id, message } => {
            b.flush(entry);
            let row = make_row(
                entry,
                make_part_key(entry.id.as_str(), id.as_str()),
                message.as_str().len() as u64,
                RowKind::ErrorChip { message: crate::text::single_line(message.as_str()) },
            );
            b.push_row(row);
        },
    }
}

/// No more groups are closed than parts were seen.
proof fn lemma_groups_bound(entry: SessionMessageEntry, trees: Seq<Arc<BlockTree>>, n: nat)
    ensures
        built(entry, trees, n).groups + (if built(entry, trees, n).group.len() > 0 {
            1nat
        } else {
            0nat
        }) <= n,
    decreases n,
{
    if n > 0 {
        lemma_groups_bound(entry, trees, (n - 1) as nat);
    }
}

/// Marks the first row, and the last one of a settled entry.
fn settle(entry: &SessionMessageEntry, rows: Vec<Row>) -> (r: Vec<Row>)
    ensures
        row_views(r@) == settled(*entry, row_views(rows@)),
{
    let mut rows = rows;
    let ghost before = row_views(rows@);
    if rows.len() > 0 {
        rows[0].turn_start = true;
        let ghost opened = before.update(0, RowView { turn_start: true, ..before[0] });
        assert(row_views(rows@) =~= opened);
        if !crate::message::is_streaming(entry) {
            let n: usize = rows.len();
            assert(opened.last() == rows@[n - 1]@);
            rows[n - 1].timestamp = Some(entry.created_at);
            rows[n - 1].copy_text = crate::message::assistant_copy_text(entry);
            rows[n - 1].version = rows[n - 1].version ^ SETTLED_BIT;
            assert(row_views(rows@) =~= settled(*entry, before));
        }
    }
    rows
}

/// A part that wants parsing: its key and its index.
pub struct ParseRequest {
    pub part_ix: usize,
    pub key: String,
}

/// What a parse request asks for.
pub open spec fn requests(entry: SessionMessageEntry, n: nat) -> Seq<(int, Seq<char>)>
    decreases n,
{
    if n == 0 {
        Seq::empty()
    } else {
        let before = requests(entry, (n - 1) as nat);
        let part = entry.parts@[n - 1];
        if parsed_part(part) {
            before.push((n - 1, part_key(entry.id@, crate::message::part_id(part))))
        } else {
            before
        }
    }
}

/// The view of parse requests.
pub open spec fn request_views(s: Seq<ParseRequest>) -> Seq<(int, Seq<char>)> {
    Seq::new(s.len(), |i: int| (s[i].part_ix as int, s[i].key@))
}

/// The parts of a reply whose markdown is to be parsed before its rows are
/// built, in order, each with the key that its parser is kept under. A prompt
/// asks for none.
pub fn parse_requests(entry: &SessionMessageEntry) -> (r: Vec<ParseRequest>)
    ensures
        request_views(r@) == if entry.role == MessageRole::User {
            Seq::empty()
        } else {
            requests(*entry, entry.parts@.len())
        },
{
    let mut r: Vec<ParseRequest> = Vec::new();
    assert(request_views(r@) =~= Seq::empty());
    if entry.role == MessageRole::User {
        return r;
    }
    let mut i: usize = 0;
    while i < entry.parts.len()
        invariant
            i <= entry.parts@.len(),
            request_views(r@) == requests(*entry, i as nat),
        decreases entry.parts.len() - i,
    {
        let part = &entry.parts[i];
        let wanted = match part {
            MessagePart::Text { id: _, text } => !crate::text::blank(text.as_str()),
            MessagePart::Reasoning { id: _, text } => !crate::text::blank(text.as_str()),
            _ => false,
        };
        if wanted {
            let req = ParseRequest {
                part_ix: i,
                key: make_part_key(entry.id.as_str(), part.id().as_str()),
            };
            assert(request_views(r@.push(req)) =~= request_views(r@).push(
                (req.part_ix as int, req.key@),
            ));
            r.push(req);
        }
        i = i + 1;
    }
    r
}

/// Whether [`rows_for_entry`] can build the rows of `entry` from `trees`.
pub fn check_trees(entry: &SessionMessageEntry, trees: &Vec<Arc<BlockTree>>) -> (r: bool)
    ensures
        r == trees_fit(*entry, trees@),
{
    if trees.len() != entry.parts.len() {
        return false;
    }
    let mut i: usize = 0;
    while i < trees.len()
        invariant
            i <= trees@.len(),
            trees@.len() == entry.parts@.len(),
            forall|j: int|
                0 <= j < i && (#[trigger] entry.parts@[j]) is Reasoning
                    ==> crate::thoughts::tree_fits(*trees@[j]),
        decreases trees.len() - i,
    {
        if let MessagePart::Reasoning { .. } = &entry.parts[i] {
            if !crate::thoughts::check_tree(&trees[i]) {
                assert(entry.parts@[i as int] is Reasoning);
                return false;
            }
        }
        i = i + 1;
    }
    true
}

/// Builds the row of a prompt.
fn build_user_row(entry: &SessionMessageEntry, pending: bool, body: &UserBody) -> (r: Row)
    ensures
        r@ == user_row(*entry, pending, *body),
{
    let raw = crate::message::raw_text(entry);
    let version = flag_version(raw.as_str().len() as u64, pending);
    let copy_text = if crate::text::blank(body.text.as_str()) {
        None
    } else {
        Some(body.text.clone())
    };
    Row {
        id: entry.id.clone(),
        version,
        turn_start: true,
        kind: RowKind::User {
            text: body.text.clone(),
            mentions: body.mentions.clone(),
            attachments: body.attachments.clone(),
            badges: body.badges.clone(),
            pending,
        },
        entry_id: entry.id.clone(),
        timestamp: Some(entry.created_at),
        copy_text,
    }
}

/// Builds the rows of an entry that is no prompt.
#[verifier::rlimit(30)]
fn build_reply_rows(entry: &SessionMessageEntry, trees: &Vec<Arc<BlockTree>>) -> (r: Vec<Row>)
    requires
        trees_fit(*entry, trees@),
    ensures
        row_views(r@) == reply_rows(*entry, trees@),
{
    let mut b = Builder { rows: Vec::new(), group: Vec::new(), groups: 0, last: 0 };
    assert(b@ =~= built(*entry, trees@, 0));
    let mut i: usize = 0;
    while i < entry.parts.len()
        invariant
            i <= entry.parts@.len(),
            trees_fit(*entry, trees@),
            b@ == built(*entry, trees@, i as nat),
        decreases entry.parts.len() - i,
    {
        proof {
            lemma_groups_bound(*entry, trees@, i as nat);
        }
        push_part(&mut b, entry, trees, i);
        i = i + 1;
    }
    proof {
        lemma_groups_bound(*entry, trees@, i as nat);
    }
    b.flush(entry);
    settle(entry, b.rows)
}

/// Builds the rows of one entry.
///
/// `body` is what a prompt shows; `trees` holds the parsed markdown of a
/// reply's parts, part by part (see [`parse_requests`]).
pub fn rows_for_entry(
    entry: &SessionMessageEntry,
    pending: bool,
    body: &UserBody,
    trees: &Vec<Arc<BlockTree>>,
) -> (r: Vec<Row>)
    requires
        entry.role != MessageRole::User ==> trees_fit(*entry, trees@),
    ensures
        row_views(r@) == entry_rows(*entry, pending, *body, trees@),
{
    if entry.role == MessageRole::User {
        let mut r: Vec<Row> = Vec::new();
        r.push(build_user_row(entry, pending, body));
        assert(row_views(r@) =~= seq![user_row(*entry, pending, *body)]);
        return r;
    }
    build_reply_rows(entry, trees)
}

} // verus!
