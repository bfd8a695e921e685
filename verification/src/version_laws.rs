//! What holds of the rows of an entry besides what they show: their versions,
//! their ids and what the first and the last of them bear.
use std::sync::Arc;

use vstd::prelude::*;

use crate::markdown::BlockTree;
use crate::message::{MessagePart, MessageRole, SessionMessageEntry, UserBody};
use crate::rows::{KindView, RowState, RowView};

verus! {

/// A flag is a number's lowest bit, and the number is above it.
pub proof fn law_a_flag_is_the_lowest_bit(h: u64, flag: bool)
    ensures
        crate::rows::flagged(h, flag) % 2 == if flag {
            1u64
        } else {
            0
        },
        crate::rows::flagged(h, flag) / 2 == h % 0x8000_0000_0000_0000,
{
    assert(((h << 1) | 1u64) % 2 == 1 && ((h << 1) | 1u64) / 2 == h % 0x8000_0000_0000_0000u64)
        by (bit_vector);
    assert(((h << 1) | 0u64) % 2 == 0 && ((h << 1) | 0u64) / 2 == h % 0x8000_0000_0000_0000u64)
        by (bit_vector);
}

/// The row of a prompt opens the turn, bears its time, and copies its text unless
/// that is blank. Its version tells the size of its text and whether it is
/// confirmed.
pub proof fn law_a_prompt_bears_its_time(
    entry: SessionMessageEntry,
    pending: bool,
    body: UserBody,
    trees: Seq<Arc<BlockTree>>,
)
    requires
        entry.role == MessageRole::User,
    ensures
        ({
            let row = crate::rows::entry_rows(entry, pending, body, trees)[0];
            let size = vstd::utf8::encode_utf8(
                crate::message::joined_text(entry.parts@, true),
            ).len();
            &&& row.turn_start
            &&& row.entry_id == entry.id@
            &&& row.timestamp == Some(entry.created_at)
            &&& crate::text::is_blank(body.text@) ==> row.copy_text is None
            &&& !crate::text::is_blank(body.text@) ==> row.copy_text == Some(body.text@)
            &&& row.version % 2 == 1 <==> pending
            &&& size <= isize::MAX ==> row.version / 2 == size
        }),
{
    let size = vstd::utf8::encode_utf8(crate::message::joined_text(entry.parts@, true)).len();
    law_a_flag_is_the_lowest_bit((size as usize) as u64, pending);
}

/// The row of a block is named by its part and its place in it, and its version
/// hashes the block's own bytes and tells whether it is live.
pub proof fn law_a_blocks_version_hashes_its_bytes(
    entry: SessionMessageEntry,
    key: Seq<char>,
    text: Seq<char>,
    tree: Arc<BlockTree>,
    ix: nat,
    bytes: Seq<u8>,
)
    requires
        ix < tree.blocks@.len(),
        tree.blocks@[ix as int].range.start <= tree.blocks@[ix as int].range.end
            <= vstd::utf8::encode_utf8(text).len(),
        bytes == vstd::utf8::encode_utf8(text).subrange(
            tree.blocks@[ix as int].range.start as int,
            tree.blocks@[ix as int].range.end as int,
        ),
    ensures
        ({
            let row = crate::rows::block_row(entry, key, text, tree, ix);
            &&& row.id == key + "."@ + crate::text::decimal(ix)
            &&& row.entry_id == entry.id@
            &&& row.version % 2 == 1 <==> entry.streaming()
            &&& row.version / 2 == crate::hash::fnv(bytes) % 0x8000_0000_0000_0000
            &&& entry.streaming() ==> row.kind == (KindView::LiveMarkdown { tree, block_ix: ix })
            &&& !entry.streaming() ==> row.kind == (KindView::Markdown { tree, block_ix: ix })
            &&& !row.turn_start && row.timestamp is None && row.copy_text is None
        }),
{
    law_a_flag_is_the_lowest_bit(crate::hash::fnv(bytes), entry.streaming());
}

/// A question's row has a version that hashes its header and tells whether it is
/// answered; an error's has the size of its message. Both are named by their part.
pub proof fn law_other_rows_are_named_by_their_part(
    entry: SessionMessageEntry,
    trees: Seq<Arc<BlockTree>>,
    st: RowState,
    ix: nat,
)
    requires
        ix < entry.parts@.len(),
    ensures
        entry.parts@[ix as int] matches MessagePart::Input { id, questions, resolved } ==> {
            let row = crate::rows::stepped(entry, trees, st, ix).rows.last();
            &&& row.id == entry.id@ + "#"@ + id@
            &&& row.entry_id == entry.id@
            &&& row.kind matches KindView::InputChip { header, resolved: done } && done == resolved
                && row.version / 2 == crate::hash::text_hash(header) % 0x8000_0000_0000_0000
            &&& row.version % 2 == 1 <==> resolved
        },
        entry.parts@[ix as int] matches MessagePart::Error { id, message } ==> {
            let row = crate::rows::stepped(entry, trees, st, ix).rows.last();
            &&& row.id == entry.id@ + "#"@ + id@
            &&& row.entry_id == entry.id@
            &&& vstd::utf8::encode_utf8(message@).len() <= usize::MAX ==> row.version
                == vstd::utf8::encode_utf8(message@).len()
        },
{
    if let MessagePart::Input { id, questions, resolved } = entry.parts@[ix as int] {
        law_a_flag_is_the_lowest_bit(
            crate::hash::text_hash(crate::rows::input_header(questions@)),
            resolved,
        );
    }
}

/// A group's row is named by its entry and its number in it, and its version is the
/// fingerprint of its chips.
pub proof fn law_a_groups_version_is_its_print(
    entry: SessionMessageEntry,
    tools: Seq<crate::tools::ItemView>,
    n: nat,
    auto_open: bool,
)
    ensures
        ({
            let row = crate::rows::group_row(entry, tools, n, auto_open);
            &&& row.id == entry.id@ + "#g"@ + crate::text::decimal(n)
            &&& row.entry_id == entry.id@
            &&& row.version == crate::fingerprint::group_print(tools, auto_open)
            &&& row.kind == (KindView::ToolGroup { tools, auto_open })
            &&& !row.turn_start && row.timestamp is None && row.copy_text is None
        }),
{
}

/// Of a reply's rows the first opens the turn and no other does. Once it has
/// settled the last bears its time and copies its text, and has another version
/// than before; while it streams none does.
pub proof fn law_the_first_and_the_last_row_bear_the_turn(
    entry: SessionMessageEntry,
    rows: Seq<RowView>,
    i: int,
)
    requires
        0 <= i < rows.len(),
        forall|j: int|
            0 <= j < rows.len() ==> !(#[trigger] rows[j]).turn_start && rows[j].timestamp is None
                && rows[j].copy_text is None,
    ensures
        ({
            let r = crate::rows::settled(entry, rows);
            let last = i == rows.len() - 1 && !entry.streaming();
            &&& r.len() == rows.len()
            &&& r[i].id == rows[i].id && r[i].kind == rows[i].kind && r[i].entry_id
                == rows[i].entry_id
            &&& r[i].turn_start <==> i == 0
            &&& last ==> r[i].timestamp == Some(entry.created_at) && r[i].copy_text
                == crate::message::copy_of(entry) && r[i].version != rows[i].version
            &&& !last ==> r[i].timestamp is None && r[i].copy_text is None && r[i].version
                == rows[i].version
        }),
{
    let v = rows[i].version;
    assert(v ^ 0x4000_0000_0000_0000u64 != v) by (bit_vector);
}

} // verus!
