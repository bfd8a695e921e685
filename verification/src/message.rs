//! Session messages: entries, their parts, and what a prompt shows.
use std::ops::Range;
use std::sync::Arc;

use vstd::prelude::*;

use crate::diff::ToolDiff;
use crate::tools::{CallFacts, SubagentStatus, ToolCall, ToolDiffStat};

verus! {

/// Who an entry is from.
#[derive(Clone, Copy, PartialEq, Eq, Structural, Debug)]
pub enum MessageRole {
    User,
    Assistant,
    System,
}

/// Where an entry's turn stands.
#[derive(Clone, Copy, PartialEq, Eq, Structural, Debug)]
pub enum MessageStatus {
    Streaming,
    Complete,
    Aborted,
}

/// A question that a run asks the user.
pub struct Question {
    pub header: String,
}

/// One part of an entry.
pub enum MessagePart {
    Text { id: String, text: String },
    Reasoning { id: String, text: String },
    Tool {
        id: String,
        call: Arc<ToolCall>,
        facts: Arc<CallFacts>,
        is_error: bool,
        resolved: bool,
        output: Option<String>,
        diff: Option<ToolDiff>,
        output_ref: Option<String>,
        output_bytes: Option<u64>,
        diff_ref: Option<String>,
        diff_stats: Option<Vec<ToolDiffStat>>,
        subagent_ref: Option<String>,
        subagent_status: Option<SubagentStatus>,
        subagent_tail: Option<String>,
    },
    Input { id: String, questions: Vec<Question>, resolved: bool },
    Error { id: String, message: String },
}

/// A message, its continuations joined.
pub struct SessionMessageEntry {
    pub id: String,
    pub role: MessageRole,
    pub parts: Vec<MessagePart>,
    /// Milliseconds since the epoch.
    pub created_at: i64,
    pub device_id: String,
    pub status: Option<MessageStatus>,
    pub continuation_of: Option<String>,
}

/// A file mention in a prompt's display text, by its bytes.
pub struct MentionSpan {
    pub range: Range<usize>,
    pub path: String,
    pub is_dir: bool,
}

/// An image that a prompt refers to.
pub struct UserImageAttachment {
    pub path: String,
    pub name: String,
}

/// Context that a prompt folded in as text.
pub struct MessageBadge {
    pub label: String,
}

/// What a prompt shows: its display text, the mention chips over it, and the
/// attachments and badges that were lifted out of it.
pub struct UserBody {
    pub text: String,
    pub mentions: Arc<Vec<MentionSpan>>,
    pub attachments: Arc<Vec<UserImageAttachment>>,
    pub badges: Arc<Vec<MessageBadge>>,
}

impl SessionMessageEntry {
    /// Whether the entry's turn is still running.
    pub open spec fn streaming(self) -> bool {
        self.status == Some(MessageStatus::Streaming)
    }
}

/// Whether the entry's turn is still running.
pub fn is_streaming(entry: &SessionMessageEntry) -> (r: bool)
    ensures
        r == entry.streaming(),
{
    match entry.status {
        Some(MessageStatus::Streaming) => true,
        _ => false,
    }
}

/// The id of a part.
pub open spec fn part_id(part: MessagePart) -> Seq<char> {
    match part {
        MessagePart::Text { id, .. } => id@,
        MessagePart::Reasoning { id, .. } => id@,
        MessagePart::Tool { id, .. } => id@,
        MessagePart::Input { id, .. } => id@,
        MessagePart::Error { id, .. } => id@,
    }
}

impl MessagePart {
    /// The part's id.
    pub fn id(&self) -> (r: &String)
        ensures
            r@ == part_id(*self),
    {
        match self {
            MessagePart::Text { id, .. } => id,
            MessagePart::Reasoning { id, .. } => id,
            MessagePart::Tool { id, .. } => id,
            MessagePart::Input { id, .. } => id,
            MessagePart::Error { id, .. } => id,
        }
    }
}

/// The texts of the text parts, in order; of the blank ones only where
/// `blank` says so.
pub open spec fn text_parts(parts: Seq<MessagePart>, blank: bool) -> Seq<Seq<char>>
    decreases parts.len(),
{
    if parts.len() == 0 {
        Seq::empty()
    } else {
        let before = text_parts(parts.drop_last(), blank);
        match parts.last() {
            MessagePart::Text { id, text } => if blank || !crate::text::is_blank(text@) {
                before.push(text@)
            } else {
                before
            },
            _ => before,
        }
    }
}

/// The text parts joined by an empty line.
pub open spec fn joined_text(parts: Seq<MessagePart>, blank: bool) -> Seq<char> {
    crate::text::join(text_parts(parts, blank), "\n\n"@)
}

/// Joins the text parts by an empty line.
fn join_text(parts: &Vec<MessagePart>, blank: bool) -> (r: String)
    ensures
        r@ == joined_text(parts@, blank),
{
    let mut s = String::new();
    let mut any = false;
    let mut i: usize = 0;
    assert(text_parts(parts@.take(0), blank) =~= Seq::empty());
    while i < parts.len()
        invariant
            i <= parts@.len(),
            s@ == joined_text(parts@.take(i as int), blank),
            any == (text_parts(parts@.take(i as int), blank).len() > 0),
        decreases parts.len() - i,
    {
        let ghost before = text_parts(parts@.take(i as int), blank);
        assert(parts@.take(i + 1).drop_last() =~= parts@.take(i as int));
        assert(parts@.take(i + 1).last() == parts@[i as int]);
        if let MessagePart::Text { id: _, text } = &parts[i] {
            if blank || !crate::text::blank(text.as_str()) {
                if any {
                    crate::text::push_text(&mut s, "\n\n");
                }
                crate::text::push_text(&mut s, text.as_str());
                any = true;
                proof {
                    assert(before.push(text@).drop_last() =~= before);
                    assert(s@ =~= crate::text::join(before.push(text@), "\n\n"@));
                }
            }
        }
        i = i + 1;
    }
    assert(parts@.take(i as int) =~= parts@);
    s
}

/// The raw text of a prompt: its text parts joined by an empty line. What the
/// prompt shows is projected from it.
pub fn raw_text(entry: &SessionMessageEntry) -> (r: String)
    ensures
        r@ == joined_text(entry.parts@, true),
{
    join_text(&entry.parts, true)
}

/// What copying an entry gives: its text parts that are not blank, unchanged.
pub open spec fn copy_of(entry: SessionMessageEntry) -> Option<Seq<char>> {
    let text = joined_text(entry.parts@, false);
    if text.len() == 0 {
        None
    } else {
        Some(text)
    }
}

/// The clipboard payload of an entry: the authored text in document order,
/// without tool traces and other structured parts.
pub fn assistant_copy_text(entry: &SessionMessageEntry) -> (r: Option<String>)
    ensures
        crate::markdown::opt_text(r) == copy_of(*entry),
{
    let text = join_text(&entry.parts, false);
    if text.as_str().is_empty() {
        None
    } else {
        Some(text)
    }
}

} // verus!
