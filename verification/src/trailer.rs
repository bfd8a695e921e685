//! The line under the last row while a turn is under way.
use vstd::prelude::*;

use crate::clock::Moment;
use crate::message::{MessageRole, MessageStatus, SessionMessageEntry};

verus! {

/// The line of a turn under way.
pub struct WorkingLine {
    pub text: String,
    /// The message waits for a connection.
    pub queued: bool,
    /// How long the turn has been running, once it runs.
    pub elapsed: Option<String>,
}

/// What stands under the last row.
pub enum Trailer {
    /// The message was not delivered: a click tries again.
    Undelivered,
    Working(WorkingLine),
}

/// What a [`Trailer`] holds.
#[verifier::ext_equal]
pub enum TrailerView {
    Undelivered,
    Working { text: Seq<char>, queued: bool, elapsed: Option<Seq<char>> },
}

impl View for Trailer {
    type V = TrailerView;

    open spec fn view(&self) -> TrailerView {
        match self {
            Trailer::Undelivered => TrailerView::Undelivered,
            Trailer::Working(line) => TrailerView::Working {
                text: line.text@,
                queued: line.queued,
                elapsed: crate::markdown::opt_text(line.elapsed),
            },
        }
    }
}

/// What an optional trailer holds.
pub open spec fn opt_trailer(t: Option<Trailer>) -> Option<TrailerView> {
    match t {
        Some(t) => Some(t@),
        None => None,
    }
}

/// The label of a message that was not delivered.
pub fn undelivered_label() -> (r: &'static str)
    ensures
        r@ == "Not delivered — click to retry"@,
{
    "Not delivered — click to retry"
}

/// The line of a turn under way: a message on its way says so without a timer,
/// a running turn says a flavour word and its time.
pub open spec fn working_line(sending: bool, queued: bool, secs: i64, seed: u64) -> TrailerView {
    TrailerView::Working {
        text: if queued {
            "Queued — will send automatically"@
        } else if sending {
            "Sending…"@
        } else {
            crate::clock::flavour_at(seed, secs) + "…"@
        },
        queued,
        elapsed: if sending {
            None
        } else {
            Some(crate::clock::elapsed_text(secs))
        },
    }
}

fn say_working(sending: bool, queued: bool, secs: i64, seed: u64) -> (r: Trailer)
    ensures
        r@ == working_line(sending, queued, secs, seed),
{
    let text = if queued {
        "Queued — will send automatically".to_owned()
    } else if sending {
        "Sending…".to_owned()
    } else {
        let mut s = crate::clock::flavour_word(seed, secs).to_owned();
        crate::text::push_text(&mut s, "…");
        s
    };
    let elapsed = if sending {
        None
    } else {
        Some(crate::clock::format_elapsed(secs))
    };
    Trailer::Working(WorkingLine { text, queued, elapsed })
}

/// `n` within the numbers of 64 bits.
pub open spec fn fitted(n: int) -> i64 {
    if n > i64::MAX {
        i64::MAX
    } else if n < 0 {
        0
    } else {
        n as i64
    }
}

/// Whole seconds from one instant to another, none where that is earlier.
pub open spec fn seconds_between(from: Moment, to: Moment) -> i64 {
    if !crate::clock::not_after(from, to) {
        0
    } else if to.nanos < from.nanos {
        fitted(to.secs - from.secs - 1)
    } else {
        fitted(to.secs - from.secs)
    }
}

fn fit(n: i128) -> (r: i64)
    ensures
        r == fitted(n as int),
{
    if n > i64::MAX as i128 {
        i64::MAX
    } else if n < 0 {
        0
    } else {
        n as i64
    }
}

fn count_seconds(from: Moment, to: Moment) -> (r: i64)
    ensures
        r == seconds_between(from, to),
{
    let whole: i128 = to.secs as i128 - from.secs as i128;
    if whole < 0 || (whole == 0 && to.nanos < from.nanos) {
        0
    } else if to.nanos < from.nanos {
        fit(whole - 1)
    } else {
        fit(whole)
    }
}

/// What stands under the last row of a chat.
pub open spec fn chat_line(
    chat_id: Option<Seq<char>>,
    undelivered: bool,
    working: bool,
    send_started: Option<Moment>,
    turn_started: Option<Moment>,
    degraded: bool,
    now: Moment,
) -> Option<TrailerView> {
    match chat_id {
        None => None,
        Some(chat) => if undelivered {
            Some(TrailerView::Undelivered)
        } else if !working {
            None
        } else {
            let sending = match (send_started, turn_started) {
                (Some(send), Some(turn)) => crate::clock::not_after(turn, send),
                (Some(_), None) => true,
                (None, _) => false,
            };
            let secs = match turn_started {
                Some(turn) => seconds_between(turn, now),
                None => 0,
            };
            Some(
                working_line(
                    sending,
                    sending && degraded,
                    secs,
                    crate::hash::text_hash(chat),
                ),
            )
        },
    }
}

/// What stands under the last row of a chat: first of all that a message was
/// not delivered, then, while the chat works, its line.
pub fn chat_trailer(
    chat_id: &Option<String>,
    undelivered: bool,
    working: bool,
    send_started: Option<Moment>,
    turn_started: Option<Moment>,
    degraded: bool,
    now: Moment,
) -> (r: Option<Trailer>)
    ensures
        opt_trailer(r) == chat_line(
            crate::markdown::opt_text(*chat_id),
            undelivered,
            working,
            send_started,
            turn_started,
            degraded,
            now,
        ),
{
    let chat = match chat_id {
        Some(c) => c,
        None => {
            return None;
        },
    };
    if undelivered {
        return Some(Trailer::Undelivered);
    }
    if !working {
        return None;
    }
    let sending = crate::clock::sending_bridge(send_started, turn_started);
    let secs: i64 = match turn_started {
        Some(turn) => count_seconds(turn, now),
        None => 0,
    };
    let seed = crate::clock::flavour_seed(chat.as_str());
    Some(say_working(sending, sending && degraded, secs, seed))
}

/// What stands under the last row of a subagent's transcript.
pub open spec fn subagent_line(
    doc_id: Seq<char>,
    live: bool,
    last: Option<SessionMessageEntry>,
    now_ms: i64,
) -> Option<TrailerView> {
    match last {
        Some(e) => if live && (e.status == Some(MessageStatus::Streaming) || e.role
            == MessageRole::User) {
            let age = now_ms - e.created_at;
            Some(
                working_line(
                    false,
                    false,
                    if age > 0 {
                        (age / 1000) as i64
                    } else {
                        0
                    },
                    crate::hash::text_hash(doc_id),
                ),
            )
        } else {
            None
        },
        None => None,
    }
}

/// What an optional reference refers to.
pub open spec fn opt_entry(e: Option<&SessionMessageEntry>) -> Option<SessionMessageEntry> {
    match e {
        Some(e) => Some(*e),
        None => None,
    }
}

/// What stands under the last row of a subagent's transcript: the document
/// itself tells whether it runs, by a last entry that streams or that awaits its
/// reply. A frozen one never does.
pub fn subagent_trailer(
    doc_id: &str,
    live: bool,
    last: Option<&SessionMessageEntry>,
    now_ms: i64,
) -> (r: Option<Trailer>)
    ensures
        opt_trailer(r) == subagent_line(doc_id@, live, opt_entry(last), now_ms),
{
    if !live {
        return None;
    }
    let e = match last {
        Some(e) => e,
        None => {
            return None;
        },
    };
    let streams = crate::message::is_streaming(e);
    let asks = match e.role {
        MessageRole::User => true,
        _ => false,
    };
    if !streams && !asks {
        return None;
    }
    let age: i128 = now_ms as i128 - e.created_at as i128;
    let secs: i64 = if age > 0 {
        (age / 1000) as i64
    } else {
        0
    };
    Some(say_working(false, false, secs, crate::clock::flavour_seed(doc_id)))
}

/// While a message is on its way no timer shows; and it is called queued only
/// where its way is known to be cut.
pub proof fn law_no_timer_before_the_turn(
    chat: Seq<char>,
    send: Moment,
    turn: Option<Moment>,
    degraded: bool,
    now: Moment,
)
    requires
        turn matches Some(t) ==> crate::clock::not_after(t, send),
    ensures
        ({
            let line = chat_line(Some(chat), false, true, Some(send), turn, degraded, now);
            line matches Some(TrailerView::Working { text, queued, elapsed }) && elapsed is None
                && queued == degraded
        }),
{
}

} // verus!
