//! Times as the transcript shows them.
use vstd::prelude::*;

verus! {

/// The text that `chrono` gives an instant in a zone `offset` seconds east of
/// UTC, by the pattern; nothing where it cannot represent the instant.
pub uninterp spec fn clock_text(ms: i64, offset: i32, pattern: Seq<char>) -> Option<Seq<char>>;

/// The pattern of a hover timestamp, as in "Jul 1, 3:45 PM".
pub open spec fn timestamp_pattern() -> Seq<char> {
    "%b %-d, %-I:%M %p"@
}

/// `chrono::DateTime::from_timestamp_millis`, moved by `DateTime::with_timezone`
/// to the `FixedOffset` and written by `DateTime::format`. An offset of a day or
/// more is no zone, and a pattern that `chrono` does not know is no text, so
/// both are left out.
#[verifier::external_body]
fn format_clock(ms: i64, offset: i32, pattern: &str) -> (r: Option<String>)
    requires
        -86_400 < offset < 86_400,
        pattern@ == timestamp_pattern(),
    ensures
        crate::markdown::opt_text(r) == clock_text(ms, offset, pattern@),
{
    let zone = chrono::FixedOffset::east_opt(offset)?;
    let utc = chrono::DateTime::from_timestamp_millis(ms)?;
    Some(utc.with_timezone(&zone).format(pattern).to_string())
}

/// The label of a timestamp: the text, or nothing where there is none.
pub fn timestamp_label(text: Option<String>) -> (r: String)
    ensures
        r@ == match text {
            Some(t) => t@,
            None => ""@,
        },
{
    match text {
        Some(t) => t,
        None => "".to_owned(),
    }
}

/// The hover timestamp of an instant in a zone `offset` seconds east of UTC:
/// short month, day, hour without a leading zero, minutes.
pub fn format_timestamp(ms: i64, offset: i32) -> (r: String)
    requires
        -86_400 < offset < 86_400,
    ensures
        r@ == match clock_text(ms, offset, timestamp_pattern()) {
            Some(t) => t,
            None => ""@,
        },
{
    timestamp_label(format_clock(ms, offset, "%b %-d, %-I:%M %p"))
}

/// An instant: seconds and nanoseconds since the epoch.
#[derive(Clone, Copy, PartialEq, Eq, Structural, Debug)]
pub struct Moment {
    pub secs: i64,
    pub nanos: u32,
}

/// Whether `a` is no later than `b`.
pub open spec fn not_after(a: Moment, b: Moment) -> bool {
    a.secs < b.secs || (a.secs == b.secs && a.nanos <= b.nanos)
}

/// Whether a send in flight is fresher than the turn that the session shows:
/// until the turn starts, a timer would count the round trip.
pub fn sending_bridge(send_started: Option<Moment>, turn_started: Option<Moment>) -> (r: bool)
    ensures
        r == match (send_started, turn_started) {
            (Some(send), Some(turn)) => not_after(turn, send),
            (Some(_), None) => true,
            (None, _) => false,
        },
{
    match (send_started, turn_started) {
        (Some(send), Some(turn)) => turn.secs < send.secs || (turn.secs == send.secs && turn.nanos
            <= send.nanos),
        (Some(_), None) => true,
        (None, _) => false,
    }
}

/// `secs`, or zero before the start.
pub open spec fn since_start(secs: i64) -> nat {
    if secs > 0 {
        secs as nat
    } else {
        0
    }
}

/// An elapsed time as text, as in "1m 32s".
pub open spec fn elapsed_text(secs: i64) -> Seq<char> {
    let n = since_start(secs);
    if n < 60 {
        crate::text::decimal(n) + "s"@
    } else {
        crate::text::decimal(n / 60) + "m "@ + crate::text::decimal(n % 60) + "s"@
    }
}

/// Formats an elapsed time.
pub fn format_elapsed(secs: i64) -> (r: String)
    ensures
        r@ == elapsed_text(secs),
{
    let n: u64 = if secs > 0 {
        secs as u64
    } else {
        0
    };
    let mut s = String::new();
    if n < 60 {
        crate::text::push_decimal(&mut s, n);
    } else {
        crate::text::push_decimal(&mut s, n / 60);
        crate::text::push_text(&mut s, "m ");
        crate::text::push_decimal(&mut s, n % 60);
    }
    crate::text::push_text(&mut s, "s");
    assert(s@ =~= elapsed_text(secs));
    s
}

/// Seconds that a flavour word stays.
pub const FLAVOUR_ROTATE_SECS: i64 = 7;

/// How many flavour words there are.
pub const FLAVOUR_COUNT: u64 = 20;

/// The words that tell of work in progress.
pub const FLAVOUR_WORDS: [&'static str; 20] = [
    "Thinking",
    "Pondering",
    "Scheming",
    "Brewing",
    "Weaving",
    "Tinkering",
    "Musing",
    "Composing",
    "Sifting",
    "Untangling",
    "Distilling",
    "Sketching",
    "Plotting",
    "Riffing",
    "Combobulating",
    "Percolating",
    "Marinating",
    "Noodling",
    "Puzzling",
    "Conjuring",
];

/// The word at an index.
pub open spec fn flavour(ix: int) -> Seq<char> {
    FLAVOUR_WORDS@[ix]@
}

/// The step of the rotation at an elapsed time.
pub open spec fn flavour_step(elapsed_secs: i64) -> u64 {
    (since_start(elapsed_secs) / FLAVOUR_ROTATE_SECS as nat) as u64
}

/// The word for a seed at an elapsed time: the seed picks where the rotation
/// starts, and every [`FLAVOUR_ROTATE_SECS`] the next word comes.
pub open spec fn flavour_at(seed: u64, elapsed_secs: i64) -> Seq<char> {
    flavour((seed.wrapping_add(flavour_step(elapsed_secs)) % FLAVOUR_COUNT) as int)
}

/// The flavour word for a seed at an elapsed time.
pub fn flavour_word(seed: u64, elapsed_secs: i64) -> (r: &'static str)
    ensures
        r@ == flavour_at(seed, elapsed_secs),
{
    let n: u64 = if elapsed_secs > 0 {
        elapsed_secs as u64
    } else {
        0
    };
    let step: u64 = n / FLAVOUR_ROTATE_SECS as u64;
    FLAVOUR_WORDS[(seed.wrapping_add(step) % FLAVOUR_COUNT) as usize]
}

/// The seed of a chat: always the same for the same chat.
pub fn flavour_seed(chat_id: &str) -> (r: u64)
    ensures
        r == crate::hash::text_hash(chat_id@),
{
    crate::hash::hash_text(chat_id)
}

/// The word stays within a step of the rotation.
pub proof fn law_flavour_stays(seed: u64, a: i64, b: i64)
    requires
        0 <= a <= b,
        a / FLAVOUR_ROTATE_SECS == b / FLAVOUR_ROTATE_SECS,
    ensures
        flavour_at(seed, a) == flavour_at(seed, b),
{
}

/// After a full rotation the same word comes again, unless the seed's counter
/// wraps on the way.
pub proof fn law_flavour_comes_around(seed: u64, secs: i64)
    requires
        0 <= secs,
        secs + FLAVOUR_COUNT * FLAVOUR_ROTATE_SECS <= i64::MAX,
        seed + flavour_step(secs) + FLAVOUR_COUNT <= u64::MAX,
    ensures
        flavour_at(seed, (secs + FLAVOUR_COUNT * FLAVOUR_ROTATE_SECS) as i64) == flavour_at(
            seed,
            secs,
        ),
{
    let later = (secs + FLAVOUR_COUNT * FLAVOUR_ROTATE_SECS) as i64;
    assert(later == secs + 140);
    assert((secs + 140) / 7 == secs / 7 + 20);
    assert(flavour_step(later) == flavour_step(secs) + FLAVOUR_COUNT);
}

} // verus!
