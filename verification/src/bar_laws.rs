//! What holds of the titlebar, of the line under a transcript and of its clock.
use vstd::prelude::*;

use crate::clock::Moment;
use crate::message::{MessageRole, MessageStatus, SessionMessageEntry};
use crate::titlebar::WindowButton;
use crate::trailer::TrailerView;

verus! {

// ---------------------------------------------------------------------------
// The titlebar
// ---------------------------------------------------------------------------

/// Caption buttons are 24 pixels wide and stand 2 pixels apart.
pub proof fn law_captions_stand_side_by_side(n: nat)
    requires
        n > 0,
    ensures
        crate::titlebar::captions_px(0) == 0,
        crate::titlebar::captions_px(1) == 24,
        crate::titlebar::captions_px(n + 1) == crate::titlebar::captions_px(n) + 2 + 24,
{
}

/// The controls start clear of what stands at the window's left: of the traffic
/// lights of macOS, which a full screen hides, and of caption buttons.
pub proof fn law_controls_clear_the_captions(fullscreen: bool, n: nat)
    ensures
        crate::titlebar::buttons_start(true, false, n) == 88,
        crate::titlebar::buttons_start(true, true, n) == 12,
        crate::titlebar::buttons_start(false, fullscreen, 0) == 10,
        n > 0 ==> crate::titlebar::buttons_start(false, fullscreen, n) == 10
            + crate::titlebar::captions_px(n) + 2,
{
}

/// The titlebar's own content starts behind the 82 pixels of its controls, and a
/// header under it keeps as much clear, less its own padding.
pub proof fn law_content_starts_behind_the_controls(
    is_macos: bool,
    fullscreen: bool,
    captions: usize,
    gap: u64,
    pad: u64,
    start: u128,
    clear: u128,
)
    requires
        call_ensures(
            crate::titlebar::title_bar_content_start,
            (is_macos, fullscreen, captions, gap),
            start,
        ),
        call_ensures(
            crate::titlebar::cluster_clearance,
            (is_macos, fullscreen, captions, pad),
            clear,
        ),
    ensures
        start == crate::titlebar::buttons_start(is_macos, fullscreen, captions as nat) + 82 + gap,
        clear > 0 ==> clear + pad == crate::titlebar::buttons_start(
            is_macos,
            fullscreen,
            captions as nat,
        ) + 82 + 8,
        pad < 82 ==> clear > 0,
{
}

/// Only macOS needs space ahead of the controls: with the padding around it, it
/// comes to where the controls start.
pub proof fn law_the_spacer_fills_up_to_the_controls(
    fullscreen: bool,
    pad: u64,
    mac: u128,
    other: u128,
)
    requires
        call_ensures(crate::titlebar::titlebar_spacer_width, (true, fullscreen, pad), mac),
        call_ensures(crate::titlebar::titlebar_spacer_width, (false, fullscreen, pad), other),
    ensures
        other == 0,
        pad <= 12 ==> mac + pad == if fullscreen {
            12int
        } else {
            88
        },
        pad >= 88 ==> mac == 0,
{
}

/// At the right the content keeps clear of the captions: 108 pixels on Windows,
/// else the row of buttons and its padding.
pub proof fn law_the_right_clears_the_captions(captions: usize, base: u64, win: u128, linux: u128)
    requires
        call_ensures(crate::titlebar::titlebar_right_padding, (true, captions, base), win),
        call_ensures(crate::titlebar::titlebar_right_padding, (false, captions, base), linux),
    ensures
        win == base + 108,
        captions == 0 ==> linux == base,
        captions > 0 ==> linux == base + 10 + crate::titlebar::captions_px(captions as nat),
{
}

/// The caption buttons drawn on a side are those of its layout that the desktop
/// supports: a close button always, the others where it can do what they ask.
pub proof fn law_supported_captions_are_drawn(
    side: Seq<WindowButton>,
    minimize: bool,
    maximize: bool,
    b: WindowButton,
)
    ensures
        crate::titlebar::kept(side, minimize, maximize).contains(b) <==> side.contains(b) && (b
            == WindowButton::Close || (b == WindowButton::Minimize && minimize) || (b
            == WindowButton::Maximize && maximize)),
        crate::titlebar::kept(side, true, true) == side,
{
    broadcast use vstd::seq_lib::group_filter_ensures;

    let keep = |b: WindowButton| crate::titlebar::supported(b, minimize, maximize);
    let all = |b: WindowButton| crate::titlebar::supported(b, true, true);
    if side.contains(b) && keep(b) {
        let i = choose|i: int| 0 <= i < side.len() && side[i] == b;
        side.lemma_filter_contains(keep, i);
    }
    if side.filter(keep).contains(b) {
        side.lemma_filter_contains_rev(keep, b);
        let i = choose|i: int| 0 <= i < side.filter(keep).len() && side.filter(keep)[i] == b;
        assert(keep(side.filter(keep)[i]));
    }
    lemma_all_kept(side, all);
}

proof fn lemma_all_kept(side: Seq<WindowButton>, all: spec_fn(WindowButton) -> bool)
    requires
        forall|b: WindowButton| #[trigger] all(b),
    ensures
        side.filter(all) == side,
    decreases side.len(),
{
    reveal(Seq::filter);
    if side.len() > 0 {
        lemma_all_kept(side.drop_last(), all);
        assert(all(side.last()));
        assert(side.drop_last().push(side.last()) =~= side);
    } else {
        assert(side.filter(all) =~= side);
    }
}

// ---------------------------------------------------------------------------
// The line under a transcript
// ---------------------------------------------------------------------------

/// That a message was not delivered is told before all else; a chat at rest has
/// no line, and neither has the canvas of a new chat.
pub proof fn law_an_undelivered_message_is_told_first(
    chat: Seq<char>,
    working: bool,
    send: Option<Moment>,
    turn: Option<Moment>,
    degraded: bool,
    now: Moment,
)
    ensures
        crate::trailer::chat_line(Some(chat), true, working, send, turn, degraded, now) == Some(
            TrailerView::Undelivered,
        ),
        crate::trailer::chat_line(Some(chat), false, false, send, turn, degraded, now) is None,
        crate::trailer::chat_line(None, true, working, send, turn, degraded, now) is None,
        crate::trailer::chat_line(None, false, true, send, turn, degraded, now) is None,
        crate::trailer::chat_line(Some(chat), false, true, send, turn, degraded, now) is Some,
{
}

/// A turn that runs, with no message sent after it began, tells its time and a
/// word; nothing of it is queued.
pub proof fn law_a_running_turn_tells_its_time(
    chat: Seq<char>,
    send: Option<Moment>,
    turn: Moment,
    degraded: bool,
    now: Moment,
)
    requires
        send matches Some(s) ==> s.secs < turn.secs || (s.secs == turn.secs && s.nanos
            < turn.nanos),
    ensures
        ({
            let line = crate::trailer::chat_line(
                Some(chat),
                false,
                true,
                send,
                Some(turn),
                degraded,
                now,
            );
            let secs = crate::trailer::seconds_between(turn, now);
            line == Some(
                TrailerView::Working {
                    text: crate::clock::flavour_at(crate::hash::text_hash(chat), secs) + "…"@,
                    queued: false,
                    elapsed: Some(crate::clock::elapsed_text(secs)),
                },
            )
        }),
{
}

/// A message on its way says so, without a time: that it is sent, or, over a
/// connection known to be cut, that it waits.
pub proof fn law_a_message_on_its_way_says_so(
    chat: Seq<char>,
    send: Moment,
    turn: Option<Moment>,
    degraded: bool,
    now: Moment,
)
    requires
        turn matches Some(t) ==> t.secs < send.secs || (t.secs == send.secs && t.nanos
            <= send.nanos),
    ensures
        crate::trailer::chat_line(Some(chat), false, true, Some(send), turn, degraded, now)
            == Some(
            TrailerView::Working {
                text: if degraded {
                    "Queued — will send automatically"@
                } else {
                    "Sending…"@
                },
                queued: degraded,
                elapsed: None,
            },
        ),
{
}

/// Whole seconds have passed: no more than the time between two instants, and a
/// second more would be too many. None have passed before the first.
pub proof fn law_whole_seconds_are_counted(from: Moment, to: Moment)
    requires
        from.nanos < 1_000_000_000,
        to.nanos < 1_000_000_000,
        to.secs - from.secs <= i64::MAX,
    ensures
        ({
            let passed = (to.secs - from.secs) * 1_000_000_000 + (to.nanos - from.nanos);
            let s = crate::trailer::seconds_between(from, to);
            &&& passed >= 0 ==> s * 1_000_000_000 <= passed < (s + 1) * 1_000_000_000
            &&& passed < 0 ==> s == 0
        }),
{
}

/// A subagent's transcript has a line exactly while it is live and its last
/// entry streams or awaits its reply. The line tells the time since that entry.
pub proof fn law_a_live_transcript_has_a_line(
    doc: Seq<char>,
    e: SessionMessageEntry,
    now_ms: i64,
)
    requires
        e.created_at <= now_ms,
        now_ms - e.created_at <= i64::MAX,
    ensures
        crate::trailer::subagent_line(doc, false, Some(e), now_ms) is None,
        crate::trailer::subagent_line(doc, true, None, now_ms) is None,
        crate::trailer::subagent_line(doc, true, Some(e), now_ms) is Some <==> e.status == Some(
            MessageStatus::Streaming,
        ) || e.role == MessageRole::User,
        crate::trailer::subagent_line(doc, true, Some(e), now_ms) matches Some(line) ==> {
            let secs = ((now_ms - e.created_at) / 1000) as i64;
            line == TrailerView::Working {
                text: crate::clock::flavour_at(crate::hash::text_hash(doc), secs) + "…"@,
                queued: false,
                elapsed: Some(crate::clock::elapsed_text(secs)),
            }
        },
{
}

// ---------------------------------------------------------------------------
// The clock
// ---------------------------------------------------------------------------

/// A time below a minute is written in seconds, a longer one in minutes and the
/// seconds that are left over; none has passed before the start.
pub proof fn law_a_time_is_written_in_minutes_and_seconds(secs: i64, m: nat, s: nat)
    requires
        s < 60,
        secs == m * 60 + s,
    ensures
        m == 0 ==> crate::clock::elapsed_text(secs) == crate::text::decimal(s) + "s"@,
        m > 0 ==> crate::clock::elapsed_text(secs) == crate::text::decimal(m) + "m "@
            + crate::text::decimal(s) + "s"@,
        crate::clock::elapsed_text((-1 - secs) as i64) == crate::clock::elapsed_text(0),
{
    assert((m * 60 + s) / 60 == m && (m * 60 + s) % 60 == s) by (nonlinear_arith)
        requires
            s < 60,
    ;
}

/// Every seven seconds the next of the twenty words comes, the first behind the
/// last, wherever the seed begins.
pub proof fn law_the_next_word_comes(seed: u64, secs: i64)
    requires
        0 <= secs <= i64::MAX - 7,
        seed + secs / 7 + 1 <= u64::MAX,
    ensures
        exists|ix: int|
            0 <= ix < 20 && crate::clock::flavour_at(seed, secs) == #[trigger] crate::clock::flavour(
                ix,
            ) && crate::clock::flavour_at(seed, (secs + 7) as i64) == crate::clock::flavour(
                if ix == 19 {
                    0
                } else {
                    ix + 1
                },
            ),
        secs < 7 && seed < 20 ==> crate::clock::flavour_at(seed, secs) == crate::clock::flavour(
            seed as int,
        ),
{
    let step = crate::clock::flavour_step(secs);
    let next = crate::clock::flavour_step((secs + 7) as i64);
    assert((secs + 7) / 7 == secs / 7 + 1);
    assert(next == step + 1);
    let ix = ((seed + step) % 20) as int;
    assert(crate::clock::flavour_at(seed, secs) == crate::clock::flavour(ix));
}

} // verus!
