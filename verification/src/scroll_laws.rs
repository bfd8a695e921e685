//! What holds of every move of a transcript's viewport.
use vstd::prelude::*;

use crate::own_turn::{TurnMeasure, TurnMotion};
use crate::scroll::{
    RestoreStep, SpringStep, TranscriptView, WheelStep,
};
use crate::sync::FollowStep;
use crate::viewport::{ListOffset, Px, SavedView, TranscriptReplayState, TurnView};

verus! {

/// Whether a length is a number that is not negative: its bits grow with it.
pub open spec fn is_length(p: Px) -> bool {
    p.bits <= 0x7f80_0000
}

/// Whether `i` is the first row of the prompt of an entry.
pub open spec fn opens_entry(rows: Seq<crate::rows::RowView>, i: int, id: Seq<char>) -> bool {
    &&& 0 <= i < rows.len()
    &&& rows[i].turn_start && rows[i].entry_id == id
    &&& forall|j: int| 0 <= j < i ==> !((#[trigger] rows[j]).turn_start && rows[j].entry_id == id)
}

/// Whether a scroll ended near enough to the end to return to it: within 2 px, or
/// within 70 px and nearer than before.
pub open spec fn comes_back(distance: Px, previous: Px) -> bool {
    distance.bits <= 0x4000_0000 || (distance.bits <= 0x428c_0000 && distance.bits
        < previous.bits)
}

/// Whether a scroll went away from the end: farther than before, and farther from
/// it than 2 px.
pub open spec fn escapes(distance: Px, receded: bool) -> bool {
    receded && distance.bits > 0x4000_0000
}

/// What no scroll changes: the chat, its place, its layouts and what it waits for.
pub open spec fn same_chat(a: TranscriptView, b: TranscriptView) -> bool {
    &&& a.chat_id == b.chat_id
    &&& a.place == b.place
    &&& a.generation == b.generation
    &&& a.layout_revision == b.layout_revision
    &&& a.finalize_pending == b.finalize_pending
    &&& a.land_end_pending == b.land_end_pending
}

/// What is kept of a turn while it is held or let go of.
pub open spec fn same_turn(a: TurnView, b: TurnView) -> bool {
    &&& a.chat_id == b.chat_id
    &&& a.message_id == b.message_id
    &&& a.runway == b.runway
    &&& a.seen_prompt == b.seen_prompt
}

proof fn lemma_prompt_at(rows: Seq<crate::rows::RowView>, id: Seq<char>)
    ensures
        match crate::scroll::prompt_at(rows, id) {
            Some(i) => opens_entry(rows, i as int, id),
            None => !crate::viewport::prompt_shown(rows, id),
        },
    decreases rows.len(),
{
    if rows.len() > 0 {
        let init = rows.drop_last();
        lemma_prompt_at(init, id);
        match crate::scroll::prompt_at(init, id) {
            Some(i) => {
                assert(rows[i as int] == init[i as int]);
                assert forall|j: int| 0 <= j < i implies !((#[trigger] rows[j]).turn_start
                    && rows[j].entry_id == id) by {
                    assert(init[j] == rows[j]);
                }
            },
            None => {
                assert forall|j: int| 0 <= j < rows.len() - 1 implies !((
                #[trigger] rows[j]).turn_start && rows[j].entry_id == id) by {
                    assert(init[j] == rows[j]);
                }
            },
        }
    }
}

/// A scroll back to the end, while a turn has its space, takes hold of the turn:
/// one that was let go of glides to its place again, and one that is held is shown
/// at the first row of its prompt.
pub proof fn law_returning_takes_hold_of_the_turn(
    v: TranscriptView,
    rows: Seq<crate::rows::RowView>,
    distance: Px,
    receded: bool,
)
    requires
        v.own_turn is Some,
        is_length(distance),
        is_length(v.last_distance),
        !escapes(distance, receded),
        comes_back(distance, v.last_distance),
    ensures
        ({
            let (step, after) = crate::scroll::wheel_step(v, rows, distance, receded);
            &&& after.own_turn matches Some(t) && t.held && same_turn(t, v.own_turn->0)
            &&& after.pinned == v.pinned
            &&& if v.own_turn->0.held {
                &&& after.own_turn == v.own_turn
                &&& after.turn_kick == v.turn_kick
                &&& step matches WheelStep::Reassert(at) && match at {
                    Some(i) => rows.len() > usize::MAX || opens_entry(
                        rows,
                        i as int,
                        v.own_turn->0.message_id,
                    ),
                    None => !crate::viewport::prompt_shown(rows, v.own_turn->0.message_id),
                }
            } else {
                &&& !after.own_turn->0.positioned
                &&& after.turn_kick
                &&& !after.turn_ticking
                &&& step == WheelStep::Stay
            }
        }),
{
    lemma_prompt_at(rows, v.own_turn->0.message_id);
}

/// A scroll away from the end lets go of a turn, which keeps its space, breaks the
/// pin and drops the spring.
pub proof fn law_escaping_lets_go(
    v: TranscriptView,
    rows: Seq<crate::rows::RowView>,
    distance: Px,
    receded: bool,
)
    requires
        is_length(distance),
        escapes(distance, receded),
    ensures
        ({
            let (step, after) = crate::scroll::wheel_step(v, rows, distance, receded);
            &&& step == WheelStep::ResetSpring
            &&& !after.pinned
            &&& !after.spring.ticking
            &&& match v.own_turn {
                Some(t) => after.own_turn matches Some(u) && same_turn(t, u) && !u.held
                    && u.positioned == t.positioned && !after.turn_ticking,
                None => after.own_turn is None,
            }
            &&& after.turn_kick == v.turn_kick
        }),
{
}

/// A scroll that neither leaves the end nor returns to it changes nobody's hold: a
/// held turn is shown at its place, and nothing else is asked of the list.
pub proof fn law_scrolling_about_changes_no_hold(
    v: TranscriptView,
    rows: Seq<crate::rows::RowView>,
    distance: Px,
    receded: bool,
)
    requires
        is_length(distance),
        is_length(v.last_distance),
        !escapes(distance, receded),
        !comes_back(distance, v.last_distance),
    ensures
        ({
            let (step, after) = crate::scroll::wheel_step(v, rows, distance, receded);
            &&& after.own_turn == v.own_turn
            &&& after.pinned == v.pinned
            &&& after.spring == v.spring
            &&& after.turn_kick == v.turn_kick
            &&& after.turn_ticking == v.turn_ticking
            &&& (step is Reassert) == v.held()
            &&& step != WheelStep::ResetSpring
        }),
{
}

/// A scroll back to the end pins to it where no turn has its space, and calls for
/// the spring unless it was pinned before.
pub proof fn law_returning_pins(
    v: TranscriptView,
    rows: Seq<crate::rows::RowView>,
    distance: Px,
    receded: bool,
)
    requires
        v.own_turn is None,
        is_length(distance),
        is_length(v.last_distance),
        !escapes(distance, receded),
        comes_back(distance, v.last_distance),
    ensures
        ({
            let (step, after) = crate::scroll::wheel_step(v, rows, distance, receded);
            &&& after.pinned
            &&& after.own_turn is None
            &&& step == WheelStep::Stay
            &&& if v.pinned {
                after.spring == v.spring
            } else {
                after.spring.kick && !after.spring.settled && after.spring.ticking
                    == v.spring.ticking
            }
        }),
{
}

/// After a scroll its distance is known, the button back to the end shows exactly
/// where that is more than 320 px away and neither the pin nor a hold brings it
/// back, no viewport waits any more, and one that did counts as following its end.
pub proof fn law_after_a_scroll(
    v: TranscriptView,
    rows: Seq<crate::rows::RowView>,
    distance: Px,
    receded: bool,
)
    requires
        is_length(distance),
    ensures
        ({
            let after = crate::scroll::wheel_step(v, rows, distance, receded).1;
            &&& same_chat(v, after)
            &&& after.last_distance == distance
            &&& after.pending is None
            &&& after.show_jump_button == (distance.bits > 0x43a0_0000 && if v.own_turn is Some {
                !(after.own_turn matches Some(t) && t.held)
            } else {
                !after.pinned
            })
            &&& v.pending is None || v.chat_id is None ==> after.saved == v.saved
            &&& v.pending is Some && v.chat_id is Some && v.wf() ==> after.saved.by_chat.contains_key(
                v.chat_id->0,
            ) && after.saved.by_chat[v.chat_id->0] is FollowTail
        }),
{
    if let (Some(_), Some(chat)) = (v.pending, v.chat_id) {
        if v.wf() {
            crate::viewport::law_insert_then_get(v.saved, chat, SavedView::FollowTail);
        }
    }
}

// ---------------------------------------------------------------------------
// A turn sent from here
// ---------------------------------------------------------------------------

/// A send has the viewport at once: its turn is held, without space, on its way to
/// its place, known to have shown its prompt only where the rows have it; the pin,
/// the spring and the button stand back.
pub proof fn law_a_send_takes_the_viewport(
    v: TranscriptView,
    rows: Seq<crate::rows::RowView>,
    chat_id: Seq<char>,
    message_id: Seq<char>,
)
    ensures
        ({
            let after = crate::scroll::sent(v, rows, chat_id, message_id);
            &&& after.own_turn matches Some(t) && t.chat_id == chat_id && t.message_id == message_id
                && t.runway.bits == 0 && t.held && !t.positioned && (t.seen_prompt <==> exists|
                i: int,
            |
                0 <= i < rows.len() && (#[trigger] rows[i]).turn_start && rows[i].entry_id
                    == message_id)
            &&& after.turn_kick
            &&& !after.turn_ticking
            &&& !after.pinned
            &&& !after.show_jump_button
            &&& after.pending is None
            &&& !after.spring.kick && !after.spring.ticking && !after.spring.settled
            &&& after.chat_id == v.chat_id
            &&& after.place == v.place
            &&& after.last_distance == v.last_distance
        }),
{
}

/// A turn stays as long as its prompt is among the rows or has not come yet, and
/// then nothing moves; else it ends and what depended on its space is measured.
pub proof fn law_a_turn_lives_with_its_prompt(
    v: TranscriptView,
    rows: Seq<crate::rows::RowView>,
    distance: Px,
)
    requires
        v.own_turn is Some,
        is_length(distance),
    ensures
        ({
            let t = v.own_turn->0;
            let shown = exists|i: int|
                0 <= i < rows.len() && (#[trigger] rows[i]).turn_start && rows[i].entry_id
                    == t.message_id;
            let after = crate::scroll::reconciled(v, rows, distance);
            if shown || !t.seen_prompt {
                after == (TranscriptView {
                    own_turn: Some(TurnView { seen_prompt: t.seen_prompt || shown, ..t }),
                    ..v
                })
            } else {
                &&& after.own_turn is None
                &&& !after.turn_kick
                &&& !after.turn_ticking
                &&& after.finalize_pending
                &&& after.last_distance == distance
                &&& after.show_jump_button == (distance.bits > 0x43a0_0000)
                &&& after.pinned == v.pinned
                &&& after.pending == v.pending
                &&& after.saved == v.saved
                &&& after.chat_id == v.chat_id
            }
        }),
{
}

/// Where a turn has no space yet, the first layout gives it all that there is;
/// later its space follows what its reply still wants, and a reply that wants half
/// a pixel or less ends the turn.
pub proof fn law_a_turns_space_follows_its_reply(
    v: TranscriptView,
    rows: Seq<crate::rows::RowView>,
    m: TurnMeasure,
)
    requires
        v.own_turn is Some,
        crate::viewport::prompt_shown(rows, v.own_turn->0.message_id),
        m.laid_out,
        is_length(v.own_turn->0.runway),
        m.wanted matches Some(w) ==> is_length(w),
    ensures
        ({
            let t = v.own_turn->0;
            let (step, after) = crate::own_turn::turn_step(v, rows, m);
            if t.runway.bits == 0 {
                &&& after.own_turn matches Some(u) && u.runway == m.usable && u.held == t.held
                    && u.positioned == t.positioned
                &&& step.motion == TurnMotion::Stay
                &&& step.remeasure_last
                &&& step.notify
            } else if m.wanted matches Some(w) && w.bits <= 0x3f00_0000 {
                &&& after.own_turn is None
                &&& step.remeasure_last
                &&& step.handed_off == t.held
                &&& step.motion == TurnMotion::Stay
                &&& after.pinned == (t.held || v.pinned)
                &&& t.held && !m.reduced_motion ==> after.spring.kick
                &&& t.held ==> !after.show_jump_button
            } else {
                &&& after.own_turn matches Some(u) && u.runway == (if m.resized && m.wanted is Some {
                    m.wanted->0
                } else {
                    t.runway
                }) && u.message_id == t.message_id && u.chat_id == t.chat_id && u.held == t.held
                    && u.seen_prompt
                &&& step.remeasure_last == (m.resized && m.wanted is Some)
                &&& !step.handed_off
                &&& after.pinned == v.pinned
            }
        }),
{
    lemma_prompt_at(rows, v.own_turn->0.message_id);
}

/// A held turn that is not at its place is moved toward it frame after frame until
/// it has arrived; under reduced motion it is there at once. A turn at its place is
/// moved only where it drifted, and a turn that is let go of never.
pub proof fn law_a_held_turn_is_brought_to_its_place(
    v: TranscriptView,
    rows: Seq<crate::rows::RowView>,
    m: TurnMeasure,
)
    requires
        v.own_turn is Some,
        crate::viewport::prompt_shown(rows, v.own_turn->0.message_id),
        m.laid_out,
        is_length(v.own_turn->0.runway),
        v.own_turn->0.runway.bits > 0,
        m.wanted matches Some(w) ==> is_length(w) && w.bits > 0x3f00_0000,
    ensures
        ({
            let t = v.own_turn->0;
            let (step, after) = crate::own_turn::turn_step(v, rows, m);
            let there = after.own_turn matches Some(u) && u.positioned;
            let arrived = m.reduced_motion || (m.anchored && m.in_band) || (!m.anchored && m.near);
            if !t.held {
                step.motion == TurnMotion::Stay && there == t.positioned
            } else if !t.positioned && arrived {
                &&& there
                &&& after.turn_kick
                &&& step.notify
                &&& step.motion == (if m.anchored && !m.below && !m.reduced_motion {
                    TurnMotion::Stay
                } else {
                    TurnMotion::Land
                })
            } else if !t.positioned {
                &&& !there
                &&& step.motion == TurnMotion::Ease
                &&& after.turn_kick
                &&& after.turn_ticking
                &&& step.notify
            } else if m.drifted {
                &&& there
                &&& step.notify
                &&& step.motion == (if !m.anchored {
                    TurnMotion::Land
                } else if m.near {
                    TurnMotion::Finish
                } else {
                    TurnMotion::Ease
                })
                &&& m.anchored ==> after.turn_kick
            } else {
                there && step.motion == TurnMotion::Stay
            }
        }),
{
    lemma_prompt_at(rows, v.own_turn->0.message_id);
}

/// Before the viewport has a height a turn is only asked for again.
pub proof fn law_a_turn_waits_for_a_layout(
    v: TranscriptView,
    rows: Seq<crate::rows::RowView>,
    m: TurnMeasure,
)
    requires
        v.own_turn is Some,
        crate::viewport::prompt_shown(rows, v.own_turn->0.message_id),
        !m.laid_out,
    ensures
        ({
            let (step, after) = crate::own_turn::turn_step(v, rows, m);
            &&& step.motion == TurnMotion::Stay && step.notify && !step.remeasure_last
                && !step.handed_off
            &&& after.turn_kick
            &&& after.own_turn matches Some(u) && u.runway == v.own_turn->0.runway && u.held
                == v.own_turn->0.held && u.positioned == v.own_turn->0.positioned
            &&& after.last_distance == m.distance
        }),
{
    lemma_prompt_at(rows, v.own_turn->0.message_id);
}

/// Without a turn, or while its prompt has no row, a layout asks for nothing: only the
/// distance is known then.
pub proof fn law_without_a_prompt_nothing_moves(
    v: TranscriptView,
    rows: Seq<crate::rows::RowView>,
    m: TurnMeasure,
)
    requires
        v.own_turn matches Some(t) ==> !crate::viewport::prompt_shown(rows, t.message_id),
    ensures
        ({
            let (step, after) = crate::own_turn::turn_step(v, rows, m);
            &&& step.motion == TurnMotion::Stay && !step.remeasure_last && !step.handed_off
                && !step.notify
            &&& after.own_turn == v.own_turn && after.pinned == v.pinned
            &&& !after.turn_kick && after.last_distance == m.distance
        }),
{
    if let Some(t) = v.own_turn {
        lemma_prompt_at(rows, t.message_id);
        if let Some(i) = crate::scroll::prompt_at(rows, t.message_id) {
            assert(rows[i as int].turn_start && rows[i as int].entry_id == t.message_id);
        }
    }
}

// ---------------------------------------------------------------------------
// The spring
// ---------------------------------------------------------------------------

/// A pinned view runs its spring as long as the end is more than half a pixel
/// away; it is parked only once it had landed before, has rested and is out of
/// motion. Whatever it does, the pin and the turn stay.
pub proof fn law_the_spring_runs_to_the_end(
    v: TranscriptView,
    distance: Px,
    rested: bool,
    idle: bool,
)
    requires
        is_length(distance),
    ensures
        ({
            let (step, after) = crate::scroll::spring_step(v, distance, rested, idle);
            &&& after.pinned == v.pinned
            &&& after.own_turn == v.own_turn
            &&& !after.spring.kick
            &&& v.pinned ==> after.last_distance == distance
            &&& step == (if !v.pinned {
                SpringStep::Off
            } else if distance.bits <= 0x3f00_0000 && v.spring.settled && rested && idle {
                SpringStep::Park
            } else {
                SpringStep::Run
            })
            &&& after.spring.ticking == (step == SpringStep::Run)
            &&& v.pinned ==> after.spring.settled == (step == SpringStep::Run && distance.bits
                <= 0x3f00_0000)
        }),
{
}

// ---------------------------------------------------------------------------
// Places remembered and restored
// ---------------------------------------------------------------------------

/// Whether no two rows have the same id.
pub open spec fn ids_differ(rows: Seq<crate::rows::RowView>) -> bool {
    forall|i: int, j: int|
        0 <= i < rows.len() && 0 <= j < rows.len() && i != j ==> (#[trigger] rows[i]).id != (
        #[trigger] rows[j]).id
}

/// A chat that is left at a place and opened again is shown at that very place as
/// soon as its row is there, with the distance from the end that it had; whatever
/// was shown meanwhile.
pub proof fn law_a_chat_is_found_where_it_was_left(
    v: TranscriptView,
    rows: Seq<crate::rows::RowView>,
    at: ListOffset,
    distance: Px,
    chat: Seq<char>,
    other: Seq<char>,
    between: Seq<crate::rows::RowView>,
    there: ListOffset,
    then: Px,
    replay: TranscriptReplayState,
)
    requires
        v.wf(),
        v.chat_id == Some(chat),
        chat != other,
        !v.pinned,
        v.pending is None,
        ids_differ(rows),
        at.item_ix < rows.len() <= usize::MAX,
        is_length(distance),
    ensures
        ({
            let left = crate::sync::attached(v, rows, at, distance, Some(other));
            let back = crate::sync::attached(left, between, there, then, Some(chat));
            let (step, after) = crate::scroll::restore_step(back, rows, replay);
            &&& back.chat_id == Some(chat)
            &&& !back.pinned
            &&& step matches RestoreStep::Restored { at: shown, .. } && shown == at
            &&& after.last_distance == distance
            &&& after.show_jump_button == (distance.bits > 0x43a0_0000)
            &&& after.pending is None
            &&& after.finalize_pending
            &&& after.own_turn matches Some(u) ==> v.own_turn matches Some(t) && u.message_id
                == t.message_id && u.runway == t.runway && !u.held
        }),
{
    let left = crate::sync::attached(v, rows, at, distance, Some(other));
    let kept = crate::sync::looked_up(v, Some(other));
    let mine = crate::viewport::saved(rows, at, false, distance, v.own_turn)->0;
    assert(kept.saved.wf()) by {
        lemma_touched_wf(v.saved, other);
    }
    crate::viewport::law_insert_then_get(kept.saved, chat, mine);
    assert(left.saved == kept.saved.inserted(chat, mine));
    assert(crate::sync::remembered_for(left, Some(chat)) == Some(mine));
    lemma_position_of(rows, rows[at.item_ix as int].id, at.item_ix as int);
}

proof fn lemma_touched_wf(c: crate::viewport::CacheView, key: Seq<char>)
    requires
        c.wf(),
    ensures
        c.touched(key).wf(),
{
    crate::viewport::law_touch_keeps_contents(c, key);
}

proof fn lemma_position_of(rows: Seq<crate::rows::RowView>, id: Seq<char>, i: int)
    requires
        0 <= i < rows.len(),
        rows[i].id == id,
        forall|j: int| 0 <= j < i ==> (#[trigger] rows[j]).id != id,
    ensures
        crate::viewport::position_of(rows, id) == Some(i as nat),
    decreases rows.len(),
{
    let init = rows.drop_last();
    if i < rows.len() - 1 {
        assert(init[i] == rows[i]);
        assert forall|j: int| 0 <= j < i implies (#[trigger] init[j]).id != id by {
            assert(init[j] == rows[j]);
        }
        lemma_position_of(init, id, i);
    } else {
        assert forall|j: int| 0 <= j < init.len() implies (#[trigger] init[j]).id != id by {
            assert(init[j] == rows[j]);
        }
        lemma_no_position(init, id);
    }
}

proof fn lemma_no_position(rows: Seq<crate::rows::RowView>, id: Seq<char>)
    requires
        forall|j: int| 0 <= j < rows.len() ==> (#[trigger] rows[j]).id != id,
    ensures
        crate::viewport::position_of(rows, id) is None,
    decreases rows.len(),
{
    if rows.len() > 0 {
        let init = rows.drop_last();
        assert forall|j: int| 0 <= j < init.len() implies (#[trigger] init[j]).id != id by {
            assert(init[j] == rows[j]);
        }
        lemma_no_position(init, id);
        assert(rows[rows.len() - 1].id != id);
    }
}

/// A chat that is left while it follows its end follows it again when it is
/// opened, as does a chat that was never shown.
pub proof fn law_a_followed_chat_is_followed_again(
    v: TranscriptView,
    rows: Seq<crate::rows::RowView>,
    at: ListOffset,
    distance: Px,
    chat: Seq<char>,
    other: Seq<char>,
    between: Seq<crate::rows::RowView>,
    there: ListOffset,
    then: Px,
)
    requires
        v.wf(),
        v.chat_id == Some(chat),
        chat != other,
        v.pinned,
        v.pending is None,
        rows.len() > 0,
    ensures
        ({
            let left = crate::sync::attached(v, rows, at, distance, Some(other));
            let back = crate::sync::attached(left, between, there, then, Some(chat));
            &&& back.pinned
            &&& back.pending is None
            &&& back.last_distance.bits == 0
            &&& !back.show_jump_button
            &&& !v.saved.by_chat.contains_key(other) && !(v.own_turn matches Some(t) && t.chat_id
                == other) ==> left.pinned && left.pending is None
        }),
{
    let left = crate::sync::attached(v, rows, at, distance, Some(other));
    let kept = crate::sync::looked_up(v, Some(other));
    lemma_touched_wf(v.saved, other);
    crate::viewport::law_insert_then_get(kept.saved, chat, SavedView::FollowTail);
    assert(left.saved == kept.saved.inserted(chat, SavedView::FollowTail));
}

/// Showing another chat ends what belonged to the last: a turn stays only where it
/// was sent to the chat, which then owns the viewport; the spring rests, and
/// nothing of an earlier viewport is measured any more.
pub proof fn law_another_chat_starts_afresh(
    v: TranscriptView,
    rows: Seq<crate::rows::RowView>,
    at: ListOffset,
    distance: Px,
    chat: Option<Seq<char>>,
)
    ensures
        ({
            let after = crate::sync::attached(v, rows, at, distance, chat);
            let sent_here = v.own_turn matches Some(t) && chat == Some(t.chat_id);
            &&& after.chat_id == chat
            &&& after.place == v.place
            &&& after.generation == v.generation.wrapping_add(1)
            &&& !after.finalize_pending
            &&& !after.spring.kick && !after.spring.ticking && !after.spring.settled
            &&& after.own_turn == (if sent_here {
                v.own_turn
            } else {
                None
            })
            &&& sent_here ==> !after.pinned && after.pending is None && after.last_distance.bits
                == 0 && !after.show_jump_button
            &&& !sent_here ==> !after.turn_kick && !after.turn_ticking && after.pinned == (
            after.pending is None)
            &&& chat is None && !sent_here ==> after.pinned
        }),
{
}

/// A viewport that waits is only given up where the chat is known to be empty, or
/// restored; until then nothing changes.
pub proof fn law_a_viewport_waits_for_its_row(
    v: TranscriptView,
    rows: Seq<crate::rows::RowView>,
    replay: TranscriptReplayState,
)
    requires
        v.pending is Some,
    ensures
        ({
            let (step, after) = crate::scroll::restore_step(v, rows, replay);
            &&& step is Waiting ==> after == v
            &&& !(step is Waiting) ==> after.pending is None
            &&& replay == TranscriptReplayState::Populated && v.pending->0 is Anchored && rows.len() > 0
                ==> step is Restored
            &&& replay == TranscriptReplayState::Empty ==> !(step is Waiting)
            &&& step is Emptied ==> replay == TranscriptReplayState::Empty && step == (
            RestoreStep::Emptied { scroll_to_end: v.own_turn is None })
            &&& step == (RestoreStep::Emptied { scroll_to_end: true }) ==> after.pinned
                && !after.show_jump_button && after.last_distance.bits == 0
            &&& step == (RestoreStep::Emptied { scroll_to_end: false }) ==> after.pinned == v.pinned
                && after.own_turn == v.own_turn
            &&& step matches RestoreStep::Restored { remeasure_last, .. } ==> remeasure_last == (
            after.own_turn is Some) && after.turn_kick == (after.own_turn is Some)
                && after.pinned == v.pinned
        }),
{
    if let Some(SavedView::Anchored { anchor, .. }) = v.pending {
    }
}

// ---------------------------------------------------------------------------
// Rows that change
// ---------------------------------------------------------------------------

/// Changed rows move a pinned view to its end, one way or another: at once where
/// it is the first rows, under reduced motion, or where a reply streams at the end;
/// and they never move a view that is not pinned, unless its place is restored or
/// its first rows are to be shown from their end.
pub proof fn law_only_a_pinned_view_follows(
    v: TranscriptView,
    rows: Seq<crate::rows::RowView>,
    old_rows: nat,
    replay: TranscriptReplayState,
    distance: Px,
    live_following: bool,
    reduced_motion: bool,
    glued: bool,
)
    requires
        v.pending is None,
    ensures
        ({
            let (step, after) = crate::sync::changed_step(
                v,
                rows,
                old_rows,
                replay,
                distance,
                live_following,
                reduced_motion,
                glued,
            );
            &&& step.restore is Waiting
            &&& after.pinned == v.pinned
            &&& step.notify
            &&& step.follow == (if !v.pinned {
                FollowStep::Stay
            } else if live_following {
                FollowStep::Anchor
            } else if reduced_motion || old_rows == 0 {
                FollowStep::End
            } else if glued {
                FollowStep::Nudge
            } else {
                FollowStep::Glide
            })
            &&& step.follow is Stay ==> after.spring == v.spring
            &&& step.follow is Anchor ==> !after.spring.kick && !after.spring.ticking
                && after.last_distance.bits == 0
            &&& step.follow is End || step.follow is Nudge || step.follow is Glide
                ==> after.spring.kick
            &&& step.land_end == (v.land_end_pending && rows.len() > 0)
            &&& after.land_end_pending == (v.land_end_pending && rows.len() == 0)
            &&& v.own_turn is Some && after.own_turn is Some ==> after.turn_kick
                && step.remeasure_last == (rows.len() > 0) && !step.retired
            &&& step.retired == (v.own_turn is Some && after.own_turn is None)
            &&& after.chat_id == v.chat_id && after.saved == v.saved
        }),
{
}

/// Rows that did not change move nothing.
pub proof fn law_unchanged_rows_move_nothing(
    v: TranscriptView,
    rows: Seq<crate::rows::RowView>,
    replay: TranscriptReplayState,
    distance: Px,
)
    requires
        v.pending is None,
        v.own_turn is None,
    ensures
        ({
            let (step, after) = crate::sync::unchanged_step(v, rows, replay, distance);
            after == v && step.follow is Stay && step.restore is Waiting && !step.notify
                && !step.land_end && !step.remeasure_last && step.remeasure_old_last is None
                && !step.retired
        }),
{
}

} // verus!
