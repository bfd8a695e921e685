//! The turn just sent: space is kept below its prompt for the reply, the
//! prompt is glided to the top and held there, and once the reply has outgrown
//! the space the bottom pin takes over.
use vstd::prelude::*;

use crate::rows::Row;
use crate::scroll::Transcript;
use crate::viewport::{OwnTurnAnchor, Px};

verus! {

/// What was measured after a layout, with the list's offset concrete.
#[derive(Clone, Copy, PartialEq, Eq, Structural, Debug)]
pub struct TurnMeasure {
    /// The distance from the end.
    pub distance: Px,
    /// The viewport has a height.
    pub laid_out: bool,
    /// All the space that the viewport can give a reply.
    pub usable: Px,
    /// The space that the reply still wants, where the turn is measured, never
    /// so little that the end would rise through the view.
    pub wanted: Option<Px>,
    /// That is more than half a pixel off the space it has.
    pub resized: bool,
    /// The prompt's row is measured.
    pub anchored: bool,
    /// The prompt is off its place by more than it may be.
    pub drifted: bool,
    /// What is left to go is within a pixel.
    pub near: bool,
    /// The prompt is within a pixel above its place, or rests just below it.
    pub in_band: bool,
    /// The prompt is more than half a pixel below its place.
    pub below: bool,
    pub reduced_motion: bool,
}

/// How the list is moved.
#[derive(Clone, Copy, PartialEq, Eq, Structural, Debug)]
pub enum TurnMotion {
    Stay,
    /// By a part of what is left to go.
    Ease,
    /// By all that is left to go.
    Finish,
    /// The prompt's row to its place.
    Land,
}

/// What a step asks for.
#[derive(Clone, Copy, PartialEq, Eq, Structural, Debug)]
pub struct TurnStep {
    pub motion: TurnMotion,
    pub remeasure_last: bool,
    /// The reply has outgrown its space while the prompt was held.
    pub handed_off: bool,
    pub notify: bool,
}

/// A step that asks for nothing.
pub open spec fn quiet() -> TurnStep {
    TurnStep {
        motion: TurnMotion::Stay,
        remeasure_last: false,
        handed_off: false,
        notify: false,
    }
}

/// The view with another turn.
pub open spec fn with_turn(
    v: crate::scroll::TranscriptView,
    t: crate::viewport::TurnView,
) -> crate::scroll::TranscriptView {
    crate::scroll::TranscriptView { own_turn: Some(t), ..v }
}

/// The prompt is glided to its place, and once there held. A held prompt that
/// drifted is eased back, or put back where it cannot be measured.
pub open spec fn hold_step(
    v: crate::scroll::TranscriptView,
    t: crate::viewport::TurnView,
    m: TurnMeasure,
) -> (TurnMotion, bool, crate::scroll::TranscriptView) {
    if !t.held {
        (TurnMotion::Stay, false, v)
    } else if t.positioned {
        if !m.drifted {
            (
                TurnMotion::Stay,
                false,
                crate::scroll::TranscriptView { turn_ticking: false, ..v },
            )
        } else if m.anchored {
            (
                if m.near {
                    TurnMotion::Finish
                } else {
                    TurnMotion::Ease
                },
                true,
                crate::scroll::TranscriptView { turn_ticking: !m.near, turn_kick: true, ..v },
            )
        } else {
            (TurnMotion::Land, true, crate::scroll::TranscriptView { turn_ticking: false, ..v })
        }
    } else {
        let arrived = m.reduced_motion || if m.anchored {
            m.in_band
        } else {
            m.near
        };
        if arrived {
            (
                if !m.reduced_motion && m.anchored && !m.below {
                    TurnMotion::Stay
                } else {
                    TurnMotion::Land
                },
                true,
                crate::scroll::TranscriptView {
                    turn_ticking: false,
                    turn_kick: true,
                    ..with_turn(v, crate::viewport::TurnView { positioned: true, ..t })
                },
            )
        } else {
            (
                TurnMotion::Ease,
                true,
                crate::scroll::TranscriptView { turn_ticking: true, turn_kick: true, ..v },
            )
        }
    }
}

/// One step after a layout. A turn without space gets all that there is; a turn
/// whose reply wants none any more ends; else its space follows the reply, and
/// the prompt is moved or held.
pub open spec fn turn_step(
    v: crate::scroll::TranscriptView,
    rows: Seq<crate::rows::RowView>,
    m: TurnMeasure,
) -> (TurnStep, crate::scroll::TranscriptView) {
    let v1 = crate::scroll::TranscriptView { turn_kick: false, last_distance: m.distance, ..v };
    match v1.own_turn {
        None => (quiet(), v1),
        Some(t0) => if crate::scroll::prompt_at(rows, t0.message_id) is None {
            (quiet(), v1)
        } else {
            let t = crate::viewport::TurnView { seen_prompt: true, ..t0 };
            let v2 = with_turn(v1, t);
            if !m.laid_out {
                (
                    TurnStep { notify: true, ..quiet() },
                    crate::scroll::TranscriptView { turn_kick: true, ..v2 },
                )
            } else if t.runway.at_most(crate::viewport::no_px()) {
                (
                    TurnStep { remeasure_last: true, notify: true, ..quiet() },
                    with_turn(
                        v2,
                        crate::viewport::TurnView { runway: m.usable, ..t },
                    ).last_row_remeasured(rows.len()),
                )
            } else {
                match m.wanted {
                    Some(w) if w.at_most(crate::scroll::px(crate::scroll::ARRIVED_BITS)) => {
                        let gone = crate::scroll::TranscriptView {
                            own_turn: None,
                            ..v2
                        }.last_row_remeasured(rows.len());
                        (
                            TurnStep {
                                motion: TurnMotion::Stay,
                                remeasure_last: true,
                                handed_off: t.held,
                                notify: true,
                            },
                            if !t.held {
                                gone
                            } else if m.reduced_motion {
                                gone.pin_engaged()
                            } else {
                                gone.pin_engaged().spring_woken()
                            },
                        )
                    },
                    Some(w) if m.resized => {
                        let t2 = crate::viewport::TurnView { runway: w, ..t };
                        let v3 = with_turn(v2, t2).last_row_remeasured(rows.len());
                        let (motion, notify, v4) = hold_step(v3, t2, m);
                        (
                            TurnStep {
                                motion,
                                remeasure_last: true,
                                handed_off: false,
                                notify: true,
                            },
                            v4,
                        )
                    },
                    _ => {
                        let (motion, notify, v4) = hold_step(v2, t, m);
                        (TurnStep { motion, notify, ..quiet() }, v4)
                    },
                }
            }
        },
    }
}

fn quiet_step() -> (r: TurnStep)
    ensures
        r == quiet(),
{
    TurnStep {
        motion: TurnMotion::Stay,
        remeasure_last: false,
        handed_off: false,
        notify: false,
    }
}

impl Transcript {
    /// Moves or holds the prompt of the turn.
    fn step_hold(&mut self, m: TurnMeasure) -> (r: (TurnMotion, bool))
        requires
            old(self)@.own_turn is Some,
        ensures
            (r.0, r.1, final(self)@) == hold_step(old(self)@, old(self)@.own_turn->0, m),
    {
        let mut turn: Option<OwnTurnAnchor> = None;
        std::mem::swap(&mut turn, &mut self.own_turn);
        if let Some(t) = turn {
            let mut t = t;
            let held = t.held;
            let positioned = t.positioned;
            if !held {
                self.own_turn = Some(t);
                return (TurnMotion::Stay, false);
            }
            if positioned {
                self.own_turn = Some(t);
                if !m.drifted {
                    self.turn_ticking = false;
                    return (TurnMotion::Stay, false);
                }
                if m.anchored {
                    self.turn_ticking = !m.near;
                    self.turn_kick = true;
                    if m.near {
                        return (TurnMotion::Finish, true);
                    }
                    return (TurnMotion::Ease, true);
                }
                self.turn_ticking = false;
                return (TurnMotion::Land, true);
            }
            let arrived = m.reduced_motion || if m.anchored {
                m.in_band
            } else {
                m.near
            };
            self.turn_kick = true;
            if !arrived {
                self.own_turn = Some(t);
                self.turn_ticking = true;
                return (TurnMotion::Ease, true);
            }
            t.positioned = true;
            self.own_turn = Some(t);
            self.turn_ticking = false;
            if !m.reduced_motion && m.anchored && !m.below {
                return (TurnMotion::Stay, true);
            }
            return (TurnMotion::Land, true);
        }
        (TurnMotion::Stay, false)
    }

    /// Counts a measurement of the last row.
    fn count_layout(&mut self, rows: usize)
        ensures
            final(self)@ == old(self)@.last_row_remeasured(rows as nat),
    {
        if rows > 0 {
            self.layout_revision = self.layout_revision.wrapping_add(1);
        }
    }

    /// Puts back a turn with its space.
    fn set_runway(&mut self, runway: Px)
        requires
            old(self)@.own_turn is Some,
        ensures
            final(self)@ == with_turn(
                old(self)@,
                crate::viewport::TurnView { runway, ..old(self)@.own_turn->0 },
            ),
    {
        let mut turn: Option<OwnTurnAnchor> = None;
        std::mem::swap(&mut turn, &mut self.own_turn);
        if let Some(t) = turn {
            let mut t = t;
            t.runway = runway;
            self.own_turn = Some(t);
        }
    }

    /// Notes that the turn's prompt has shown up, and returns the space it has
    /// and whether it is held.
    fn see_prompt(&mut self) -> (r: (Px, bool))
        requires
            old(self)@.own_turn is Some,
        ensures
            final(self)@ == with_turn(
                old(self)@,
                crate::viewport::TurnView { seen_prompt: true, ..old(self)@.own_turn->0 },
            ),
            r == (old(self)@.own_turn->0.runway, old(self)@.own_turn->0.held),
    {
        let mut turn: Option<OwnTurnAnchor> = None;
        std::mem::swap(&mut turn, &mut self.own_turn);
        let mut seen = (Px { bits: 0 }, false);
        if let Some(t) = turn {
            let mut t = t;
            t.seen_prompt = true;
            seen = (t.runway, t.held);
            self.own_turn = Some(t);
        }
        seen
    }

    /// One step of the turn after a layout.
    pub fn step_own_turn(&mut self, rows: &Vec<Row>, m: TurnMeasure) -> (r: TurnStep)
        ensures
            (r, final(self)@) == turn_step(old(self)@, crate::rows::row_views(rows@), m),
    {
        assert(crate::rows::row_views(rows@).len() == rows@.len());
        self.turn_kick = false;
        self.last_distance = m.distance;
        if self.own_turn_anchor_ix(rows).is_none() {
            return quiet_step();
        }
        let (runway, held) = self.see_prompt();
        if !m.laid_out {
            self.turn_kick = true;
            return TurnStep {
                motion: TurnMotion::Stay,
                remeasure_last: false,
                handed_off: false,
                notify: true,
            };
        }
        if runway.le(Px { bits: 0 }) {
            self.set_runway(m.usable);
            self.count_layout(rows.len());
            return TurnStep {
                motion: TurnMotion::Stay,
                remeasure_last: true,
                handed_off: false,
                notify: true,
            };
        }
        let mut remeasure = false;
        if let Some(w) = m.wanted {
            if w.le(Px { bits: crate::scroll::ARRIVED_BITS }) {
                self.own_turn = None;
                self.count_layout(rows.len());
                if held {
                    self.engage_pin(m.reduced_motion);
                }
                return TurnStep {
                    motion: TurnMotion::Stay,
                    remeasure_last: true,
                    handed_off: held,
                    notify: true,
                };
            }
            if m.resized {
                self.set_runway(w);
                self.count_layout(rows.len());
                remeasure = true;
            }
        }
        let (motion, notify) = self.step_hold(m);
        TurnStep { motion, remeasure_last: remeasure, handed_off: false, notify: notify || remeasure }
    }
}

/// A turn that is let go of is not moved.
pub proof fn law_released_turn_stays(
    v: crate::scroll::TranscriptView,
    rows: Seq<crate::rows::RowView>,
    m: TurnMeasure,
)
    requires
        !v.held(),
    ensures
        turn_step(v, rows, m).0.motion == TurnMotion::Stay,
        !turn_step(v, rows, m).0.handed_off,
        turn_step(v, rows, m).1.pinned == v.pinned,
{
}

/// The step pins to the end only where a held turn has run out of space, and
/// then the turn is over.
pub proof fn law_handoff_ends_the_turn(
    v: crate::scroll::TranscriptView,
    rows: Seq<crate::rows::RowView>,
    m: TurnMeasure,
)
    ensures
        turn_step(v, rows, m).0.handed_off ==> v.held() && turn_step(v, rows, m).1.own_turn is None
            && turn_step(v, rows, m).1.pinned,
        turn_step(v, rows, m).1.pinned && !v.pinned ==> turn_step(v, rows, m).0.handed_off,
{
}

/// A turn whose prompt has not shown up yet is only waited for.
pub proof fn law_turn_waits_for_its_prompt(
    v: crate::scroll::TranscriptView,
    rows: Seq<crate::rows::RowView>,
    m: TurnMeasure,
)
    requires
        v.own_turn is Some,
        crate::scroll::prompt_at(rows, v.own_turn->0.message_id) is None,
    ensures
        turn_step(v, rows, m).0 == quiet(),
        turn_step(v, rows, m).1.own_turn == v.own_turn,
{
}

} // verus!
