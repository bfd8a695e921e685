//! Who moves the transcript's viewport: the bottom pin, the hold of the turn
//! just sent, a viewport being restored, or the user.
//!
//! The list itself is measured and moved elsewhere. Each step here takes what
//! was measured, decides, and says what is to be done with the list.

use vstd::prelude::*;

use crate::layout::HALF_PIXEL;
use crate::rows::Row;
use crate::viewport::{
    ListOffset, OwnTurnAnchor, Px, SavedViewport, SavedViewportCache, TranscriptReplayState,
};

verus! {

/// 70 px: within this distance of the end a scroll toward it pins again.
pub const STICK_THRESHOLD_BITS: u32 = 0x428c_0000;

/// 2 px: this near to the end is at the end.
pub const AT_BOTTOM_BITS: u32 = 0x4000_0000;

/// 320 px: beyond this distance the button back to the end shows.
pub const SCROLL_BUTTON_THRESHOLD_BITS: u32 = 0x43a0_0000;

/// Half a pixel: this near the spring has arrived.
pub const ARRIVED_BITS: u32 = 0x3f00_0000;

/// The length of these bits.
pub open spec fn px(bits: u32) -> Px {
    Px { bits }
}

/// Whether a user's scroll pins to the end again: within the band, and moving
/// toward the end. A notch away from the end never does.
pub open spec fn resticks(distance: Px, previous: Px) -> bool {
    distance.at_most(px(STICK_THRESHOLD_BITS)) && distance.less(previous)
}

/// Whether a length is at the end.
pub open spec fn at_bottom(distance: Px) -> bool {
    distance.at_most(px(AT_BOTTOM_BITS))
}

/// Whether the button back to the end is called for.
pub open spec fn far_off(distance: Px) -> bool {
    px(SCROLL_BUTTON_THRESHOLD_BITS).less(distance)
}

fn is_far_off(distance: Px) -> (r: bool)
    ensures
        r == far_off(distance),
{
    Px { bits: SCROLL_BUTTON_THRESHOLD_BITS }.lt(distance)
}

/// Whether a streaming reply that rests at the end keeps the end in place as
/// it grows.
pub fn should_anchor_live_stream(pinned: bool, distance_from_bottom: Px, streaming: bool) -> (r:
    bool)
    ensures
        r == (pinned && streaming && at_bottom(distance_from_bottom)),
{
    pinned && streaming && distance_from_bottom.le(Px { bits: AT_BOTTOM_BITS })
}

/// The spring's clock: whether a frame is called for, whether a frame came
/// before, and whether it has landed.
#[derive(Clone, Copy, PartialEq, Eq, Structural, Debug)]
pub struct SpringClock {
    pub kick: bool,
    pub ticking: bool,
    pub settled: bool,
}

/// A spring at rest.
pub open spec fn parked() -> SpringClock {
    SpringClock { kick: false, ticking: false, settled: false }
}

fn parked_spring() -> (r: SpringClock)
    ensures
        r == parked(),
{
    SpringClock { kick: false, ticking: false, settled: false }
}

/// Where a transcript stands: what it is for, and the room it has.
pub struct Place {
    /// The one document shown, where it is no chat.
    pub doc_override: Option<String>,
    /// Whether that document still grows.
    pub doc_live: bool,
    /// Whether the rail of messages has room.
    pub rail_enabled: bool,
    /// The height of what covers the end, in 64ths of a pixel.
    pub bottom_clearance: i32,
}

/// What a [`Place`] holds.
#[verifier::ext_equal]
pub struct PlaceView {
    pub doc_override: Option<Seq<char>>,
    pub doc_live: bool,
    pub rail_enabled: bool,
    pub bottom_clearance: i32,
}

impl View for Place {
    type V = PlaceView;

    open spec fn view(&self) -> PlaceView {
        PlaceView {
            doc_override: crate::markdown::opt_text(self.doc_override),
            doc_live: self.doc_live,
            rail_enabled: self.rail_enabled,
            bottom_clearance: self.bottom_clearance,
        }
    }
}

/// A transcript: which chat it shows, and who owns its viewport.
pub struct Transcript {
    pub chat_id: Option<String>,
    pub place: Place,
    pub pinned: bool,
    pub own_turn: Option<OwnTurnAnchor>,
    /// The turn wants a measurement after the next layout.
    pub turn_kick: bool,
    /// A frame of the turn's glide came before.
    pub turn_ticking: bool,
    pub spring: SpringClock,
    pub show_jump_button: bool,
    /// The distance from the end when it was last measured.
    pub last_distance: Px,
    /// A viewport that waits for its chat's history.
    pub pending: Option<SavedViewport>,
    /// Counts the chats shown.
    pub generation: u64,
    /// The restored viewport wants its distance measured.
    pub finalize_pending: bool,
    /// Counts the layouts asked for.
    pub layout_revision: u64,
    /// The first rows are to be shown from their end.
    pub land_end_pending: bool,
    pub saved: SavedViewportCache,
}

/// What a [`Transcript`] holds.
#[verifier::ext_equal]
pub struct TranscriptView {
    pub chat_id: Option<Seq<char>>,
    pub place: PlaceView,
    pub pinned: bool,
    pub own_turn: Option<crate::viewport::TurnView>,
    pub turn_kick: bool,
    pub turn_ticking: bool,
    pub spring: SpringClock,
    pub show_jump_button: bool,
    pub last_distance: Px,
    pub pending: Option<crate::viewport::SavedView>,
    pub generation: u64,
    pub finalize_pending: bool,
    pub layout_revision: u64,
    pub land_end_pending: bool,
    pub saved: crate::viewport::CacheView,
}

impl View for Transcript {
    type V = TranscriptView;

    open spec fn view(&self) -> TranscriptView {
        TranscriptView {
            chat_id: crate::markdown::opt_text(self.chat_id),
            place: self.place@,
            pinned: self.pinned,
            own_turn: crate::viewport::opt_turn(self.own_turn),
            turn_kick: self.turn_kick,
            turn_ticking: self.turn_ticking,
            spring: self.spring,
            show_jump_button: self.show_jump_button,
            last_distance: self.last_distance,
            pending: crate::viewport::opt_saved(self.pending),
            generation: self.generation,
            finalize_pending: self.finalize_pending,
            layout_revision: self.layout_revision,
            land_end_pending: self.land_end_pending,
            saved: self.saved@,
        }
    }
}

/// The first row of the prompt of this entry.
pub open spec fn prompt_at(
    rows: Seq<crate::rows::RowView>,
    message_id: Seq<char>,
) -> Option<nat>
    decreases rows.len(),
{
    if rows.len() == 0 {
        None
    } else {
        match prompt_at(rows.drop_last(), message_id) {
            Some(i) => Some(i),
            None => if rows.last().turn_start && rows.last().entry_id == message_id {
                Some((rows.len() - 1) as nat)
            } else {
                None
            },
        }
    }
}

/// A transcript that has shown nothing yet.
pub open spec fn opened(doc: Option<Seq<char>>, follow: bool) -> TranscriptView {
    TranscriptView {
        chat_id: doc,
        place: PlaceView {
            doc_override: doc,
            doc_live: doc is Some && follow,
            rail_enabled: doc is None,
            bottom_clearance: 0,
        },
        pinned: follow,
        own_turn: None,
        turn_kick: false,
        turn_ticking: false,
        spring: parked(),
        show_jump_button: false,
        last_distance: crate::viewport::no_px(),
        pending: None,
        generation: 0,
        finalize_pending: false,
        layout_revision: 0,
        land_end_pending: doc is Some && !follow,
        saved: crate::viewport::CacheView { by_chat: Map::empty(), recency: Seq::empty() },
    }
}

/// Whether a height differs from the one known by more than half a pixel.
pub open spec fn clearance_moved(known: int, height: int) -> bool {
    known - height > crate::layout::HALF_PIXEL || height - known > crate::layout::HALF_PIXEL
}

impl TranscriptView {
    /// The cache of viewports is well formed.
    pub open spec fn wf(self) -> bool {
        self.saved.wf()
    }

    /// Whether the turn's prompt is glided to or held.
    pub open spec fn held(self) -> bool {
        self.own_turn matches Some(t) && t.held
    }

    /// A viewport that waits is given up; its chat counts as following its end
    /// until it is left again.
    pub open spec fn discarded(self) -> TranscriptView {
        match (self.pending, self.chat_id) {
            (Some(_), Some(chat)) => TranscriptView {
                pending: None,
                saved: self.saved.inserted(chat, crate::viewport::SavedView::FollowTail),
                ..self
            },
            (Some(_), None) => TranscriptView { pending: None, ..self },
            (None, _) => self,
        }
    }

    /// The turn stands back; the space kept for its reply stays.
    pub open spec fn hold_released(self) -> TranscriptView {
        TranscriptView {
            own_turn: match self.own_turn {
                Some(t) => Some(crate::viewport::TurnView { held: false, ..t }),
                None => None,
            },
            turn_ticking: false,
            ..self
        }
    }

    /// The turn glides to its prompt again.
    pub open spec fn hold_armed(self) -> TranscriptView {
        match self.own_turn {
            Some(t) => TranscriptView {
                own_turn: Some(
                    crate::viewport::TurnView { held: true, positioned: false, ..t },
                ),
                turn_ticking: false,
                turn_kick: true,
                ..self
            },
            None => self,
        }
    }

    /// The chat that is left is remembered, unless a viewport of it still waits
    /// or it shows no rows.
    pub open spec fn remembered(
        self,
        rows: Seq<crate::rows::RowView>,
        at: ListOffset,
        distance: Px,
    ) -> TranscriptView {
        match (self.pending, self.chat_id) {
            (None, Some(chat)) => {
                let shown = if self.pinned {
                    crate::viewport::no_px()
                } else {
                    distance
                };
                match crate::viewport::saved(rows, at, self.pinned, shown, self.own_turn) {
                    Some(v) => TranscriptView { saved: self.saved.inserted(chat, v), ..self },
                    None => self,
                }
            },
            _ => self,
        }
    }

    /// The last row wants measuring, where there is one.
    pub open spec fn last_row_remeasured(self, rows: nat) -> TranscriptView {
        if rows > 0 {
            TranscriptView { layout_revision: self.layout_revision.wrapping_add(1), ..self }
        } else {
            self
        }
    }

    /// The end is covered up to this height.
    pub open spec fn covered(self, height: i32) -> TranscriptView {
        TranscriptView {
            place: PlaceView { bottom_clearance: height, ..self.place },
            ..self
        }
    }

    /// A turn's space wants measuring.
    pub open spec fn turn_measured(self, rows: nat) -> TranscriptView {
        if self.own_turn is Some {
            TranscriptView { turn_kick: true, ..self.last_row_remeasured(rows) }
        } else {
            self
        }
    }

    /// The spring is called for.
    pub open spec fn spring_woken(self) -> TranscriptView {
        TranscriptView { spring: SpringClock { kick: true, settled: false, ..self.spring }, ..self }
    }

    /// Pinned to the end.
    pub open spec fn pin_engaged(self) -> TranscriptView {
        TranscriptView { pinned: true, show_jump_button: false, ..self }
    }
}

/// What restoring a viewport asks of the list.
#[derive(Clone, Copy, PartialEq, Eq, Structural, Debug)]
pub enum RestoreStep {
    /// Nothing: there is no viewport to restore, or its row has not arrived.
    Waiting,
    /// Show this place; measure the last row anew where a turn came back.
    Restored { at: ListOffset, remeasure_last: bool },
    /// The chat is empty: show the end, unless a turn owns the viewport.
    Emptied { scroll_to_end: bool },
}

/// How a waiting viewport fares with these rows.
pub open spec fn restore_step(
    v: TranscriptView,
    rows: Seq<crate::rows::RowView>,
    replay: TranscriptReplayState,
) -> (RestoreStep, TranscriptView) {
    match v.pending {
        None => (RestoreStep::Waiting, v),
        Some(p) => {
            match crate::viewport::restored(
                p,
                rows,
                replay == TranscriptReplayState::Populated,
            ) {
                Some(r) if rows.len() > 0 => {
                    let back = TranscriptView {
                        pending: None,
                        own_turn: r.own_turn,
                        turn_kick: r.own_turn is Some,
                        turn_ticking: false,
                        last_distance: r.distance_from_bottom,
                        show_jump_button: far_off(r.distance_from_bottom),
                        finalize_pending: true,
                        ..v
                    };
                    (
                        RestoreStep::Restored {
                            at: r.offset,
                            remeasure_last: r.own_turn is Some,
                        },
                        if r.own_turn is Some {
                            back.last_row_remeasured(rows.len())
                        } else {
                            back
                        },
                    )
                },
                _ => if replay != TranscriptReplayState::Empty {
                    (RestoreStep::Waiting, v)
                } else {
                    let given_up = v.discarded();
                    if v.own_turn is None {
                        (
                            RestoreStep::Emptied { scroll_to_end: true },
                            TranscriptView {
                                pinned: true,
                                last_distance: crate::viewport::no_px(),
                                show_jump_button: false,
                                ..given_up
                            },
                        )
                    } else {
                        (RestoreStep::Emptied { scroll_to_end: false }, given_up)
                    }
                },
            }
        },
    }
}

/// What a user's scroll asks of the list.
#[derive(Clone, Copy, PartialEq, Eq, Structural, Debug)]
pub enum WheelStep {
    /// Nothing.
    Stay,
    /// The spring is dropped.
    ResetSpring,
    /// The held prompt is shown at its place again, where it has a row, and
    /// the distance measured once more.
    Reassert(Option<usize>),
}

/// `v` with the spring's last frame forgotten.
pub open spec fn spring_stopped(v: TranscriptView) -> TranscriptView {
    TranscriptView { spring: SpringClock { ticking: false, ..v.spring }, ..v }
}

/// A user's scroll while a turn has its space: moving away lets go of the
/// prompt, returning takes hold of it again, and a held prompt stays where it
/// is. The pin keeps out of it.
pub open spec fn turn_wheel(
    v: TranscriptView,
    rows: Seq<crate::rows::RowView>,
    away: bool,
    back: bool,
) -> (WheelStep, TranscriptView) {
    if away {
        (
            WheelStep::ResetSpring,
            spring_stopped(TranscriptView { pinned: false, ..v.hold_released() }),
        )
    } else if !v.held() && back {
        (WheelStep::Stay, v.hold_armed())
    } else if v.held() {
        (
            WheelStep::Reassert(
                match prompt_at(rows, v.own_turn->0.message_id) {
                    Some(i) => Some(i as usize),
                    None => None,
                },
            ),
            v,
        )
    } else {
        (WheelStep::Stay, v)
    }
}

/// A user's scroll: moving away breaks the pin, returning engages it.
pub open spec fn free_wheel(v: TranscriptView, away: bool, back: bool) -> (WheelStep, TranscriptView) {
    if away {
        (WheelStep::ResetSpring, spring_stopped(TranscriptView { pinned: false, ..v }))
    } else if back && !v.pinned {
        (WheelStep::Stay, TranscriptView { pinned: true, ..v }.spring_woken())
    } else {
        (WheelStep::Stay, v)
    }
}

/// A user's scroll to this distance from the end; `receded` says that it is
/// more than a pixel farther than before. It gives up a viewport that waits.
pub open spec fn wheel_step(
    v: TranscriptView,
    rows: Seq<crate::rows::RowView>,
    distance: Px,
    receded: bool,
) -> (WheelStep, TranscriptView) {
    let v0 = v.discarded();
    let away = receded && px(AT_BOTTOM_BITS).less(distance);
    let back = at_bottom(distance) || resticks(distance, v0.last_distance);
    let v1 = TranscriptView { last_distance: distance, ..v0 };
    if v1.own_turn is Some {
        let (step, v2) = turn_wheel(v1, rows, away, back);
        (step, TranscriptView { show_jump_button: far_off(distance) && !v2.held(), ..v2 })
    } else {
        let (step, v2) = free_wheel(v1, away, back);
        (step, TranscriptView { show_jump_button: far_off(distance) && !v2.pinned, ..v2 })
    }
}

/// The row of a held prompt, as [`prompt_at`] finds it.
pub fn find_prompt(rows: &Vec<Row>, message_id: &String) -> (r: Option<usize>)
    ensures
        match r {
            Some(i) => i < rows@.len() && prompt_at(
                crate::rows::row_views(rows@),
                message_id@,
            ) == Some(i as nat),
            None => prompt_at(crate::rows::row_views(rows@), message_id@) is None,
        },
{
    let ghost views = crate::rows::row_views(rows@);
    let mut hit: Option<usize> = None;
    let mut i: usize = 0;
    while i < rows.len()
        invariant
            i <= rows@.len(),
            views == crate::rows::row_views(rows@),
            match hit {
                Some(h) => h < i && prompt_at(views.take(i as int), message_id@) == Some(h as nat),
                None => prompt_at(views.take(i as int), message_id@) is None,
            },
        decreases rows.len() - i,
    {
        assert(views.take(i + 1).drop_last() =~= views.take(i as int));
        assert(views.take(i + 1).last() == rows@[i as int]@);
        if hit.is_none() && rows[i].turn_start && rows[i].entry_id == *message_id {
            hit = Some(i);
        }
        i = i + 1;
    }
    assert(views.take(i as int) =~= views);
    hit
}

impl Transcript {
    /// The transcript of the chats: it opens at the end and follows it.
    pub fn new() -> (r: Self)
        ensures
            r@.wf(),
            r@ == opened(None, true),
    {
        Self::build(None, true)
    }

    /// The transcript of one document, which only shows what lands there. It
    /// follows a document that still grows, and shows a finished one from its
    /// end once.
    pub fn for_doc(doc_id: String, follow: bool) -> (r: Self)
        ensures
            r@.wf(),
            r@ == opened(Some(doc_id@), follow),
    {
        Self::build(Some(doc_id), follow)
    }

    fn build(doc: Option<String>, follow: bool) -> (r: Self)
        ensures
            r@.wf(),
            r@ == opened(crate::markdown::opt_text(doc), follow),
    {
        let shown = crate::markdown::copy_opt(&doc);
        let in_pane = doc.is_some();
        Transcript {
            chat_id: shown,
            place: Place {
                doc_override: doc,
                doc_live: in_pane && follow,
                rail_enabled: !in_pane,
                bottom_clearance: 0,
            },
            pinned: follow,
            own_turn: None,
            turn_kick: false,
            turn_ticking: false,
            spring: parked_spring(),
            show_jump_button: false,
            last_distance: Px { bits: 0 },
            pending: None,
            generation: 0,
            finalize_pending: false,
            layout_revision: 0,
            land_end_pending: in_pane && !follow,
            saved: SavedViewportCache::default(),
        }
    }

    /// Gives the rail of messages its room or takes it; says whether that
    /// changed anything.
    pub fn set_rail_enabled(&mut self, enabled: bool) -> (r: bool)
        ensures
            r == (old(self)@.place.rail_enabled != enabled),
            final(self)@ == (TranscriptView {
                place: PlaceView { rail_enabled: enabled, ..old(self)@.place },
                ..old(self)@
            }),
    {
        let changed = self.place.rail_enabled != enabled;
        self.place.rail_enabled = enabled;
        changed
    }

    /// Whether the rail of messages has room.
    pub fn rail_enabled(&self) -> (r: bool)
        ensures
            r == self@.place.rail_enabled,
    {
        self.place.rail_enabled
    }

    /// Whether a user's scroll pins to the end again.
    pub fn should_restick(distance: Px, previous: Px) -> (r: bool)
        ensures
            r == resticks(distance, previous),
    {
        distance.le(Px { bits: STICK_THRESHOLD_BITS }) && distance.lt(previous)
    }

    /// Remembers the chat that is left. Rows may be nothing but echoes while an
    /// older viewport waits, so that one is kept.
    pub fn remember_current_viewport(
        &mut self,
        rows: &Vec<Row>,
        scroll_top: ListOffset,
        distance: Px,
    )
        requires
            old(self)@.wf(),
        ensures
            final(self)@.wf(),
            final(self)@ == old(self)@.remembered(
                crate::rows::row_views(rows@),
                scroll_top,
                distance,
            ),
    {
        if self.pending.is_some() {
            return;
        }
        let chat = match &self.chat_id {
            Some(c) => c.clone(),
            None => {
                return;
            },
        };
        let shown = if self.pinned {
            Px { bits: 0 }
        } else {
            distance
        };
        assert(crate::rows::row_views(rows@).len() == rows@.len());
        let captured = SavedViewport::capture(rows, scroll_top, self.pinned, shown, &self.own_turn);
        if let Some(v) = captured {
            self.saved.insert(chat, v);
        }
    }

    /// Gives up a viewport that waits: the user or a navigation wants another
    /// place.
    pub fn discard_pending_viewport(&mut self)
        requires
            old(self)@.wf(),
        ensures
            final(self)@.wf(),
            final(self)@ == old(self)@.discarded(),
    {
        if self.pending.is_some() {
            self.pending = None;
            if let Some(c) = &self.chat_id {
                let chat = c.clone();
                self.saved.insert(chat, SavedViewport::FollowTail);
            }
        }
    }

    /// Counts a measurement of the last row, where there is one.
    fn remeasure_last(&mut self, rows: usize)
        ensures
            final(self)@ == old(self)@.last_row_remeasured(rows as nat),
    {
        if rows > 0 {
            self.layout_revision = self.layout_revision.wrapping_add(1);
        }
    }

    /// Restores a waiting viewport as soon as its place is there: its very row
    /// while history is still to come, a place near it once history has
    /// arrived. A chat that turns out empty has no place to restore.
    pub fn restore_pending_viewport(&mut self, rows: &Vec<Row>, replay: TranscriptReplayState) -> (r:
        RestoreStep)
        requires
            old(self)@.wf(),
        ensures
            final(self)@.wf(),
            (r, final(self)@) == restore_step(old(self)@, crate::rows::row_views(rows@), replay),
    {
        let ghost before = self@;
        assert(crate::rows::row_views(rows@).len() == rows@.len());
        let found = match &self.pending {
            None => {
                return RestoreStep::Waiting;
            },
            Some(p) => p.resolve(rows, replay.allows_fallback()),
        };
        if rows.len() > 0 {
            if let Some(back) = found {
                let turn = back.own_turn.is_some();
                self.pending = None;
                self.own_turn = back.own_turn;
                self.turn_kick = turn;
                self.turn_ticking = false;
                self.last_distance = back.distance_from_bottom;
                self.show_jump_button = is_far_off(back.distance_from_bottom);
                self.finalize_pending = true;
                if turn {
                    self.remeasure_last(rows.len());
                }
                return RestoreStep::Restored { at: back.offset, remeasure_last: turn };
            }
        }
        if !replay.authoritative_empty() {
            return RestoreStep::Waiting;
        }
        self.discard_pending_viewport();
        if self.own_turn.is_none() {
            self.pinned = true;
            self.last_distance = Px { bits: 0 };
            self.show_jump_button = false;
            RestoreStep::Emptied { scroll_to_end: true }
        } else {
            RestoreStep::Emptied { scroll_to_end: false }
        }
    }

    /// Lets go of the held prompt.
    pub fn release_own_turn_hold(&mut self)
        ensures
            final(self)@ == old(self)@.hold_released(),
    {
        let mut turn: Option<OwnTurnAnchor> = None;
        std::mem::swap(&mut turn, &mut self.own_turn);
        if let Some(t) = turn {
            let mut t = t;
            t.held = false;
            self.own_turn = Some(t);
        }
        self.turn_ticking = false;
    }

    /// Takes hold of the prompt again.
    fn arm_hold(&mut self)
        ensures
            final(self)@ == old(self)@.hold_armed(),
    {
        let mut turn: Option<OwnTurnAnchor> = None;
        std::mem::swap(&mut turn, &mut self.own_turn);
        if let Some(t) = turn {
            let mut t = t;
            t.held = true;
            t.positioned = false;
            self.own_turn = Some(t);
            self.turn_ticking = false;
            self.turn_kick = true;
        }
    }

    /// Whether a prompt is held.
    pub fn is_held(&self) -> (r: bool)
        ensures
            r == self@.held(),
    {
        match &self.own_turn {
            Some(t) => t.held,
            None => false,
        }
    }

    /// A navigation takes the viewport.
    pub fn begin_scroll_navigation(&mut self)
        requires
            old(self)@.wf(),
        ensures
            final(self)@.wf(),
            final(self)@ == (TranscriptView {
                pinned: false,
                spring: parked(),
                ..old(self)@.discarded().hold_released()
            }),
    {
        self.discard_pending_viewport();
        self.release_own_turn_hold();
        self.pinned = false;
        self.spring = parked_spring();
    }

    /// A text selection that drags at an edge takes the viewport.
    pub fn begin_selection_scroll(&mut self)
        requires
            old(self)@.wf(),
        ensures
            final(self)@.wf(),
            final(self)@ == spring_stopped(
                TranscriptView { pinned: false, ..old(self)@.discarded().hold_released() },
            ),
    {
        self.discard_pending_viewport();
        self.release_own_turn_hold();
        self.pinned = false;
        self.stop_spring();
    }

    /// Notes the distance after a scroll that this transcript made.
    pub fn note_scrolled(&mut self, distance: Px)
        ensures
            final(self)@ == (TranscriptView {
                last_distance: distance,
                show_jump_button: far_off(distance),
                ..old(self)@
            }),
    {
        self.last_distance = distance;
        self.show_jump_button = is_far_off(distance);
    }

    /// Notes the distance after the held prompt was shown at its place again.
    pub fn note_distance(&mut self, distance: Px)
        ensures
            final(self)@ == (TranscriptView { last_distance: distance, ..old(self)@ }),
    {
        self.last_distance = distance;
    }

    /// The row of the turn's prompt.
    pub fn own_turn_anchor_ix(&self, rows: &Vec<Row>) -> (r: Option<usize>)
        ensures
            match r {
                Some(i) => self@.own_turn is Some && i < rows@.len() && prompt_at(
                    crate::rows::row_views(rows@),
                    self@.own_turn->0.message_id,
                ) == Some(i as nat),
                None => self@.own_turn is None || prompt_at(
                    crate::rows::row_views(rows@),
                    self@.own_turn->0.message_id,
                ) is None,
            },
    {
        match &self.own_turn {
            Some(t) => find_prompt(rows, &t.message_id),
            None => None,
        }
    }

    /// Forgets the spring's last frame.
    fn stop_spring(&mut self)
        ensures
            final(self)@ == spring_stopped(old(self)@),
    {
        self.spring = SpringClock {
            kick: self.spring.kick,
            ticking: false,
            settled: self.spring.settled,
        };
    }

    fn wheel_with_turn(&mut self, rows: &Vec<Row>, away: bool, back: bool) -> (r: WheelStep)
        requires
            old(self)@.own_turn is Some,
        ensures
            (r, final(self)@) == turn_wheel(
                old(self)@,
                crate::rows::row_views(rows@),
                away,
                back,
            ),
    {
        let held = self.is_held();
        if away {
            self.release_own_turn_hold();
            self.pinned = false;
            self.stop_spring();
            WheelStep::ResetSpring
        } else if !held && back {
            self.arm_hold();
            WheelStep::Stay
        } else if held {
            WheelStep::Reassert(self.own_turn_anchor_ix(rows))
        } else {
            WheelStep::Stay
        }
    }

    fn wheel_freely(&mut self, away: bool, back: bool) -> (r: WheelStep)
        ensures
            (r, final(self)@) == free_wheel(old(self)@, away, back),
    {
        if away {
            self.pinned = false;
            self.stop_spring();
            WheelStep::ResetSpring
        } else {
            if back && !self.pinned {
                self.pinned = true;
                self.wake_spring();
            }
            WheelStep::Stay
        }
    }

    /// A user's scroll: the distance from the end it came to, and whether that
    /// is more than a pixel farther than before.
    pub fn handle_scroll(&mut self, rows: &Vec<Row>, distance: Px, receded: bool) -> (r: WheelStep)
        requires
            old(self)@.wf(),
        ensures
            final(self)@.wf(),
            (r, final(self)@) == wheel_step(
                old(self)@,
                crate::rows::row_views(rows@),
                distance,
                receded,
            ),
    {
        self.discard_pending_viewport();
        let previous = self.last_distance;
        self.last_distance = distance;
        let away = receded && Px { bits: AT_BOTTOM_BITS }.lt(distance);
        let back = distance.le(Px { bits: AT_BOTTOM_BITS }) || Self::should_restick(distance, previous);
        if self.own_turn.is_some() {
            let step = self.wheel_with_turn(rows, away, back);
            self.show_jump_button = is_far_off(distance) && !self.is_held();
            return step;
        }
        let step = self.wheel_freely(away, back);
        self.show_jump_button = is_far_off(distance) && !self.pinned;
        step
    }

    /// Calls for the spring.
    pub fn wake_spring(&mut self)
        ensures
            final(self)@ == old(self)@.spring_woken(),
    {
        self.spring = SpringClock { kick: true, ticking: self.spring.ticking, settled: false };
    }
}

/// A turn sent from here: it takes the viewport, with no space kept yet.
pub open spec fn sent(
    v: TranscriptView,
    rows: Seq<crate::rows::RowView>,
    chat_id: Seq<char>,
    message_id: Seq<char>,
) -> TranscriptView {
    TranscriptView {
        pinned: false,
        show_jump_button: false,
        spring: parked(),
        own_turn: Some(
            crate::viewport::TurnView {
                chat_id,
                message_id,
                runway: crate::viewport::no_px(),
                held: true,
                positioned: false,
                seen_prompt: crate::viewport::prompt_shown(rows, message_id),
            },
        ),
        turn_ticking: false,
        turn_kick: true,
        ..v.discarded().last_row_remeasured(rows.len())
    }
}

/// A turn whose prompt has gone is given up.
pub open spec fn reconciled(
    v: TranscriptView,
    rows: Seq<crate::rows::RowView>,
    distance: Px,
) -> TranscriptView {
    match v.own_turn {
        None => v,
        Some(t) => {
            let shown = crate::viewport::prompt_shown(rows, t.message_id);
            if shown || !t.seen_prompt {
                TranscriptView {
                    own_turn: Some(
                        crate::viewport::TurnView { seen_prompt: t.seen_prompt || shown, ..t },
                    ),
                    ..v
                }
            } else {
                TranscriptView {
                    own_turn: None,
                    turn_kick: false,
                    turn_ticking: false,
                    last_distance: distance,
                    show_jump_button: far_off(distance),
                    finalize_pending: true,
                    ..v.last_row_remeasured(rows.len())
                }
            }
        },
    }
}

impl Transcript {
    /// A turn was sent from here. The caller first makes the list's offset a
    /// concrete one, and afterwards measures the last row anew.
    pub fn on_own_send(&mut self, rows: &Vec<Row>, chat_id: String, message_id: String)
        requires
            old(self)@.wf(),
        ensures
            final(self)@.wf(),
            final(self)@ == sent(
                old(self)@,
                crate::rows::row_views(rows@),
                chat_id@,
                message_id@,
            ),
    {
        self.discard_pending_viewport();
        self.pinned = false;
        self.show_jump_button = false;
        self.spring = parked_spring();
        assert(crate::rows::row_views(rows@).len() == rows@.len());
        let seen_prompt = crate::viewport::shows_prompt(rows, &message_id);
        self.own_turn = Some(
            OwnTurnAnchor {
                chat_id,
                message_id,
                runway: Px { bits: 0 },
                held: true,
                positioned: false,
                seen_prompt,
            },
        );
        self.turn_ticking = false;
        self.turn_kick = true;
        self.remeasure_last(rows.len());
    }

    /// Gives up a turn whose prompt was there and is gone, and returns whether
    /// it did; `distance` is measured with the turn's space gone.
    pub fn reconcile_own_turn_prompt(&mut self, rows: &Vec<Row>, distance: Px) -> (r: bool)
        requires
            old(self)@.wf(),
        ensures
            final(self)@.wf(),
            final(self)@ == reconciled(old(self)@, crate::rows::row_views(rows@), distance),
            r == (old(self)@.own_turn is Some && final(self)@.own_turn is None),
    {
        assert(crate::rows::row_views(rows@).len() == rows@.len());
        let mut turn: Option<OwnTurnAnchor> = None;
        std::mem::swap(&mut turn, &mut self.own_turn);
        if let Some(t) = turn {
            let mut t = t;
            let shown = crate::viewport::shows_prompt(rows, &t.message_id);
            if t.observe_prompt(shown) {
                self.own_turn = Some(t);
                return false;
            }
            self.turn_kick = false;
            self.turn_ticking = false;
            self.remeasure_last(rows.len());
            self.last_distance = distance;
            self.show_jump_button = is_far_off(distance);
            self.finalize_pending = true;
            return true;
        }
        false
    }

    /// Pins to the end. The caller shows the end at once under reduced motion,
    /// else moves to within gliding distance and wakes the spring.
    pub fn engage_pin(&mut self, reduced_motion: bool)
        ensures
            final(self)@ == if reduced_motion {
                old(self)@.pin_engaged()
            } else {
                old(self)@.pin_engaged().spring_woken()
            },
    {
        self.pinned = true;
        self.show_jump_button = false;
        if !reduced_motion {
            self.wake_spring();
        }
    }

    /// The button back to the end: while a turn has its space, the end is the
    /// held prompt; else the end is pinned. Returns whether it was pinned.
    pub fn jump_to_bottom(&mut self, reduced_motion: bool) -> (r: bool)
        requires
            old(self)@.wf(),
        ensures
            final(self)@.wf(),
            r == (old(self)@.own_turn is None),
            final(self)@ == ({
                let v = old(self)@.discarded();
                if v.own_turn is Some {
                    TranscriptView { show_jump_button: false, ..v.hold_armed() }
                } else if reduced_motion {
                    v.pin_engaged()
                } else {
                    v.pin_engaged().spring_woken()
                }
            }),
    {
        self.discard_pending_viewport();
        if self.own_turn.is_some() {
            self.arm_hold();
            self.show_jump_button = false;
            return false;
        }
        self.engage_pin(reduced_motion);
        true
    }

    /// Whether the spring wants another frame: called for, off the end, still
    /// moving, or landed just now.
    pub fn spring_should_run(&self, distance: Px, idle: bool) -> (r: bool)
        ensures
            r == (self@.spring.kick || px(ARRIVED_BITS).less(distance) || !idle
                || self@.spring.settled),
    {
        self.spring.kick || Px { bits: ARRIVED_BITS }.lt(distance) || !idle || self.spring.settled
    }

    /// Whether the transcript is pinned to its end.
    pub fn is_pinned(&self) -> (r: bool)
        ensures
            r == self@.pinned,
    {
        self.pinned
    }

    /// Whether the button back to the end shows.
    pub fn jump_button_shown(&self) -> (r: bool)
        ensures
            r == self@.show_jump_button,
    {
        self.show_jump_button
    }
}

/// Whether the list's offset is past its rows, where the next layout snaps to
/// the end.
pub fn is_glued(item_ix: usize, rows: usize) -> (r: bool)
    ensures
        r == (item_ix >= rows),
{
    item_ix >= rows
}

/// What a frame of the spring comes to.
#[derive(Clone, Copy, PartialEq, Eq, Structural, Debug)]
pub enum SpringStep {
    /// Not pinned: nothing moves.
    Off,
    /// Another frame is wanted.
    Run,
    /// It has rested long enough: the spring is dropped.
    Park,
}

/// A frame of the spring. It rests at the end for a while before it parks, so
/// that a stream that pauses goes on at speed.
pub open spec fn spring_step(
    v: TranscriptView,
    distance: Px,
    rested: bool,
    idle: bool,
) -> (SpringStep, TranscriptView) {
    if !v.pinned {
        (
            SpringStep::Off,
            TranscriptView {
                spring: SpringClock { kick: false, ticking: false, ..v.spring },
                ..v
            },
        )
    } else if !distance.at_most(px(ARRIVED_BITS)) {
        (
            SpringStep::Run,
            TranscriptView {
                spring: SpringClock { kick: false, ticking: true, settled: false },
                last_distance: distance,
                ..v
            },
        )
    } else if v.spring.settled && rested && idle {
        (SpringStep::Park, TranscriptView { spring: parked(), last_distance: distance, ..v })
    } else {
        (
            SpringStep::Run,
            TranscriptView {
                spring: SpringClock { kick: false, ticking: true, settled: true },
                last_distance: distance,
                ..v
            },
        )
    }
}

impl Transcript {
    /// One frame of the spring: the distance it left, whether the grace since
    /// it landed is over, and whether it is out of motion.
    pub fn step_spring(&mut self, distance: Px, rested: bool, idle: bool) -> (r: SpringStep)
        ensures
            (r, final(self)@) == spring_step(old(self)@, distance, rested, idle),
    {
        if !self.pinned {
            self.spring = SpringClock {
                kick: false,
                ticking: false,
                settled: self.spring.settled,
            };
            return SpringStep::Off;
        }
        self.last_distance = distance;
        if !distance.le(Px { bits: ARRIVED_BITS }) {
            self.spring = SpringClock { kick: false, ticking: true, settled: false };
            return SpringStep::Run;
        }
        if self.spring.settled && rested && idle {
            self.spring = parked_spring();
            return SpringStep::Park;
        }
        self.spring = SpringClock { kick: false, ticking: true, settled: true };
        SpringStep::Run
    }
}

impl Transcript {
    /// What the transcript scrolls under has this height, in 64ths of a pixel.
    /// Half a pixel more or less is passed over; else a turn's space is measured
    /// anew. Says whether anything changed.
    pub fn set_bottom_clearance(&mut self, height: i32, rows: usize) -> (r: bool)
        ensures
            r == clearance_moved(old(self)@.place.bottom_clearance as int, height as int),
            final(self)@ == if r {
                old(self)@.covered(height).turn_measured(rows as nat)
            } else {
                old(self)@
            },
    {
        let by: i128 = self.place.bottom_clearance as i128 - height as i128;
        if !(by > HALF_PIXEL || -by > HALF_PIXEL) {
            return false;
        }
        self.cover(height);
        self.measure_turn(rows);
        true
    }

    fn cover(&mut self, height: i32)
        ensures
            final(self)@ == old(self)@.covered(height),
    {
        self.place.bottom_clearance = height;
    }

    fn measure_turn(&mut self, rows: usize)
        ensures
            final(self)@ == old(self)@.turn_measured(rows as nat),
    {
        if self.own_turn.is_some() {
            self.remeasure_last(rows);
            self.turn_kick = true;
        }
    }
}

// ---------------------------------------------------------------------------
// Laws
// ---------------------------------------------------------------------------

/// A scroll away from the end never pins to it, however near it stays.
pub proof fn law_moving_away_never_resticks(distance: Px, previous: Px)
    requires
        previous.at_most(distance),
    ensures
        !resticks(distance, previous),
{
}

/// A user's scroll away from the end breaks the pin and the hold of a turn; no
/// later frame of the spring moves anything.
pub proof fn law_moving_away_breaks_the_pin(
    v: TranscriptView,
    rows: Seq<crate::rows::RowView>,
    distance: Px,
    later: Px,
    rested: bool,
    idle: bool,
)
    requires
        px(AT_BOTTOM_BITS).less(distance),
    ensures
        ({
            let after = wheel_step(v, rows, distance, true).1;
            &&& !after.pinned
            &&& !after.held()
            &&& spring_step(after, later, rested, idle).0 == SpringStep::Off
        }),
{
}

/// While a turn has its space, no scroll pins to the end: the end is the held
/// prompt.
pub proof fn law_no_pin_while_a_turn_has_its_space(
    v: TranscriptView,
    rows: Seq<crate::rows::RowView>,
    distance: Px,
    receded: bool,
)
    requires
        v.own_turn is Some,
        !v.pinned,
    ensures
        !wheel_step(v, rows, distance, receded).1.pinned,
        wheel_step(v, rows, distance, receded).1.own_turn is Some,
{
}

/// The button back to the end never shows while the end is pinned, nor while a
/// prompt is held.
pub proof fn law_no_button_at_the_end(
    v: TranscriptView,
    rows: Seq<crate::rows::RowView>,
    distance: Px,
    receded: bool,
)
    ensures
        ({
            let after = wheel_step(v, rows, distance, receded).1;
            after.show_jump_button ==> far_off(distance) && !after.held() && (v.own_turn is None
                ==> !after.pinned)
        }),
{
}

/// Giving up a viewport that waits is done at once and for good.
pub proof fn law_discarding_twice_is_once(v: TranscriptView)
    ensures
        v.discarded().discarded() == v.discarded(),
        v.discarded().pending is None,
{
}

/// Every send takes the viewport from the pin, and its prompt is held.
pub proof fn law_a_send_is_held(
    v: TranscriptView,
    rows: Seq<crate::rows::RowView>,
    chat_id: Seq<char>,
    message_id: Seq<char>,
)
    ensures
        sent(v, rows, chat_id, message_id).held(),
        !sent(v, rows, chat_id, message_id).pinned,
        sent(v, rows, chat_id, message_id).pending is None,
{
}

/// A turn that waits for its prompt keeps waiting; one whose prompt was seen and
/// is gone ends.
pub proof fn law_a_turn_ends_with_its_prompt(
    v: TranscriptView,
    rows: Seq<crate::rows::RowView>,
    distance: Px,
)
    requires
        v.own_turn is Some,
        !crate::viewport::prompt_shown(rows, v.own_turn->0.message_id),
    ensures
        (reconciled(v, rows, distance).own_turn is None) == v.own_turn->0.seen_prompt,
{
}

} // verus!
