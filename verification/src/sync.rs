//! Bringing the rows up to date with the chat shown.
use std::ops::Range;

use vstd::hash_map::StringHashMap;
use vstd::prelude::*;

use crate::message::SessionMessageEntry;
use crate::rows::{Row, RowKind};
use crate::scroll::{RestoreStep, Transcript, SpringClock};
use crate::viewport::{ListOffset, Px, SavedViewport, TranscriptReplayState};

verus! {

/// Whether two optional texts are the same.
fn same_opt(a: &Option<String>, b: &Option<String>) -> (r: bool)
    ensures
        r == (crate::markdown::opt_text(*a) == crate::markdown::opt_text(*b)),
{
    match (a, b) {
        (None, None) => true,
        (Some(x), Some(y)) => *x == *y,
        _ => false,
    }
}

/// Whether the rows may be out of date: another chat is selected, or the state
/// has changed since they were built.
pub fn sync_needed(
    selected: &Option<String>,
    shown: &Option<String>,
    revision: u64,
    synced: u64,
) -> (r: bool)
    ensures
        r == (crate::markdown::opt_text(*selected) != crate::markdown::opt_text(*shown)
            || revision != synced),
{
    !same_opt(selected, shown) || revision != synced
}

/// How much of the chat's history has arrived.
pub fn replay_state(replayed: bool, empty: bool) -> (r: TranscriptReplayState)
    ensures
        r == if !replayed {
            TranscriptReplayState::Pending
        } else if empty {
            TranscriptReplayState::Empty
        } else {
            TranscriptReplayState::Populated
        },
{
    if !replayed {
        TranscriptReplayState::Pending
    } else if empty {
        TranscriptReplayState::Empty
    } else {
        TranscriptReplayState::Populated
    }
}

/// The viewport remembered for a chat.
pub open spec fn remembered_for(
    v: crate::scroll::TranscriptView,
    chat: Option<Seq<char>>,
) -> Option<crate::viewport::SavedView> {
    match chat {
        Some(c) => if v.saved.by_chat.contains_key(c) {
            Some(v.saved.by_chat[c])
        } else {
            None
        },
        None => None,
    }
}

/// The state with a chat's viewport used.
pub open spec fn looked_up(
    v: crate::scroll::TranscriptView,
    chat: Option<Seq<char>>,
) -> crate::scroll::TranscriptView {
    match chat {
        Some(c) => crate::scroll::TranscriptView { saved: v.saved.touched(c), ..v },
        None => v,
    }
}

/// Whether the turn just sent belongs to the chat.
pub open spec fn turn_of(v: crate::scroll::TranscriptView, chat: Option<Seq<char>>) -> bool {
    v.own_turn matches Some(t) && chat == Some(t.chat_id)
}

/// Another chat is shown. What is remembered of it is read before the chat that
/// is left is remembered, so that it cannot be displaced by it. A turn sent to
/// the chat keeps the viewport; else a remembered place waits for its rows;
/// else the end is shown.
pub open spec fn attached(
    v: crate::scroll::TranscriptView,
    rows: Seq<crate::rows::RowView>,
    at: ListOffset,
    distance: Px,
    chat: Option<Seq<char>>,
) -> crate::scroll::TranscriptView {
    let incoming = remembered_for(v, chat);
    let left = looked_up(v, chat).remembered(rows, at, distance);
    let base = crate::scroll::TranscriptView {
        chat_id: chat,
        pending: None,
        generation: left.generation.wrapping_add(1),
        finalize_pending: false,
        spring: crate::scroll::parked(),
        ..left
    };
    if turn_of(left, chat) {
        crate::scroll::TranscriptView {
            pinned: false,
            last_distance: crate::viewport::no_px(),
            show_jump_button: false,
            ..base
        }
    } else {
        let free = crate::scroll::TranscriptView {
            own_turn: None,
            turn_kick: false,
            turn_ticking: false,
            ..base
        };
        match incoming {
            Some(crate::viewport::SavedView::Anchored { anchor, distance_from_bottom, own_turn }) => {
                crate::scroll::TranscriptView {
                    pinned: false,
                    last_distance: distance_from_bottom,
                    show_jump_button: crate::scroll::far_off(distance_from_bottom),
                    pending: incoming,
                    ..free
                }
            },
            _ => crate::scroll::TranscriptView {
                pinned: true,
                last_distance: crate::viewport::no_px(),
                show_jump_button: false,
                ..free
            },
        }
    }
}

impl Transcript {
    /// Whether the turn just sent belongs to the chat.
    fn keeps_turn(&self, chat: &Option<String>) -> (r: bool)
        ensures
            r == turn_of(self@, crate::markdown::opt_text(*chat)),
    {
        match (&self.own_turn, chat) {
            (Some(t), Some(c)) => t.chat_id == *c,
            _ => false,
        }
    }

    /// The viewport remembered for the chat, which counts as used.
    fn look_up(&mut self, chat: &Option<String>) -> (r: Option<SavedViewport>)
        requires
            old(self)@.wf(),
        ensures
            final(self)@.wf(),
            final(self)@ == looked_up(old(self)@, crate::markdown::opt_text(*chat)),
            crate::viewport::opt_saved(r) == remembered_for(
                old(self)@,
                crate::markdown::opt_text(*chat),
            ),
    {
        match chat {
            Some(c) => self.saved.get_cloned_and_touch(c.as_str()),
            None => None,
        }
    }

    /// Shows another chat: `rows`, `scroll_top` and `distance` are those of the
    /// chat that is left.
    pub fn attach(
        &mut self,
        chat: Option<String>,
        rows: &Vec<Row>,
        scroll_top: ListOffset,
        distance: Px,
    )
        requires
            old(self)@.wf(),
        ensures
            final(self)@.wf(),
            final(self)@ == attached(
                old(self)@,
                crate::rows::row_views(rows@),
                scroll_top,
                distance,
                crate::markdown::opt_text(chat),
            ),
    {
        let incoming = self.look_up(&chat);
        self.remember_current_viewport(rows, scroll_top, distance);
        let keep = self.keeps_turn(&chat);
        self.chat_id = chat;
        self.pending = None;
        self.generation = self.generation.wrapping_add(1);
        self.finalize_pending = false;
        self.spring = SpringClock { kick: false, ticking: false, settled: false };
        if keep {
            self.pinned = false;
            self.last_distance = Px { bits: 0 };
            self.show_jump_button = false;
            return;
        }
        self.own_turn = None;
        self.turn_kick = false;
        self.turn_ticking = false;
        let place = match &incoming {
            Some(SavedViewport::Anchored { distance_from_bottom, .. }) => Some(
                *distance_from_bottom,
            ),
            _ => None,
        };
        match place {
            Some(d) => {
                self.pinned = false;
                self.last_distance = d;
                self.show_jump_button = Px {
                    bits: crate::scroll::SCROLL_BUTTON_THRESHOLD_BITS,
                }.lt(d);
                self.pending = incoming;
            },
            None => {
                self.pinned = true;
                self.last_distance = Px { bits: 0 };
                self.show_jump_button = false;
            },
        }
    }
}

/// The chat that was left longest ago finds its place again though the cache is
/// full.
pub proof fn law_reopened_chat_finds_its_place(
    v: crate::scroll::TranscriptView,
    rows: Seq<crate::rows::RowView>,
    at: ListOffset,
    distance: Px,
    chat: Seq<char>,
)
    requires
        v.wf(),
        v.saved.by_chat.contains_key(chat),
        v.saved.by_chat[chat] is Anchored,
        !turn_of(v, Some(chat)),
    ensures
        attached(v, rows, at, distance, Some(chat)).pending == Some(v.saved.by_chat[chat]),
        !attached(v, rows, at, distance, Some(chat)).pinned,
{
}

// ---------------------------------------------------------------------------
// Applying a change of rows
// ---------------------------------------------------------------------------

/// How the list takes a change of rows.
pub enum ListChange {
    /// The same number of rows with other content: measured anew in place, so
    /// that the offset holds.
    Remeasure(Range<usize>),
    /// Rows in place of others.
    Splice(Range<usize>, usize),
}

/// How the list takes a splice.
pub fn list_change(range: Range<usize>, count: usize) -> (r: ListChange)
    requires
        range.start <= range.end,
    ensures
        match r {
            ListChange::Remeasure(at) => at == range && range.end - range.start == count,
            ListChange::Splice(at, n) => at == range && n == count && range.end - range.start
                != count,
        },
{
    if range.end - range.start == count {
        ListChange::Remeasure(range)
    } else {
        ListChange::Splice(range, count)
    }
}

/// How the end is followed once rows have changed.
#[derive(Clone, Copy, PartialEq, Eq, Structural, Debug)]
pub enum FollowStep {
    /// Not at all.
    Stay,
    /// The end is shown and the spring dropped.
    Anchor,
    /// The end is shown.
    End,
    /// The offset is moved a hair off the end, so that it holds.
    Nudge,
    /// The spring is called for.
    Glide,
}

/// What new rows ask of the list.
#[derive(Clone, Copy, PartialEq, Eq, Structural, Debug)]
pub struct SettleStep {
    /// A turn was given up, so the last row is measured anew.
    pub retired: bool,
    pub restore: RestoreStep,
    /// The first rows are shown from their end.
    pub land_end: bool,
    /// The row that was last is measured anew.
    pub remeasure_old_last: Option<usize>,
    pub remeasure_last: bool,
    pub follow: FollowStep,
    pub notify: bool,
}

/// How a pinned view follows its end: a streaming reply that rests at the end
/// keeps it in place, the first rows and reduced motion show the end at once,
/// and any other growth is glided to.
pub open spec fn follow_step(
    pinned: bool,
    live_following: bool,
    at_once: bool,
    glued: bool,
) -> FollowStep {
    if !pinned {
        FollowStep::Stay
    } else if live_following {
        FollowStep::Anchor
    } else if at_once {
        FollowStep::End
    } else if glued {
        FollowStep::Nudge
    } else {
        FollowStep::Glide
    }
}

/// The state once the end is followed so.
pub open spec fn followed(v: crate::scroll::TranscriptView, f: FollowStep) -> crate::scroll::TranscriptView {
    match f {
        FollowStep::Stay => v,
        FollowStep::Anchor => crate::scroll::TranscriptView {
            spring: crate::scroll::parked(),
            last_distance: crate::viewport::no_px(),
            ..v
        },
        _ => crate::scroll::TranscriptView { spring: SpringClock { kick: true, ..v.spring }, ..v },
    }
}

/// New rows that differ from the old ones in nothing still settle what waited
/// on them.
pub open spec fn unchanged_step(
    v: crate::scroll::TranscriptView,
    rows: Seq<crate::rows::RowView>,
    replay: TranscriptReplayState,
    distance: Px,
) -> (SettleStep, crate::scroll::TranscriptView) {
    let v1 = crate::scroll::reconciled(v, rows, distance);
    let (restore, v2) = crate::scroll::restore_step(v1, rows, replay);
    (
        SettleStep {
            retired: v.own_turn is Some && v1.own_turn is None,
            restore,
            land_end: false,
            remeasure_old_last: None,
            remeasure_last: false,
            follow: FollowStep::Stay,
            notify: restore != RestoreStep::Waiting,
        },
        v2,
    )
}

/// What changed rows do first: a turn whose prompt went is given up, and a
/// waiting viewport restored.
pub open spec fn change_begun(
    v: crate::scroll::TranscriptView,
    rows: Seq<crate::rows::RowView>,
    replay: TranscriptReplayState,
    distance: Px,
) -> (bool, RestoreStep, crate::scroll::TranscriptView) {
    let v0 = crate::scroll::TranscriptView {
        layout_revision: v.layout_revision.wrapping_add(1),
        ..v
    };
    let v1 = crate::scroll::reconciled(v0, rows, distance);
    let (restore, v2) = crate::scroll::restore_step(v1, rows, replay);
    (v.own_turn is Some && v1.own_turn is None, restore, v2)
}

/// The state with the first rows landed on and the turn's space moved to the
/// new last row.
pub open spec fn change_landed(
    v: crate::scroll::TranscriptView,
    rows: nat,
) -> crate::scroll::TranscriptView {
    let v1 = crate::scroll::TranscriptView {
        land_end_pending: v.land_end_pending && rows == 0,
        ..v
    };
    if v1.own_turn is Some {
        crate::scroll::TranscriptView { turn_kick: true, ..v1.last_row_remeasured(rows) }
    } else {
        v1
    }
}

/// Changed rows: a turn whose prompt went is given up, a waiting viewport
/// restored, first rows landed on, the turn's space moved to the new last row,
/// and the end followed.
pub open spec fn changed_step(
    v: crate::scroll::TranscriptView,
    rows: Seq<crate::rows::RowView>,
    old_rows: nat,
    replay: TranscriptReplayState,
    distance: Px,
    live_following: bool,
    reduced_motion: bool,
    glued: bool,
) -> (SettleStep, crate::scroll::TranscriptView) {
    let (retired, restore, v2) = change_begun(v, rows, replay, distance);
    let turn = v2.own_turn is Some;
    let follow = follow_step(
        v2.pinned,
        live_following,
        reduced_motion || old_rows == 0,
        glued,
    );
    (
        SettleStep {
            retired,
            restore,
            land_end: v2.land_end_pending && rows.len() > 0,
            remeasure_old_last: if turn && 0 < old_rows <= rows.len() {
                Some((old_rows - 1) as usize)
            } else {
                None
            },
            remeasure_last: turn && rows.len() > 0,
            follow,
            notify: true,
        },
        followed(change_landed(v2, rows.len()), follow),
    )
}

impl Transcript {
    /// Follows the end.
    fn follow(&mut self, f: FollowStep)
        ensures
            final(self)@ == followed(old(self)@, f),
    {
        match f {
            FollowStep::Stay => {},
            FollowStep::Anchor => {
                self.spring = SpringClock { kick: false, ticking: false, settled: false };
                self.last_distance = Px { bits: 0 };
            },
            _ => {
                self.spring = SpringClock {
                    kick: true,
                    ticking: self.spring.ticking,
                    settled: self.spring.settled,
                };
            },
        }
    }

    /// The rows are the same as before.
    pub fn settle_unchanged(
        &mut self,
        rows: &Vec<Row>,
        replay: TranscriptReplayState,
        distance: Px,
    ) -> (r: SettleStep)
        requires
            old(self)@.wf(),
        ensures
            final(self)@.wf(),
            (r, final(self)@) == unchanged_step(
                old(self)@,
                crate::rows::row_views(rows@),
                replay,
                distance,
            ),
    {
        let retired = self.reconcile_own_turn_prompt(rows, distance);
        let restore = self.restore_pending_viewport(rows, replay);
        let notify = restore != RestoreStep::Waiting;
        SettleStep {
            retired,
            restore,
            land_end: false,
            remeasure_old_last: None,
            remeasure_last: false,
            follow: FollowStep::Stay,
            notify,
        }
    }

    fn begin_change(
        &mut self,
        rows: &Vec<Row>,
        replay: TranscriptReplayState,
        distance: Px,
    ) -> (r: (bool, RestoreStep))
        requires
            old(self)@.wf(),
        ensures
            final(self)@.wf(),
            (r.0, r.1, final(self)@) == change_begun(
                old(self)@,
                crate::rows::row_views(rows@),
                replay,
                distance,
            ),
    {
        self.layout_revision = self.layout_revision.wrapping_add(1);
        let retired = self.reconcile_own_turn_prompt(rows, distance);
        let restore = self.restore_pending_viewport(rows, replay);
        (retired, restore)
    }

    fn land_change(&mut self, rows: usize)
        ensures
            final(self)@ == change_landed(old(self)@, rows as nat),
    {
        if rows > 0 {
            self.land_end_pending = false;
        }
        if self.own_turn.is_some() {
            if rows > 0 {
                self.layout_revision = self.layout_revision.wrapping_add(1);
            }
            self.turn_kick = true;
        }
    }

    /// The list has taken other rows; there were `old_rows` before.
    pub fn settle_changed(
        &mut self,
        rows: &Vec<Row>,
        old_rows: usize,
        replay: TranscriptReplayState,
        distance: Px,
        live_following: bool,
        reduced_motion: bool,
        glued: bool,
    ) -> (r: SettleStep)
        requires
            old(self)@.wf(),
        ensures
            final(self)@.wf(),
            (r, final(self)@) == changed_step(
                old(self)@,
                crate::rows::row_views(rows@),
                old_rows as nat,
                replay,
                distance,
                live_following,
                reduced_motion,
                glued,
            ),
    {
        assert(crate::rows::row_views(rows@).len() == rows@.len());
        let (retired, restore) = self.begin_change(rows, replay, distance);
        let land_end = self.land_end_pending && rows.len() > 0;
        let turn = self.own_turn.is_some();
        let follow = if !self.pinned {
            FollowStep::Stay
        } else if live_following {
            FollowStep::Anchor
        } else if reduced_motion || old_rows == 0 {
            FollowStep::End
        } else if glued {
            FollowStep::Nudge
        } else {
            FollowStep::Glide
        };
        self.land_change(rows.len());
        self.follow(follow);
        let remeasure_old_last = if turn && 0 < old_rows && old_rows <= rows.len() {
            Some(old_rows - 1)
        } else {
            None
        };
        SettleStep {
            retired,
            restore,
            land_end,
            remeasure_old_last,
            remeasure_last: turn && rows.len() > 0,
            follow,
            notify: true,
        }
    }

    /// Whether a frame of the turn is to be scheduled.
    pub fn turn_frame_wanted(&self, scheduled: bool) -> (r: bool)
        ensures
            r == ((self@.own_turn is Some || self@.turn_kick) && !scheduled),
    {
        (self.own_turn.is_some() || self.turn_kick) && !scheduled
    }

    /// Whether a frame of the spring is to be scheduled.
    pub fn spring_frame_wanted(
        &self,
        scheduled: bool,
        reduced_motion: bool,
        distance: Px,
        idle: bool,
    ) -> (r: bool)
        ensures
            r == (self@.pinned && !reduced_motion && !scheduled && (self@.spring.kick
                || crate::scroll::px(crate::scroll::ARRIVED_BITS).less(distance) || !idle
                || self@.spring.settled)),
    {
        self.pinned && !reduced_motion && !scheduled && self.spring_should_run(distance, idle)
    }

    /// What a restored viewport waits on.
    pub fn finalize_token(&self) -> (r: crate::viewport::ViewportFinalizeToken)
        ensures
            r.generation == self@.generation,
            r.layout_revision == self@.layout_revision,
    {
        crate::viewport::ViewportFinalizeToken {
            generation: self.generation,
            layout_revision: self.layout_revision,
        }
    }

    /// A layout after a viewport was restored: what depends on the distance is
    /// refreshed, unless another chat is shown by now, and refreshing ends with
    /// a layout after which none was asked for. Returns whether to paint again.
    pub fn finalize_viewport(
        &mut self,
        token: crate::viewport::ViewportFinalizeToken,
        distance: Px,
    ) -> (r: bool)
        ensures
            token.generation != old(self)@.generation ==> final(self)@ == old(self)@ && r == old(
                self,
            )@.finalize_pending,
            token.generation == old(self)@.generation ==> r && final(self)@ == (
            crate::scroll::TranscriptView {
                last_distance: distance,
                show_jump_button: crate::scroll::far_off(distance) && !old(self)@.pinned && !old(
                    self,
                )@.held(),
                finalize_pending: old(self)@.finalize_pending && token.layout_revision != old(
                    self,
                )@.layout_revision,
                ..old(self)@
            }),
    {
        if !token.still_current(self.generation) {
            return self.finalize_pending;
        }
        self.last_distance = distance;
        self.show_jump_button = Px { bits: crate::scroll::SCROLL_BUTTON_THRESHOLD_BITS }.lt(
            distance,
        ) && !self.pinned && !self.is_held();
        if token.layout_settled(self.layout_revision) {
            self.finalize_pending = false;
        }
        true
    }
}

// ---------------------------------------------------------------------------
// Live rows
// ---------------------------------------------------------------------------

/// The ids of the live rows, in order.
pub open spec fn live_ids(rows: Seq<crate::rows::RowView>) -> Seq<Seq<char>>
    decreases rows.len(),
{
    if rows.len() == 0 {
        Seq::empty()
    } else {
        let before = live_ids(rows.drop_last());
        if rows.last().kind is LiveMarkdown {
            before.push(rows.last().id)
        } else {
            before
        }
    }
}

/// The ids of the live rows.
pub fn live_row_ids(rows: &Vec<Row>) -> (r: Vec<String>)
    ensures
        crate::text::texts(r@) == live_ids(crate::rows::row_views(rows@)),
{
    let ghost views = crate::rows::row_views(rows@);
    let mut r: Vec<String> = Vec::new();
    let mut i: usize = 0;
    assert(crate::text::texts(r@) =~= live_ids(views.take(0)));
    while i < rows.len()
        invariant
            i <= rows@.len(),
            views == crate::rows::row_views(rows@),
            crate::text::texts(r@) == live_ids(views.take(i as int)),
        decreases rows.len() - i,
    {
        assert(views.take(i + 1).drop_last() =~= views.take(i as int));
        assert(views.take(i + 1).last() == rows@[i as int]@);
        if let RowKind::LiveMarkdown { .. } = &rows[i].kind {
            let id = rows[i].id.clone();
            proof {
                crate::text::lemma_texts_push(r@, id);
            }
            r.push(id);
        }
        i = i + 1;
    }
    assert(views.take(i as int) =~= views);
    r
}

/// The live rows whose text was there when the chat was opened: it does not
/// fade in.
pub struct VeilBaseline {
    pub ids: Vec<String>,
    /// The chat was opened and its rows have not arrived.
    pub attach_pending: bool,
}

/// The ids of `ids` that are among `live`, in order.
pub open spec fn still_live(ids: Seq<Seq<char>>, live: Seq<Seq<char>>) -> Seq<Seq<char>>
    decreases ids.len(),
{
    if ids.len() == 0 {
        Seq::empty()
    } else {
        let before = still_live(ids.drop_last(), live);
        if live.contains(ids.last()) {
            before.push(ids.last())
        } else {
            before
        }
    }
}

/// The baseline with these rows: taken from the first rows after the chat was
/// opened, and afterwards only losing rows that are live no more.
pub open spec fn baseline_after(
    ids: Seq<Seq<char>>,
    pending: bool,
    attached: bool,
    entries: bool,
    live: Seq<Seq<char>>,
) -> (Seq<Seq<char>>, bool) {
    let start = if attached {
        Seq::empty()
    } else {
        ids
    };
    let waiting = attached || pending;
    if waiting && entries {
        (live, false)
    } else {
        (still_live(start, live), waiting)
    }
}

/// Whether a text is among others.
fn among(ids: &Vec<String>, id: &String) -> (r: bool)
    ensures
        r == crate::text::texts(ids@).contains(id@),
{
    let ghost views = crate::text::texts(ids@);
    let mut i: usize = 0;
    while i < ids.len()
        invariant
            i <= ids@.len(),
            views == crate::text::texts(ids@),
            forall|j: int| 0 <= j < i ==> #[trigger] views[j] != id@,
        decreases ids.len() - i,
    {
        if ids[i] == *id {
            assert(views[i as int] == id@);
            return true;
        }
        i = i + 1;
    }
    false
}

/// The ids of `ids` that are among `live`.
fn retain_live(ids: &Vec<String>, live: &Vec<String>) -> (r: Vec<String>)
    ensures
        crate::text::texts(r@) == still_live(
            crate::text::texts(ids@),
            crate::text::texts(live@),
        ),
{
    let ghost views = crate::text::texts(ids@);
    let mut r: Vec<String> = Vec::new();
    let mut i: usize = 0;
    assert(crate::text::texts(r@) =~= still_live(views.take(0), crate::text::texts(live@)));
    while i < ids.len()
        invariant
            i <= ids@.len(),
            views == crate::text::texts(ids@),
            crate::text::texts(r@) == still_live(views.take(i as int), crate::text::texts(live@)),
        decreases ids.len() - i,
    {
        assert(views.take(i + 1).drop_last() =~= views.take(i as int));
        assert(views.take(i + 1).last() == ids@[i as int]@);
        if among(live, &ids[i]) {
            let id = ids[i].clone();
            proof {
                crate::text::lemma_texts_push(r@, id);
            }
            r.push(id);
        }
        i = i + 1;
    }
    assert(views.take(i as int) =~= views);
    r
}

/// How a live row's veil comes about.
#[derive(Clone, Copy, PartialEq, Eq, Structural, Debug)]
pub enum VeilStart {
    /// It has one already.
    Kept,
    /// All that it shows counts as shown before; only what is appended fades in.
    Seeded,
    /// All that it shows fades in.
    Fresh,
}

/// How a live row's veil comes about: none under reduced motion, the one that the
/// row has, a seeded one where the row is of the baseline, else a fresh one.
pub open spec fn veil_start(
    ids: Seq<Seq<char>>,
    row_id: Seq<char>,
    has_veil: bool,
    reduced_motion: bool,
) -> Option<VeilStart> {
    if reduced_motion {
        None
    } else if has_veil {
        Some(VeilStart::Kept)
    } else if ids.contains(row_id) {
        Some(VeilStart::Seeded)
    } else {
        Some(VeilStart::Fresh)
    }
}

impl VeilBaseline {
    /// How a live row's veil comes about; nothing under reduced motion.
    pub fn start(&self, row_id: &str, has_veil: bool, reduced_motion: bool) -> (r: Option<VeilStart>)
        ensures
            r == veil_start(crate::text::texts(self.ids@), row_id@, has_veil, reduced_motion),
    {
        if reduced_motion {
            return None;
        }
        if has_veil {
            return Some(VeilStart::Kept);
        }
        let id = row_id.to_owned();
        let ghost views = crate::text::texts(self.ids@);
        let mut i: usize = 0;
        while i < self.ids.len()
            invariant
                i <= self.ids@.len(),
                !reduced_motion,
                !has_veil,
                id@ == row_id@,
                views == crate::text::texts(self.ids@),
                forall|j: int| 0 <= j < i ==> #[trigger] views[j] != row_id@,
            decreases self.ids.len() - i,
        {
            assert(views[i as int] == self.ids@[i as int]@);
            if self.ids[i] == id {
                assert(views.contains(row_id@));
                return Some(VeilStart::Seeded);
            }
            i = i + 1;
        }
        assert(!views.contains(row_id@));
        Some(VeilStart::Fresh)
    }

    /// Takes account of new rows.
    pub fn update(&mut self, attached: bool, has_entries: bool, rows: &Vec<Row>)
        ensures
            ({
                let after = baseline_after(
                    crate::text::texts(old(self).ids@),
                    old(self).attach_pending,
                    attached,
                    has_entries,
                    live_ids(crate::rows::row_views(rows@)),
                );
                crate::text::texts(final(self).ids@) == after.0 && final(self).attach_pending
                    == after.1
            }),
    {
        let live = live_row_ids(rows);
        if attached {
            self.ids = Vec::new();
            self.attach_pending = true;
            assert(crate::text::texts(self.ids@) =~= Seq::empty());
        }
        if self.attach_pending && has_entries {
            self.attach_pending = false;
            self.ids = live;
        } else {
            self.ids = retain_live(&self.ids, &live);
        }
    }
}

// ---------------------------------------------------------------------------
// The row cache
// ---------------------------------------------------------------------------

/// An entry's rows with the fingerprint they were built at.
struct CachedRows {
    fingerprint: u64,
    rows: Vec<Row>,
}

/// The rows of settled entries, by entry.
pub struct RowCache {
    entries: StringHashMap<CachedRows>,
}

impl View for RowCache {
    type V = Map<Seq<char>, (u64, Seq<crate::rows::RowView>)>;

    closed spec fn view(&self) -> Map<Seq<char>, (u64, Seq<crate::rows::RowView>)> {
        self.entries@.map_values(
            |c: CachedRows| (c.fingerprint, crate::rows::row_views(c.rows@)),
        )
    }
}

/// Whether an entry's rows are at hand: it is settled, and nothing about it has
/// changed.
pub open spec fn rows_at_hand(
    cache: Map<Seq<char>, (u64, Seq<crate::rows::RowView>)>,
    entry: SessionMessageEntry,
    fingerprint: u64,
) -> bool {
    !entry.streaming() && cache.contains_key(entry.id@) && cache[entry.id@].0 == fingerprint
}

impl RowCache {
    /// No rows.
    pub fn new() -> (r: Self)
        ensures
            r@ == Map::<Seq<char>, (u64, Seq<crate::rows::RowView>)>::empty(),
    {
        let r = RowCache { entries: StringHashMap::new() };
        assert(r@ =~= Map::<Seq<char>, (u64, Seq<crate::rows::RowView>)>::empty());
        r
    }

    /// The rows at hand for an entry of this fingerprint.
    pub fn get(&self, entry: &SessionMessageEntry, fingerprint: u64) -> (r: Option<Vec<Row>>)
        ensures
            match r {
                Some(rows) => rows_at_hand(self@, *entry, fingerprint) && crate::rows::row_views(
                    rows@,
                ) == self@[entry.id@].1,
                None => !rows_at_hand(self@, *entry, fingerprint),
            },
    {
        if crate::message::is_streaming(entry) {
            return None;
        }
        match self.entries.get(entry.id.as_str()) {
            Some(c) => if c.fingerprint == fingerprint {
                Some(crate::rows::copy_rows(&c.rows))
            } else {
                None
            },
            None => None,
        }
    }

    /// Keeps the rows of an entry, unless it is streaming.
    pub fn keep(&mut self, entry: &SessionMessageEntry, fingerprint: u64, rows: &Vec<Row>)
        ensures
            final(self)@ == if entry.streaming() {
                old(self)@
            } else {
                old(self)@.insert(entry.id@, (fingerprint, crate::rows::row_views(rows@)))
            },
    {
        let ghost before = self@;
        if !crate::message::is_streaming(entry) {
            let copy = crate::rows::copy_rows(rows);
            self.entries.insert(entry.id.clone(), CachedRows { fingerprint, rows: copy });
            assert(self@ =~= before.insert(
                entry.id@,
                (fingerprint, crate::rows::row_views(rows@)),
            ));
        }
    }
}

/// Rows that were kept are given back until the entry changes.
pub proof fn law_kept_rows_come_back(
    cache: Map<Seq<char>, (u64, Seq<crate::rows::RowView>)>,
    entry: SessionMessageEntry,
    fingerprint: u64,
    rows: Seq<crate::rows::RowView>,
)
    requires
        !entry.streaming(),
    ensures
        ({
            let kept = cache.insert(entry.id@, (fingerprint, rows));
            rows_at_hand(kept, entry, fingerprint) && kept[entry.id@].1 == rows
        }),
{
}

} // verus!
