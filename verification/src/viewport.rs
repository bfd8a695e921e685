//! Where a chat was scrolled to, and finding that place again.
use vstd::hash_map::StringHashMap;
use vstd::prelude::*;

use crate::rows::Row;

verus! {

/// A length on screen, by the bits of its 32-bit float. Lengths are carried and
/// compared, not computed with.
#[derive(Clone, Copy, PartialEq, Eq, Structural, Debug)]
pub struct Px {
    pub bits: u32,
}

/// No length.
pub open spec fn no_px() -> Px {
    Px { bits: 0 }
}

impl Px {
    /// Whether the bits are those of no number.
    pub open spec fn is_nan(self) -> bool {
        0x7f80_0000 < self.bits < 0x8000_0000 || self.bits > 0xff80_0000
    }

    /// Where the length stands among all lengths: the bits of a positive float
    /// grow with it, those of a negative one with its size, and both zeros are
    /// the same.
    pub open spec fn rank(self) -> int {
        if self.bits < 0x8000_0000 {
            self.bits as int
        } else {
            0x8000_0000 - self.bits
        }
    }

    /// Whether one length is less than another, as floats compare.
    pub open spec fn less(self, other: Px) -> bool {
        !self.is_nan() && !other.is_nan() && self.rank() < other.rank()
    }

    /// Whether one length is at most another, as floats compare.
    pub open spec fn at_most(self, other: Px) -> bool {
        !self.is_nan() && !other.is_nan() && self.rank() <= other.rank()
    }

    fn no_number(self) -> (r: bool)
        ensures
            r == self.is_nan(),
    {
        (0x7f80_0000 < self.bits && self.bits < 0x8000_0000) || self.bits > 0xff80_0000
    }

    fn place(self) -> (r: i64)
        ensures
            r == self.rank(),
    {
        if self.bits < 0x8000_0000 {
            self.bits as i64
        } else {
            0x8000_0000i64 - self.bits as i64
        }
    }

    /// Whether the length is less than `other`.
    pub fn lt(self, other: Px) -> (r: bool)
        ensures
            r == self.less(other),
    {
        !self.no_number() && !other.no_number() && self.place() < other.place()
    }

    /// Whether the length is at most `other`.
    pub fn le(self, other: Px) -> (r: bool)
        ensures
            r == self.at_most(other),
    {
        !self.no_number() && !other.no_number() && self.place() <= other.place()
    }
}

/// A place in the row list: a row, and how far into it.
#[derive(Clone, Copy, PartialEq, Eq, Structural, Debug)]
pub struct ListOffset {
    pub item_ix: usize,
    pub offset_in_item: Px,
}

/// The most recent turn sent from here, while space is kept for its reply.
pub struct OwnTurnAnchor {
    pub chat_id: String,
    pub message_id: String,
    /// The space kept below the prompt.
    pub runway: Px,
    /// The prompt is being glided to or held at the top.
    pub held: bool,
    /// The glide has landed.
    pub positioned: bool,
    /// The prompt has shown up among the rows.
    pub seen_prompt: bool,
}

/// What an [`OwnTurnAnchor`] holds.
#[verifier::ext_equal]
pub struct TurnView {
    pub chat_id: Seq<char>,
    pub message_id: Seq<char>,
    pub runway: Px,
    pub held: bool,
    pub positioned: bool,
    pub seen_prompt: bool,
}

impl View for OwnTurnAnchor {
    type V = TurnView;

    open spec fn view(&self) -> TurnView {
        TurnView {
            chat_id: self.chat_id@,
            message_id: self.message_id@,
            runway: self.runway,
            held: self.held,
            positioned: self.positioned,
            seen_prompt: self.seen_prompt,
        }
    }
}

/// What an optional turn holds.
pub open spec fn opt_turn(t: Option<OwnTurnAnchor>) -> Option<TurnView> {
    match t {
        Some(t) => Some(t@),
        None => None,
    }
}

/// A turn as it comes back with a restored viewport: nothing is held, so
/// revisiting a chat follows no output.
pub open spec fn released(t: TurnView) -> TurnView {
    TurnView { held: false, positioned: false, seen_prompt: true, ..t }
}

impl Clone for OwnTurnAnchor {
    fn clone(&self) -> (r: Self)
        ensures
            r == *self,
    {
        OwnTurnAnchor {
            chat_id: self.chat_id.clone(),
            message_id: self.message_id.clone(),
            runway: self.runway,
            held: self.held,
            positioned: self.positioned,
            seen_prompt: self.seen_prompt,
        }
    }
}

impl OwnTurnAnchor {
    /// The turn as it comes back with a restored viewport.
    pub fn released_for_restore(self) -> (r: Self)
        ensures
            r@ == released(self@),
    {
        let mut t = self;
        t.held = false;
        t.positioned = false;
        t.seen_prompt = true;
        t
    }

    /// Notes whether the prompt is among the rows, and returns whether the turn
    /// lives on: before its prompt first shows up it waits, afterwards it ends
    /// when the prompt is gone.
    pub fn observe_prompt(&mut self, present: bool) -> (r: bool)
        ensures
            final(self)@ == (TurnView {
                seen_prompt: old(self)@.seen_prompt || present,
                ..old(self)@
            }),
            r == (present || !old(self)@.seen_prompt),
    {
        if present {
            self.seen_prompt = true;
        }
        present || !self.seen_prompt
    }
}

// ---------------------------------------------------------------------------
// Anchors
// ---------------------------------------------------------------------------

/// A row to come back to. Its id counts for more than its index, since rows
/// come and go while a chat is away.
pub struct ViewportAnchor {
    pub row_id: String,
    pub entry_id: String,
    pub fallback_ix: usize,
    pub offset_in_row: Px,
}

/// What a [`ViewportAnchor`] holds.
#[verifier::ext_equal]
pub struct AnchorView {
    pub row_id: Seq<char>,
    pub entry_id: Seq<char>,
    pub fallback_ix: usize,
    pub offset_in_row: Px,
}

impl View for ViewportAnchor {
    type V = AnchorView;

    open spec fn view(&self) -> AnchorView {
        AnchorView {
            row_id: self.row_id@,
            entry_id: self.entry_id@,
            fallback_ix: self.fallback_ix,
            offset_in_row: self.offset_in_row,
        }
    }
}

impl Clone for ViewportAnchor {
    fn clone(&self) -> (r: Self)
        ensures
            r == *self,
    {
        ViewportAnchor {
            row_id: self.row_id.clone(),
            entry_id: self.entry_id.clone(),
            fallback_ix: self.fallback_ix,
            offset_in_row: self.offset_in_row,
        }
    }
}

/// The index of the first row of this id.
pub open spec fn position_of(rows: Seq<crate::rows::RowView>, id: Seq<char>) -> Option<nat>
    decreases rows.len(),
{
    if rows.len() == 0 {
        None
    } else {
        match position_of(rows.drop_last(), id) {
            Some(i) => Some(i),
            None => if rows.last().id == id {
                Some((rows.len() - 1) as nat)
            } else {
                None
            },
        }
    }
}

/// How far apart two indices are.
pub open spec fn apart(a: int, b: int) -> int {
    if a >= b {
        a - b
    } else {
        b - a
    }
}

/// The index of the entry's row nearest to `at`, the first of two as near.
pub open spec fn nearest_of(
    rows: Seq<crate::rows::RowView>,
    entry_id: Seq<char>,
    at: usize,
) -> Option<nat>
    decreases rows.len(),
{
    if rows.len() == 0 {
        None
    } else {
        let before = nearest_of(rows.drop_last(), entry_id, at);
        let ix = (rows.len() - 1) as nat;
        if rows.last().entry_id != entry_id {
            before
        } else {
            match before {
                Some(i) if apart(i as int, at as int) <= apart(ix as int, at as int) => before,
                _ => Some(ix),
            }
        }
    }
}

/// The lesser of two.
pub open spec fn least(a: int, b: int) -> int {
    if a <= b {
        a
    } else {
        b
    }
}

/// The anchor for a place among `rows`: the row there, or the last one.
pub open spec fn anchored(
    rows: Seq<crate::rows::RowView>,
    at: ListOffset,
) -> Option<AnchorView> {
    if rows.len() == 0 {
        None
    } else {
        let ix = least(at.item_ix as int, rows.len() - 1);
        Some(
            AnchorView {
                row_id: rows[ix].id,
                entry_id: rows[ix].entry_id,
                fallback_ix: ix as usize,
                offset_in_row: at.offset_in_item,
            },
        )
    }
}

/// Where the anchor's own row stands now.
pub open spec fn found_exact(
    a: AnchorView,
    rows: Seq<crate::rows::RowView>,
) -> Option<ListOffset> {
    match position_of(rows, a.row_id) {
        Some(i) => Some(
            ListOffset { item_ix: i as usize, offset_in_item: a.offset_in_row },
        ),
        None => None,
    }
}

/// Where the anchor points now: to its row; else to the top of the nearest row
/// of its entry; else to the top of the row at its index, or the last one.
pub open spec fn found(a: AnchorView, rows: Seq<crate::rows::RowView>) -> Option<ListOffset> {
    match found_exact(a, rows) {
        Some(o) => Some(o),
        None => if rows.len() == 0 {
            None
        } else {
            Some(
                ListOffset {
                    item_ix: match nearest_of(rows, a.entry_id, a.fallback_ix) {
                        Some(i) => i as usize,
                        None => least(a.fallback_ix as int, rows.len() - 1) as usize,
                    },
                    offset_in_item: no_px(),
                },
            )
        },
    }
}

/// The row found is the first of its id, and none is found only where there is none.
pub proof fn lemma_position(rows: Seq<crate::rows::RowView>, id: Seq<char>)
    ensures
        position_of(rows, id) matches Some(i) ==> i < rows.len() && rows[i as int].id == id && (
        forall|j: int| 0 <= j < i ==> (#[trigger] rows[j]).id != id),
        position_of(rows, id) is None ==> (forall|j: int|
            0 <= j < rows.len() ==> (#[trigger] rows[j]).id != id),
    decreases rows.len(),
{
    if rows.len() > 0 {
        let d = rows.drop_last();
        lemma_position(d, id);
        assert forall|j: int| 0 <= j < d.len() implies (#[trigger] rows[j]).id == d[j].id by {}
        if position_of(rows, id) is None {
            assert forall|j: int| 0 <= j < rows.len() implies (#[trigger] rows[j]).id != id by {
                if j < d.len() {
                    assert(d[j].id != id);
                }
            }
        } else {
            let i = position_of(rows, id)->0;
            assert forall|j: int| 0 <= j < i implies (#[trigger] rows[j]).id != id by {
                assert(d[j].id != id);
            }
        }
    }
}

/// The first row of an id.
pub fn find_row(rows: &Vec<Row>, id: &String) -> (r: Option<usize>)
    ensures
        match r {
            Some(i) => position_of(crate::rows::row_views(rows@), id@) == Some(i as nat),
            None => position_of(crate::rows::row_views(rows@), id@) is None,
        },
        r matches Some(i) ==> i < rows@.len(),
{
    let ghost views = crate::rows::row_views(rows@);
    let mut i: usize = 0;
    while i < rows.len()
        invariant
            i <= rows@.len(),
            views == crate::rows::row_views(rows@),
            position_of(views.take(i as int), id@) is None,
        decreases rows.len() - i,
    {
        assert(views.take(i + 1).drop_last() =~= views.take(i as int));
        assert(views.take(i + 1).last() == rows@[i as int]@);
        if rows[i].id == *id {
            proof {
                lemma_position(views.take(i + 1), id@);
                lemma_position(views, id@);
                let p = position_of(views, id@);
                assert(views[i as int].id == id@);
                assert(p is Some);
                if p->0 < i {
                    assert(views.take(i + 1)[p->0 as int].id != id@);
                } else if p->0 > i {
                    assert(views[i as int].id != id@);
                }
            }
            return Some(i);
        }
        i = i + 1;
    }
    assert(views.take(i as int) =~= views);
    None
}

/// How far apart two indices are.
fn distance(a: usize, b: usize) -> (r: usize)
    ensures
        r == apart(a as int, b as int),
{
    if a >= b {
        a - b
    } else {
        b - a
    }
}

/// The row of an entry nearest to an index.
fn find_nearest(rows: &Vec<Row>, entry_id: &String, at: usize) -> (r: Option<usize>)
    ensures
        match r {
            Some(i) => nearest_of(crate::rows::row_views(rows@), entry_id@, at) == Some(i as nat),
            None => nearest_of(crate::rows::row_views(rows@), entry_id@, at) is None,
        },
{
    let ghost views = crate::rows::row_views(rows@);
    let mut best: Option<usize> = None;
    let mut i: usize = 0;
    while i < rows.len()
        invariant
            i <= rows@.len(),
            views == crate::rows::row_views(rows@),
            match best {
                Some(b) => b < i && nearest_of(views.take(i as int), entry_id@, at) == Some(
                    b as nat,
                ),
                None => nearest_of(views.take(i as int), entry_id@, at) is None,
            },
        decreases rows.len() - i,
    {
        assert(views.take(i + 1).drop_last() =~= views.take(i as int));
        assert(views.take(i + 1).last() == rows@[i as int]@);
        if rows[i].entry_id == *entry_id {
            let closer = match best {
                Some(b) => distance(i, at) < distance(b, at),
                None => true,
            };
            if closer {
                best = Some(i);
            }
        }
        i = i + 1;
    }
    assert(views.take(i as int) =~= views);
    best
}

impl ViewportAnchor {
    /// The anchor for a place among `rows`, nothing where there are none.
    pub fn capture(rows: &Vec<Row>, scroll_top: ListOffset) -> (r: Option<Self>)
        ensures
            match r {
                Some(a) => anchored(crate::rows::row_views(rows@), scroll_top) == Some(a@),
                None => anchored(crate::rows::row_views(rows@), scroll_top) is None,
            },
    {
        if rows.len() == 0 {
            return None;
        }
        let last: usize = rows.len() - 1;
        let ix: usize = if scroll_top.item_ix <= last {
            scroll_top.item_ix
        } else {
            last
        };
        let row = &rows[ix];
        assert(crate::rows::row_views(rows@)[ix as int] == row@);
        Some(
            ViewportAnchor {
                row_id: row.id.clone(),
                entry_id: row.entry_id.clone(),
                fallback_ix: ix,
                offset_in_row: scroll_top.offset_in_item,
            },
        )
    }

    /// Where the anchor's own row stands now.
    pub fn resolve_exact(&self, rows: &Vec<Row>) -> (r: Option<ListOffset>)
        ensures
            r == found_exact(self@, crate::rows::row_views(rows@)),
    {
        match find_row(rows, &self.row_id) {
            Some(i) => Some(ListOffset { item_ix: i, offset_in_item: self.offset_in_row }),
            None => None,
        }
    }

    /// Where the anchor points now.
    pub fn resolve(&self, rows: &Vec<Row>) -> (r: Option<ListOffset>)
        ensures
            r == found(self@, crate::rows::row_views(rows@)),
    {
        if let Some(o) = self.resolve_exact(rows) {
            return Some(o);
        }
        if rows.len() == 0 {
            return None;
        }
        let last: usize = rows.len() - 1;
        let item_ix: usize = match find_nearest(rows, &self.entry_id, self.fallback_ix) {
            Some(i) => i,
            None => if self.fallback_ix <= last {
                self.fallback_ix
            } else {
                last
            },
        };
        Some(ListOffset { item_ix, offset_in_item: Px { bits: 0 } })
    }
}

// ---------------------------------------------------------------------------
// Saved viewports
// ---------------------------------------------------------------------------

/// What is remembered of a chat's viewport.
pub enum SavedViewport {
    /// It followed its end.
    FollowTail,
    /// It stood somewhere.
    Anchored {
        anchor: ViewportAnchor,
        distance_from_bottom: Px,
        own_turn: Option<OwnTurnAnchor>,
    },
}

/// What a [`SavedViewport`] holds.
#[verifier::ext_equal]
pub enum SavedView {
    FollowTail,
    Anchored { anchor: AnchorView, distance_from_bottom: Px, own_turn: Option<TurnView> },
}

impl View for SavedViewport {
    type V = SavedView;

    open spec fn view(&self) -> SavedView {
        match self {
            SavedViewport::FollowTail => SavedView::FollowTail,
            SavedViewport::Anchored { anchor, distance_from_bottom, own_turn } => {
                SavedView::Anchored {
                    anchor: anchor@,
                    distance_from_bottom: *distance_from_bottom,
                    own_turn: opt_turn(*own_turn),
                }
            },
        }
    }
}

/// A copy of an optional turn.
pub fn copy_turn(t: &Option<OwnTurnAnchor>) -> (r: Option<OwnTurnAnchor>)
    ensures
        r == *t,
{
    match t {
        Some(t) => Some(t.clone()),
        None => None,
    }
}

impl Clone for SavedViewport {
    fn clone(&self) -> (r: Self)
        ensures
            r == *self,
    {
        match self {
            SavedViewport::FollowTail => SavedViewport::FollowTail,
            SavedViewport::Anchored { anchor, distance_from_bottom, own_turn } => {
                SavedViewport::Anchored {
                    anchor: anchor.clone(),
                    distance_from_bottom: *distance_from_bottom,
                    own_turn: copy_turn(own_turn),
                }
            },
        }
    }
}

/// A viewport as it comes back.
pub struct RestoredViewport {
    pub offset: ListOffset,
    pub distance_from_bottom: Px,
    pub own_turn: Option<OwnTurnAnchor>,
}

/// What a [`RestoredViewport`] holds.
#[verifier::ext_equal]
pub struct RestoredView {
    pub offset: ListOffset,
    pub distance_from_bottom: Px,
    pub own_turn: Option<TurnView>,
}

impl View for RestoredViewport {
    type V = RestoredView;

    open spec fn view(&self) -> RestoredView {
        RestoredView {
            offset: self.offset,
            distance_from_bottom: self.distance_from_bottom,
            own_turn: opt_turn(self.own_turn),
        }
    }
}

/// Whether the prompt of this entry is among the rows.
pub open spec fn prompt_shown(rows: Seq<crate::rows::RowView>, message_id: Seq<char>) -> bool {
    exists|i: int|
        0 <= i < rows.len() && (#[trigger] rows[i]).turn_start && rows[i].entry_id == message_id
}

/// What is remembered of a viewport: nothing where there are no rows, the end
/// where it was followed, else the place.
pub open spec fn saved(
    rows: Seq<crate::rows::RowView>,
    at: ListOffset,
    pinned: bool,
    distance: Px,
    turn: Option<TurnView>,
) -> Option<SavedView> {
    if rows.len() == 0 {
        None
    } else if pinned {
        Some(SavedView::FollowTail)
    } else {
        Some(
            SavedView::Anchored {
                anchor: anchored(rows, at)->0,
                distance_from_bottom: distance,
                own_turn: turn,
            },
        )
    }
}

/// The turn that comes back: only where its prompt is among the rows, and
/// released.
pub open spec fn turn_back(
    rows: Seq<crate::rows::RowView>,
    turn: Option<TurnView>,
) -> Option<TurnView> {
    match turn {
        Some(t) if prompt_shown(rows, t.message_id) => Some(released(t)),
        _ => None,
    }
}

/// The viewport that comes back. Without fallback only the very row counts.
pub open spec fn restored(
    v: SavedView,
    rows: Seq<crate::rows::RowView>,
    fallback: bool,
) -> Option<RestoredView> {
    match v {
        SavedView::FollowTail => None,
        SavedView::Anchored { anchor, distance_from_bottom, own_turn } => {
            match if fallback {
                found(anchor, rows)
            } else {
                found_exact(anchor, rows)
            } {
                Some(offset) => Some(
                    RestoredView {
                        offset,
                        distance_from_bottom,
                        own_turn: turn_back(rows, own_turn),
                    },
                ),
                None => None,
            }
        },
    }
}

/// Whether the prompt of this entry is among the rows.
pub fn shows_prompt(rows: &Vec<Row>, message_id: &String) -> (r: bool)
    ensures
        r == prompt_shown(crate::rows::row_views(rows@), message_id@),
{
    let ghost views = crate::rows::row_views(rows@);
    let mut i: usize = 0;
    while i < rows.len()
        invariant
            i <= rows@.len(),
            views == crate::rows::row_views(rows@),
            forall|j: int|
                0 <= j < i ==> !((#[trigger] views[j]).turn_start && views[j].entry_id
                    == message_id@),
        decreases rows.len() - i,
    {
        assert(views[i as int] == rows@[i as int]@);
        if rows[i].turn_start && rows[i].entry_id == *message_id {
            return true;
        }
        i = i + 1;
    }
    false
}

impl SavedViewport {
    /// Remembers a viewport.
    pub fn capture(
        rows: &Vec<Row>,
        scroll_top: ListOffset,
        pinned: bool,
        distance_from_bottom: Px,
        own_turn: &Option<OwnTurnAnchor>,
    ) -> (r: Option<Self>)
        ensures
            match r {
                Some(v) => saved(
                    crate::rows::row_views(rows@),
                    scroll_top,
                    pinned,
                    distance_from_bottom,
                    opt_turn(*own_turn),
                ) == Some(v@),
                None => rows@.len() == 0,
            },
    {
        if rows.len() == 0 {
            return None;
        }
        if pinned {
            return Some(SavedViewport::FollowTail);
        }
        match ViewportAnchor::capture(rows, scroll_top) {
            Some(anchor) => Some(
                SavedViewport::Anchored {
                    anchor,
                    distance_from_bottom,
                    own_turn: copy_turn(own_turn),
                },
            ),
            None => None,
        }
    }

    /// Finds the viewport again. Before a chat's history has arrived its rows
    /// may be nothing but echoes: then only the very row counts.
    pub fn resolve(&self, rows: &Vec<Row>, allow_fallback: bool) -> (r: Option<RestoredViewport>)
        ensures
            match r {
                Some(v) => restored(self@, crate::rows::row_views(rows@), allow_fallback) == Some(
                    v@,
                ),
                None => restored(self@, crate::rows::row_views(rows@), allow_fallback) is None,
            },
    {
        match self {
            SavedViewport::FollowTail => None,
            SavedViewport::Anchored { anchor, distance_from_bottom, own_turn } => {
                let at = if allow_fallback {
                    anchor.resolve(rows)
                } else {
                    anchor.resolve_exact(rows)
                };
                match at {
                    None => None,
                    Some(offset) => {
                        let turn = match own_turn {
                            Some(t) => if shows_prompt(rows, &t.message_id) {
                                Some(t.clone().released_for_restore())
                            } else {
                                None
                            },
                            None => None,
                        };
                        Some(
                            RestoredViewport {
                                offset,
                                distance_from_bottom: *distance_from_bottom,
                                own_turn: turn,
                            },
                        )
                    },
                }
            },
        }
    }
}

/// How much of a chat's history has arrived.
#[derive(Clone, Copy, PartialEq, Eq, Structural, Debug)]
pub enum TranscriptReplayState {
    Pending,
    Empty,
    Populated,
}

impl TranscriptReplayState {
    /// Whether the chat is known to be empty.
    pub fn authoritative_empty(self) -> (r: bool)
        ensures
            r == (self == TranscriptReplayState::Empty),
    {
        self == TranscriptReplayState::Empty
    }

    /// Whether a place may be guessed where its row is gone.
    pub fn allows_fallback(self) -> (r: bool)
        ensures
            r == (self == TranscriptReplayState::Populated),
    {
        self == TranscriptReplayState::Populated
    }
}

/// What a restored viewport waits on: the chat it was restored for and the
/// layout it was measured by.
#[derive(Clone, Copy, PartialEq, Eq, Structural, Debug)]
pub struct ViewportFinalizeToken {
    pub generation: u64,
    pub layout_revision: u64,
}

impl ViewportFinalizeToken {
    /// Whether the chat is still the one shown.
    pub fn still_current(self, generation: u64) -> (r: bool)
        ensures
            r == (self.generation == generation),
    {
        self.generation == generation
    }

    /// Whether no layout has come since.
    pub fn layout_settled(self, layout_revision: u64) -> (r: bool)
        ensures
            r == (self.layout_revision == layout_revision),
    {
        self.layout_revision == layout_revision
    }
}

// ---------------------------------------------------------------------------
// The cache of saved viewports
// ---------------------------------------------------------------------------

/// How many chats' viewports are remembered.
pub const MAX_SAVED_VIEWPORTS: usize = 256;

/// The viewports of the chats left last.
pub struct SavedViewportCache {
    by_chat: StringHashMap<SavedViewport>,
    recency: Vec<String>,
}

/// What a [`SavedViewportCache`] holds.
#[verifier::ext_equal]
pub struct CacheView {
    pub by_chat: Map<Seq<char>, SavedView>,
    /// The chats, the one used last at the end.
    pub recency: Seq<Seq<char>>,
}

impl View for SavedViewportCache {
    type V = CacheView;

    closed spec fn view(&self) -> CacheView {
        CacheView {
            by_chat: self.by_chat@.map_values(|v: SavedViewport| v@),
            recency: crate::text::texts(self.recency@),
        }
    }
}

/// `keys` without `key`.
pub open spec fn without(keys: Seq<Seq<char>>, key: Seq<char>) -> Seq<Seq<char>>
    decreases keys.len(),
{
    if keys.len() == 0 {
        Seq::empty()
    } else if keys.last() == key {
        without(keys.drop_last(), key)
    } else {
        without(keys.drop_last(), key).push(keys.last())
    }
}

impl CacheView {
    /// Each remembered chat is listed once, no other is listed, and there are
    /// no more than the cache holds.
    pub open spec fn wf(self) -> bool {
        &&& self.recency.no_duplicates()
        &&& forall|k: Seq<char>|
            #![trigger self.by_chat.contains_key(k)]
            self.by_chat.contains_key(k) <==> self.recency.contains(k)
        &&& self.recency.len() <= MAX_SAVED_VIEWPORTS
    }

    /// After remembering `v` for `key`: it is the one used last, and where the
    /// cache would hold too many, the one used longest ago is forgotten.
    pub open spec fn inserted(self, key: Seq<char>, v: SavedView) -> CacheView {
        let recency = without(self.recency, key).push(key);
        let by_chat = self.by_chat.insert(key, v);
        if recency.len() > MAX_SAVED_VIEWPORTS {
            CacheView { by_chat: by_chat.remove(recency[0]), recency: recency.skip(1) }
        } else {
            CacheView { by_chat, recency }
        }
    }

    /// After using the viewport of `key`, if there is one.
    pub open spec fn touched(self, key: Seq<char>) -> CacheView {
        if self.by_chat.contains_key(key) {
            CacheView { by_chat: self.by_chat, recency: without(self.recency, key).push(key) }
        } else {
            self
        }
    }
}

/// Of keys that stand once each, all others are left, once each.
pub proof fn lemma_without(keys: Seq<Seq<char>>, key: Seq<char>)
    requires
        keys.no_duplicates(),
    ensures
        without(keys, key).no_duplicates(),
        forall|k: Seq<char>| #[trigger]
            without(keys, key).contains(k) <==> keys.contains(k) && k != key,
        without(keys, key).len() == if keys.contains(key) {
            keys.len() - 1
        } else {
            keys.len() as int
        },
    decreases keys.len(),
{
    if keys.len() > 0 {
        let d = keys.drop_last();
        assert(d.no_duplicates()) by {
            assert forall|i: int, j: int| 0 <= i < d.len() && 0 <= j < d.len() && i
                != j implies d[i] != d[j] by {
                assert(keys[i] != keys[j]);
            }
        }
        lemma_without(d, key);
        let w = without(d, key);
        let r = without(keys, key);
        assert forall|k: Seq<char>| #[trigger] keys.contains(k) <==> d.contains(k) || k
            == keys.last() by {
            if keys.contains(k) {
                let i = choose|i: int| 0 <= i < keys.len() && keys[i] == k;
                if i < d.len() {
                    assert(d[i] == k);
                }
            }
            if d.contains(k) {
                let i = choose|i: int| 0 <= i < d.len() && d[i] == k;
                assert(keys[i] == k);
            }
            if k == keys.last() {
                assert(keys[keys.len() - 1] == k);
            }
        }
        assert(!d.contains(keys.last())) by {
            if d.contains(keys.last()) {
                let i = choose|i: int| 0 <= i < d.len() && d[i] == keys.last();
                assert(keys[i] == keys[keys.len() - 1]);
            }
        }
        if keys.last() != key {
            assert(r == w.push(keys.last()));
            assert forall|k: Seq<char>| #[trigger] r.contains(k) <==> w.contains(k) || k
                == keys.last() by {
                if r.contains(k) {
                    let i = choose|i: int| 0 <= i < r.len() && r[i] == k;
                    if i < w.len() {
                        assert(w[i] == k);
                    }
                }
                if w.contains(k) {
                    let i = choose|i: int| 0 <= i < w.len() && w[i] == k;
                    assert(r[i] == k);
                }
                if k == keys.last() {
                    assert(r[r.len() - 1] == k);
                }
            }
            assert forall|i: int, j: int| 0 <= i < r.len() && 0 <= j < r.len() && i
                != j implies r[i] != r[j] by {
                if i < w.len() && j < w.len() {
                } else if i < w.len() {
                    assert(w.contains(w[i]));
                } else {
                    assert(w.contains(w[j]));
                }
            }
        }
    }
}

proof fn lemma_pushed(keys: Seq<Seq<char>>, key: Seq<char>)
    requires
        keys.no_duplicates(),
    ensures
        without(keys, key).push(key).no_duplicates(),
        forall|k: Seq<char>| #[trigger]
            without(keys, key).push(key).contains(k) <==> keys.contains(k) || k == key,
        without(keys, key).push(key).len() <= keys.len() + 1,
        keys.contains(key) ==> without(keys, key).push(key).len() == keys.len(),
{
    lemma_without(keys, key);
    let w = without(keys, key);
    let r = w.push(key);
    assert forall|k: Seq<char>| #[trigger] r.contains(k) <==> w.contains(k) || k == key by {
        if r.contains(k) {
            let i = choose|i: int| 0 <= i < r.len() && r[i] == k;
            if i < w.len() {
                assert(w[i] == k);
            }
        }
        if w.contains(k) {
            let i = choose|i: int| 0 <= i < w.len() && w[i] == k;
            assert(r[i] == k);
        }
        if k == key {
            assert(r[r.len() - 1] == k);
        }
    }
    assert forall|i: int, j: int| 0 <= i < r.len() && 0 <= j < r.len() && i != j implies r[i]
        != r[j] by {
        if i < w.len() && j < w.len() {
        } else if i < w.len() {
            assert(w.contains(w[i]));
        } else {
            assert(w.contains(w[j]));
        }
    }
}

/// Remembering a viewport keeps the cache well formed, so bounded.
pub proof fn law_insert_keeps_bound(c: CacheView, key: Seq<char>, v: SavedView)
    requires
        c.wf(),
    ensures
        c.inserted(key, v).wf(),
{
    lemma_pushed(c.recency, key);
    let recency = without(c.recency, key).push(key);
    if recency.len() > MAX_SAVED_VIEWPORTS {
        let r = recency.skip(1);
        assert forall|k: Seq<char>| #[trigger] r.contains(k) <==> recency.contains(k) && k
            != recency[0] by {
            if r.contains(k) {
                let i = choose|i: int| 0 <= i < r.len() && r[i] == k;
                assert(recency[i + 1] == k);
            }
            if recency.contains(k) && k != recency[0] {
                let i = choose|i: int| 0 <= i < recency.len() && recency[i] == k;
                assert(r[i - 1] == k);
            }
        }
    }
}

/// Using a viewport keeps the cache well formed and what it remembers.
pub proof fn law_touch_keeps_contents(c: CacheView, key: Seq<char>)
    requires
        c.wf(),
    ensures
        c.touched(key).wf(),
        c.touched(key).by_chat == c.by_chat,
{
    if c.by_chat.contains_key(key) {
        lemma_pushed(c.recency, key);
    }
}

/// What was just remembered can be read back.
pub proof fn law_insert_then_get(c: CacheView, key: Seq<char>, v: SavedView)
    requires
        c.wf(),
    ensures
        c.inserted(key, v).by_chat.contains_key(key),
        c.inserted(key, v).by_chat[key] == v,
{
    lemma_pushed(c.recency, key);
    let recency = without(c.recency, key).push(key);
    if recency.len() > MAX_SAVED_VIEWPORTS {
        assert(recency[0] != recency[recency.len() - 1]);
    }
}

/// A viewport that was just used outlives the next one remembered.
pub proof fn law_touched_survives_insert(
    c: CacheView,
    key: Seq<char>,
    other: Seq<char>,
    v: SavedView,
)
    requires
        c.wf(),
        c.by_chat.contains_key(key),
        key != other,
    ensures
        c.touched(key).inserted(other, v).by_chat.contains_key(key),
        c.touched(key).inserted(other, v).by_chat[key] == c.by_chat[key],
{
    law_touch_keeps_contents(c, key);
    let t = c.touched(key);
    lemma_pushed(t.recency, other);
    let w = without(t.recency, other);
    let r = w.push(other);
    if r.len() > MAX_SAVED_VIEWPORTS {
        assert(t.recency.last() == key);
        assert(w.last() == key && w.len() >= 2) by {
            lemma_without(t.recency, other);
            assert(w == without(t.recency.drop_last(), other).push(key));
        }
        assert(r[w.len() - 1] == key);
        assert(r[0] != r[w.len() - 1]);
    }
}

/// Where the cache is full, a new viewport displaces the one used longest ago
/// and no other.
pub proof fn law_full_cache_forgets_the_oldest(
    c: CacheView,
    key: Seq<char>,
    v: SavedView,
    other: Seq<char>,
)
    requires
        c.wf(),
        c.recency.len() == MAX_SAVED_VIEWPORTS,
        !c.by_chat.contains_key(key),
        c.by_chat.contains_key(other),
    ensures
        c.inserted(key, v).by_chat.contains_key(other) == (other != c.recency[0]),
{
    lemma_without(c.recency, key);
    let w = without(c.recency, key);
    lemma_without_absent(c.recency, key);
    assert(w.push(key)[0] == c.recency[0]);
}

proof fn lemma_without_absent(keys: Seq<Seq<char>>, key: Seq<char>)
    requires
        !keys.contains(key),
    ensures
        without(keys, key) == keys,
    decreases keys.len(),
{
    if keys.len() > 0 {
        assert(keys[keys.len() - 1] == keys.last());
        assert(!keys.drop_last().contains(key)) by {
            if keys.drop_last().contains(key) {
                let i = choose|i: int| 0 <= i < keys.drop_last().len() && keys.drop_last()[i] == key;
                assert(keys[i] == key);
            }
        }
        lemma_without_absent(keys.drop_last(), key);
        assert(keys.drop_last().push(keys.last()) =~= keys);
    }
}

/// The texts without `key`.
fn retain_others(keys: &Vec<String>, key: &str) -> (r: Vec<String>)
    ensures
        crate::text::texts(r@) == without(crate::text::texts(keys@), key@),
{
    let ghost views = crate::text::texts(keys@);
    let wanted = key.to_owned();
    let mut r: Vec<String> = Vec::new();
    let mut i: usize = 0;
    assert(crate::text::texts(r@) =~= without(views.take(0), key@));
    while i < keys.len()
        invariant
            i <= keys@.len(),
            wanted@ == key@,
            views == crate::text::texts(keys@),
            crate::text::texts(r@) == without(views.take(i as int), key@),
        decreases keys.len() - i,
    {
        assert(views.take(i + 1).drop_last() =~= views.take(i as int));
        assert(views.take(i + 1).last() == keys@[i as int]@);
        if keys[i] != wanted {
            let k = keys[i].clone();
            proof {
                crate::text::lemma_texts_push(r@, k);
            }
            r.push(k);
        }
        i = i + 1;
    }
    assert(views.take(i as int) =~= views);
    r
}

/// The viewport behind an optional one.
pub open spec fn opt_saved(v: Option<SavedViewport>) -> Option<SavedView> {
    match v {
        Some(v) => Some(v@),
        None => None,
    }
}

impl Default for SavedViewportCache {
    fn default() -> (r: Self)
        ensures
            r@.wf(),
            r@ == (CacheView { by_chat: Map::empty(), recency: Seq::empty() }),
    {
        let r = SavedViewportCache { by_chat: StringHashMap::new(), recency: Vec::new() };
        assert(r@.recency =~= Seq::empty());
        assert(r@.by_chat =~= Map::empty());
        r
    }
}

impl SavedViewportCache {
    /// Remembers a chat's viewport. Where too many would be remembered, the
    /// chat used longest ago is forgotten.
    pub fn insert(&mut self, chat_id: String, viewport: SavedViewport)
        requires
            old(self)@.wf(),
        ensures
            final(self)@.wf(),
            final(self)@ == old(self)@.inserted(chat_id@, viewport@),
    {
        let ghost before = self@;
        proof {
            law_insert_keeps_bound(before, chat_id@, viewport@);
        }
        let mut recency = retain_others(&self.recency, chat_id.as_str());
        proof {
            crate::text::lemma_texts_push(recency@, chat_id);
        }
        recency.push(chat_id.clone());
        self.by_chat.insert(chat_id, viewport);
        assert(self@.by_chat =~= before.by_chat.insert(chat_id@, viewport@));
        assert(crate::text::texts(recency@).len() == recency@.len());
        if recency.len() > MAX_SAVED_VIEWPORTS {
            let ghost all = crate::text::texts(recency@);
            let evicted = recency.remove(0);
            assert(evicted@ == all[0]);
            self.by_chat.remove(evicted.as_str());
            assert(self@.by_chat =~= before.by_chat.insert(chat_id@, viewport@).remove(all[0]));
            assert(crate::text::texts(recency@) =~= all.skip(1));
        }
        self.recency = recency;
    }

    /// The chat's viewport, where it is remembered; it counts as used.
    pub fn get_cloned_and_touch(&mut self, chat_id: &str) -> (r: Option<SavedViewport>)
        requires
            old(self)@.wf(),
        ensures
            final(self)@.wf(),
            final(self)@ == old(self)@.touched(chat_id@),
            opt_saved(r) == if old(self)@.by_chat.contains_key(chat_id@) {
                Some(old(self)@.by_chat[chat_id@])
            } else {
                None
            },
    {
        let ghost before = self@;
        proof {
            law_touch_keeps_contents(before, chat_id@);
        }
        let viewport = match self.by_chat.get(chat_id) {
            Some(v) => v.clone(),
            None => {
                return None;
            },
        };
        let mut recency = retain_others(&self.recency, chat_id);
        let id = chat_id.to_owned();
        proof {
            crate::text::lemma_texts_push(recency@, id);
        }
        recency.push(id);
        self.recency = recency;
        Some(viewport)
    }

    /// Whether the chat's viewport is remembered.
    pub fn contains(&self, chat_id: &str) -> (r: bool)
        ensures
            r == self@.by_chat.contains_key(chat_id@),
    {
        self.by_chat.contains_key(chat_id)
    }

    /// How many viewports are remembered.
    pub fn len(&self) -> (r: usize)
        requires
            self@.wf(),
        ensures
            r == self@.recency.len(),
    {
        assert(self@.recency.len() == self.recency@.len());
        self.recency.len()
    }
}

// ---------------------------------------------------------------------------
// Anchors find their way back
// ---------------------------------------------------------------------------

/// An anchor taken from rows of distinct ids points back to its place in them.
pub proof fn law_anchor_round_trip(rows: Seq<crate::rows::RowView>, at: ListOffset)
    requires
        at.item_ix < rows.len() <= usize::MAX,
        forall|i: int, j: int|
            0 <= i < rows.len() && 0 <= j < rows.len() && i != j ==> (#[trigger] rows[i]).id
                != (#[trigger] rows[j]).id,
    ensures
        anchored(rows, at) is Some,
        found_exact(anchored(rows, at)->0, rows) == Some(at),
        found(anchored(rows, at)->0, rows) == Some(at),
{
    lemma_position(rows, rows[at.item_ix as int].id);
}

/// An anchor whose row is still there points to it, wherever it moved, and to
/// the same place inside it.
pub proof fn law_anchor_follows_its_row(a: AnchorView, rows: Seq<crate::rows::RowView>, ix: int)
    requires
        0 <= ix < rows.len() <= usize::MAX,
        rows[ix].id == a.row_id,
    ensures
        found(a, rows) matches Some(o) && o.item_ix < rows.len() && rows[o.item_ix as int].id
            == a.row_id && o.offset_in_item == a.offset_in_row,
{
    lemma_position(rows, a.row_id);
}

/// The row found is of the entry, and none is found only where the entry has none.
pub proof fn lemma_nearest(rows: Seq<crate::rows::RowView>, entry_id: Seq<char>, at: usize)
    ensures
        nearest_of(rows, entry_id, at) matches Some(i) ==> i < rows.len() && rows[i as int].entry_id
            == entry_id,
        nearest_of(rows, entry_id, at) is None ==> (forall|j: int|
            0 <= j < rows.len() ==> (#[trigger] rows[j]).entry_id != entry_id),
    decreases rows.len(),
{
    if rows.len() > 0 {
        let d = rows.drop_last();
        lemma_nearest(d, entry_id, at);
        if nearest_of(rows, entry_id, at) is None {
            assert forall|j: int| 0 <= j < rows.len() implies (#[trigger] rows[j]).entry_id
                != entry_id by {
                if j < d.len() {
                    assert(d[j].entry_id != entry_id);
                }
            }
        }
    }
}

/// An anchor whose row is gone stays in its entry, as long as the entry has a
/// row left.
pub proof fn law_anchor_stays_in_its_entry(
    a: AnchorView,
    rows: Seq<crate::rows::RowView>,
    ix: int,
)
    requires
        0 <= ix < rows.len() <= usize::MAX,
        rows[ix].entry_id == a.entry_id,
        found_exact(a, rows) is None,
    ensures
        found(a, rows) matches Some(o) && o.item_ix < rows.len() && rows[o.item_ix as int].entry_id
            == a.entry_id && o.offset_in_item == no_px(),
{
    lemma_nearest(rows, a.entry_id, a.fallback_ix);
}

/// A restored viewport always points into the rows.
pub proof fn law_restored_is_in_range(
    v: SavedView,
    rows: Seq<crate::rows::RowView>,
    fallback: bool,
)
    requires
        rows.len() <= usize::MAX,
    ensures
        restored(v, rows, fallback) matches Some(r) ==> r.offset.item_ix < rows.len(),
{
    if let SavedView::Anchored { anchor, .. } = v {
        lemma_position(rows, anchor.row_id);
        lemma_nearest(rows, anchor.entry_id, anchor.fallback_ix);
    }
}

/// A restored turn holds nothing and has its prompt among the rows.
pub proof fn law_restored_turn_is_released(
    v: SavedView,
    rows: Seq<crate::rows::RowView>,
    fallback: bool,
)
    ensures
        restored(v, rows, fallback) matches Some(r) ==> (r.own_turn matches Some(t) ==> !t.held
            && !t.positioned && t.seen_prompt && prompt_shown(rows, t.message_id)),
{
}

} // verus!
