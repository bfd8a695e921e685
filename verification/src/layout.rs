//! The widths of the panes, and the glide of a list that was sorted anew.
//!
//! Lengths are in sixty-fourths of a pixel.
use vstd::hash_map::StringHashMap;
use vstd::prelude::*;

verus! {

/// Half a pixel: what moves no further does not glide.
pub const HALF_PIXEL: i128 = 32;

/// The narrowest that a conversation gets by hand: 300 pixels.
pub const CHAT_PANEL_MIN: i64 = 19200;

/// The greater of two lengths.
pub open spec fn longer(a: int, b: int) -> int {
    if a >= b {
        a
    } else {
        b
    }
}

/// The width that a pane's content keeps while the pane moves: the larger end
/// of the move.
pub fn stable_panel_content_width(target: i32, transition: Option<(i32, i32)>) -> (r: i32)
    ensures
        r as int == match transition {
            Some((from, to)) => longer(from as int, to as int),
            None => target as int,
        },
{
    match transition {
        Some((from, to)) => if from >= to {
            from
        } else {
            to
        },
        None => target,
    }
}

/// The width of the right pane's content: in a takeover it follows the move.
pub fn right_panel_content_width(
    target: i32,
    transition: Option<(i32, i32)>,
    takeover_width: Option<i32>,
) -> (r: i32)
    ensures
        r as int == match (takeover_width, transition) {
            (Some(w), _) => w as int,
            (None, Some((from, to))) => longer(from as int, to as int),
            (None, None) => target as int,
        },
{
    match takeover_width {
        Some(w) => w,
        None => stable_panel_content_width(target, transition),
    }
}

/// What two panes leave of a viewport.
pub open spec fn rest_of(viewport: i32, a: i32, b: i64) -> int {
    longer(viewport - a - b, 0)
}

/// The width that the panes leave to the conversation.
pub fn conversation_width(viewport: i32, sidebar: i32, right: i32) -> (r: i64)
    ensures
        r as int == rest_of(viewport, sidebar, right as i64),
{
    let w: i64 = viewport as i64 - sidebar as i64 - right as i64;
    if w >= 0 {
        w
    } else {
        0
    }
}

/// The widest that the right pane gets by hand: a usable conversation stays,
/// even where the pane falls below the width it would like.
pub fn right_pane_max_width(viewport: i32, sidebar: i32) -> (r: i64)
    ensures
        r as int == rest_of(viewport, sidebar, CHAT_PANEL_MIN),
{
    let w: i64 = viewport as i64 - sidebar as i64 - CHAT_PANEL_MIN;
    if w >= 0 {
        w
    } else {
        0
    }
}

/// The width of a right pane that takes the conversation's place.
pub fn right_pane_takeover_width(viewport: i32, sidebar: i32) -> (r: i64)
    ensures
        r as int == rest_of(viewport, sidebar, 0),
{
    let w: i64 = viewport as i64 - sidebar as i64;
    if w >= 0 {
        w
    } else {
        0
    }
}

/// The width of the right pane that the user drags its edge to: within its
/// least width and its most, where there is room for both.
pub open spec fn dragged(width: i64, least: i64, most: i64) -> i64 {
    if most < least {
        most
    } else if width < least {
        least
    } else if width > most {
        most
    } else {
        width
    }
}

/// The width of the right pane after a drag of its edge to `x`.
pub fn right_pane_drag_width(viewport: i32, sidebar: i32, x: i32, least: i64) -> (r: i64)
    ensures
        r == dragged(
            (viewport - x) as i64,
            least,
            rest_of(viewport, sidebar, CHAT_PANEL_MIN) as i64,
        ),
{
    let width: i64 = viewport as i64 - x as i64;
    let most: i64 = right_pane_max_width(viewport, sidebar);
    if most < least {
        most
    } else if width < least {
        least
    } else if width > most {
        most
    } else {
        width
    }
}

/// The width that the right pane goes to.
pub open spec fn right_goal(open: bool, expanded: bool, saved: i64, viewport: i32, sidebar: i32) -> int {
    if !open {
        0
    } else if expanded {
        rest_of(viewport, sidebar, 0)
    } else if saved <= rest_of(viewport, sidebar, CHAT_PANEL_MIN) {
        saved as int
    } else {
        rest_of(viewport, sidebar, CHAT_PANEL_MIN)
    }
}

/// The width that the right pane goes to: nothing while it is closed, all that
/// the sidebar leaves in a takeover, else what the user gave it as far as there
/// is room.
pub fn right_target(open: bool, expanded: bool, saved: i64, viewport: i32, sidebar: i32) -> (r: i64)
    ensures
        r as int == right_goal(open, expanded, saved, viewport, sidebar),
{
    if !open {
        return 0;
    }
    if expanded {
        return right_pane_takeover_width(viewport, sidebar);
    }
    let most = right_pane_max_width(viewport, sidebar);
    if saved <= most {
        saved
    } else {
        most
    }
}

/// The height that the terminal drawer goes to.
pub fn terminal_target(open: bool, saved: i64) -> (r: i64)
    ensures
        r == if open {
            saved
        } else {
            0
        },
{
    if open {
        saved
    } else {
        0
    }
}

/// The height that a drag of the terminal drawer's edge asks for, where a drag
/// goes on: the height it began with, and what the pointer rose since. `anchor`
/// is the pointer's and the drawer's height at the beginning.
pub fn terminal_drag_height(anchor: Option<(i32, i32)>, y: i32) -> (r: Option<i64>)
    ensures
        match anchor {
            Some((from, height)) => r is Some && r->0 as int == height + (from - y),
            None => r is None,
        },
{
    match anchor {
        Some((from, height)) => Some(height as i64 + (from as i64 - y as i64)),
        None => None,
    }
}

/// What the terminal drawer needs in order to show.
#[derive(Debug, Clone, Copy, PartialEq, Eq, Structural)]
pub enum DrawerStep {
    /// It has no height.
    Hidden,
    /// It is open and has no terminal yet.
    Create,
    /// It shows its terminal.
    Show,
}

/// How the terminal drawer shows: it keeps its place while it still moves.
pub fn drawer_step(open: bool, target: i64, moving: bool, has_terminal: bool) -> (r: DrawerStep)
    ensures
        r == if target <= 0 && !moving {
            DrawerStep::Hidden
        } else if has_terminal {
            DrawerStep::Show
        } else if open {
            DrawerStep::Create
        } else {
            DrawerStep::Hidden
        },
{
    if target <= 0 && !moving {
        DrawerStep::Hidden
    } else if has_terminal {
        DrawerStep::Show
    } else if open {
        DrawerStep::Create
    } else {
        DrawerStep::Hidden
    }
}

/// Whether a measured row reaches more than half a pixel below a line.
pub open spec fn reaches_below(bounds: Option<(i32, i32)>, top: int) -> bool {
    bounds matches Some((_, bottom)) && bottom > top + HALF_PIXEL
}

/// The first row that reaches below the viewport's top, and how much of it lies
/// above: the place that a list glued to its end stands at. `bounds` holds the
/// top and the bottom of each row that is measured.
pub fn materialize_scroll_anchor(bounds: &Vec<Option<(i32, i32)>>, viewport_top: i32) -> (r: Option<
    (usize, i64),
>)
    ensures
        match r {
            Some((ix, offset)) => {
                &&& ix < bounds@.len()
                &&& reaches_below(bounds@[ix as int], viewport_top as int)
                &&& forall|i: int|
                    0 <= i < ix ==> !reaches_below(#[trigger] bounds@[i], viewport_top as int)
                &&& bounds@[ix as int] matches Some((top, _)) && offset as int == viewport_top - top
            },
            None => forall|i: int|
                0 <= i < bounds@.len() ==> !reaches_below(
                    #[trigger] bounds@[i],
                    viewport_top as int,
                ),
        },
{
    let mut i: usize = 0;
    while i < bounds.len()
        invariant
            i <= bounds@.len(),
            forall|k: int|
                0 <= k < i ==> !reaches_below(#[trigger] bounds@[k], viewport_top as int),
        decreases bounds@.len() - i,
    {
        if let Some((top, bottom)) = bounds[i] {
            if bottom as i128 > viewport_top as i128 + HALF_PIXEL {
                return Some((i, viewport_top as i64 - top as i64));
            }
        }
        i += 1;
    }
    None
}

/// The space above a prompt just sent: none above the first row.
pub fn own_send_inset(anchor_ix: usize, inset: i32) -> (r: i32)
    ensures
        r == if anchor_ix == 0 {
            0
        } else {
            inset
        },
{
    if anchor_ix == 0 {
        0
    } else {
        inset
    }
}

/// By hand the right pane never takes the conversation below its least width
/// where the window has that much, and a takeover leaves it nothing.
pub proof fn law_conversation_stays_usable(
    expanded: bool,
    saved: i64,
    viewport: i32,
    sidebar: i32,
)
    requires
        sidebar <= viewport,
    ensures
        !expanded && viewport - sidebar >= CHAT_PANEL_MIN ==> viewport - sidebar - right_goal(
            true,
            expanded,
            saved,
            viewport,
            sidebar,
        ) >= CHAT_PANEL_MIN,
        expanded ==> viewport - sidebar - right_goal(true, expanded, saved, viewport, sidebar) == 0,
{
}

// ---------------------------------------------------------------------------
// The sorted list
// ---------------------------------------------------------------------------

/// Where a row starts: under the rows before it and the gaps between them.
pub open spec fn top_of(rows: Seq<(String, i32)>, gap: i32, ix: nat) -> int
    decreases ix,
{
    if ix == 0 {
        0
    } else {
        top_of(rows, gap, (ix - 1) as nat) + rows[ix - 1].1 + gap
    }
}

/// Where each key's row starts, the later of two rows with one key.
pub open spec fn tops(rows: Seq<(String, i32)>, gap: i32, upto: nat) -> Map<Seq<char>, int>
    decreases upto,
{
    if upto == 0 {
        Map::empty()
    } else {
        tops(rows, gap, (upto - 1) as nat).insert(
            rows[upto - 1].0@,
            top_of(rows, gap, (upto - 1) as nat),
        )
    }
}

/// Whether a row moved far enough to glide.
pub open spec fn glides(dy: int) -> bool {
    dy > HALF_PIXEL || -dy > HALF_PIXEL
}

/// How far above or below its new place each row that stays started.
pub open spec fn offsets(
    was: Map<Seq<char>, int>,
    rows: Seq<(String, i32)>,
    gap: i32,
    upto: nat,
) -> Map<Seq<char>, int>
    decreases upto,
{
    if upto == 0 {
        Map::empty()
    } else {
        let before = offsets(was, rows, gap, (upto - 1) as nat);
        let key = rows[upto - 1].0@;
        let dy = was[key] - top_of(rows, gap, (upto - 1) as nat);
        if was.contains_key(key) && glides(dy) {
            before.insert(key, dy)
        } else {
            before
        }
    }
}

/// What a map of lengths holds.
pub open spec fn lengths(m: Map<Seq<char>, i128>) -> Map<Seq<char>, int> {
    m.map_values(|v: i128| v as int)
}

proof fn lemma_top_bound(rows: Seq<(String, i32)>, gap: i32, ix: nat)
    requires
        ix <= rows.len(),
    ensures
        -0x1_0000_0000 * ix <= top_of(rows, gap, ix) <= 0x1_0000_0000 * ix,
    decreases ix,
{
    if ix > 0 {
        lemma_top_bound(rows, gap, (ix - 1) as nat);
    }
}

fn row_tops(rows: &Vec<(String, i32)>, gap: i32) -> (r: StringHashMap<i128>)
    ensures
        lengths(r@) == tops(rows@, gap, rows@.len()),
{
    let mut m: StringHashMap<i128> = StringHashMap::new();
    let mut y: i128 = 0;
    let mut i: usize = 0;
    assert(lengths(m@) =~= Map::empty());
    while i < rows.len()
        invariant
            i <= rows@.len(),
            lengths(m@) == tops(rows@, gap, i as nat),
            y == top_of(rows@, gap, i as nat),
        decreases rows.len() - i,
    {
        let ghost before = m@;
        proof {
            lemma_top_bound(rows@, gap, i as nat);
        }
        m.insert(rows[i].0.clone(), y);
        assert(lengths(m@) =~= lengths(before).insert(rows@[i as int].0@, y as int));
        y = y + rows[i].1 as i128 + gap as i128;
        i = i + 1;
    }
    m
}

/// How far above or below its new place each row of a list that was sorted anew
/// starts, for the rows that stay and move by more than half a pixel.
pub fn resort_offsets(old: &Vec<(String, i32)>, new: &Vec<(String, i32)>, gap: i32) -> (r:
    StringHashMap<i128>)
    ensures
        lengths(r@) == offsets(tops(old@, gap, old@.len()), new@, gap, new@.len()),
{
    let was = row_tops(old, gap);
    let ghost before = tops(old@, gap, old@.len());
    let mut m: StringHashMap<i128> = StringHashMap::new();
    let mut y: i128 = 0;
    let mut i: usize = 0;
    assert(lengths(m@) =~= Map::empty());
    while i < new.len()
        invariant
            i <= new@.len(),
            before == tops(old@, gap, old@.len()),
            lengths(was@) == before,
            lengths(m@) == offsets(before, new@, gap, i as nat),
            y == top_of(new@, gap, i as nat),
        decreases new.len() - i,
    {
        let ghost had = m@;
        proof {
            lemma_top_bound(new@, gap, i as nat);
            lemma_tops_bound(old@, gap, old@.len());
        }
        let key = &new[i].0;
        if let Some(prev) = was.get(key.as_str()) {
            assert(before.contains_key(key@));
            assert(before[key@] == *prev);
            assert(old.len() == old@.len());
            let dy: i128 = *prev - y;
            if dy > HALF_PIXEL || dy < -HALF_PIXEL {
                m.insert(key.clone(), dy);
                assert(lengths(m@) =~= lengths(had).insert(key@, dy as int));
            }
        } else {
            assert(!before.contains_key(key@));
        }
        y = y + new[i].1 as i128 + gap as i128;
        i = i + 1;
    }
    m
}

proof fn lemma_tops_bound(rows: Seq<(String, i32)>, gap: i32, upto: nat)
    requires
        upto <= rows.len(),
    ensures
        forall|k: Seq<char>| #[trigger]
            tops(rows, gap, upto).contains_key(k) ==> -0x1_0000_0000 * upto <= tops(
                rows,
                gap,
                upto,
            )[k] <= 0x1_0000_0000 * upto,
    decreases upto,
{
    if upto > 0 {
        let before = tops(rows, gap, (upto - 1) as nat);
        lemma_tops_bound(rows, gap, (upto - 1) as nat);
        lemma_top_bound(rows, gap, (upto - 1) as nat);
        assert forall|k: Seq<char>| #[trigger]
            tops(rows, gap, upto).contains_key(k) implies -0x1_0000_0000 * upto <= tops(
            rows,
            gap,
            upto,
        )[k] <= 0x1_0000_0000 * upto by {
            if k != rows[upto - 1].0@ {
                assert(before.contains_key(k));
            }
        }
    }
}

/// Whether two lists have their keys in one order.
pub open spec fn same_order(old: Seq<(String, i32)>, new: Seq<(String, i32)>) -> bool {
    old.len() == new.len() && forall|i: int|
        0 <= i < old.len() ==> (#[trigger] old[i]).0@ == new[i].0@
}

/// Whether the keys of a list changed, or their order. That rows grew or shrank
/// is no such change: a section that opens moves by itself.
pub fn sidebar_key_order_changed(old: &Vec<(String, i32)>, new: &Vec<(String, i32)>) -> (r: bool)
    ensures
        r == !same_order(old@, new@),
{
    if old.len() != new.len() {
        return true;
    }
    let mut i: usize = 0;
    while i < old.len()
        invariant
            i <= old@.len(),
            old@.len() == new@.len(),
            forall|j: int| 0 <= j < i ==> (#[trigger] old@[j]).0@ == new@[j].0@,
        decreases old.len() - i,
    {
        if old[i].0 != new[i].0 {
            assert(old@[i as int].0@ != new@[i as int].0@);
            return true;
        }
        i = i + 1;
    }
    false
}

/// Whether no key stands twice.
pub open spec fn keys_differ(rows: Seq<(String, i32)>) -> bool {
    forall|i: int, j: int|
        0 <= i < j < rows.len() ==> (#[trigger] rows[i]).0@ != (#[trigger] rows[j]).0@
}

proof fn lemma_tops_of_distinct(rows: Seq<(String, i32)>, gap: i32, upto: nat, i: int)
    requires
        keys_differ(rows),
        0 <= i < upto <= rows.len(),
    ensures
        tops(rows, gap, upto).contains_key(rows[i].0@),
        tops(rows, gap, upto)[rows[i].0@] == top_of(rows, gap, i as nat),
    decreases upto,
{
    if i < upto - 1 {
        lemma_tops_of_distinct(rows, gap, (upto - 1) as nat, i);
        assert(rows[i].0@ != rows[upto - 1].0@);
    }
}

proof fn lemma_tops_keys(rows: Seq<(String, i32)>, gap: i32, upto: nat, key: Seq<char>)
    requires
        upto <= rows.len(),
        tops(rows, gap, upto).contains_key(key),
    ensures
        exists|i: int| 0 <= i < upto && (#[trigger] rows[i]).0@ == key,
    decreases upto,
{
    if key != rows[upto - 1].0@ {
        lemma_tops_keys(rows, gap, (upto - 1) as nat, key);
    }
}

proof fn lemma_offsets_of_distinct(
    was: Map<Seq<char>, int>,
    rows: Seq<(String, i32)>,
    gap: i32,
    upto: nat,
    i: int,
)
    requires
        keys_differ(rows),
        0 <= i < rows.len(),
        upto <= rows.len(),
    ensures
        ({
            let key = rows[i].0@;
            let dy = was[key] - top_of(rows, gap, i as nat);
            let r = offsets(was, rows, gap, upto);
            &&& r.contains_key(key) == (i < upto && was.contains_key(key) && glides(dy))
            &&& r.contains_key(key) ==> r[key] == dy
        }),
    decreases upto,
{
    if upto > 0 {
        lemma_offsets_of_distinct(was, rows, gap, (upto - 1) as nat, i);
        if i != upto - 1 {
            if i < upto - 1 {
                assert(rows[i].0@ != rows[upto - 1].0@);
            } else {
                assert(rows[upto - 1].0@ != rows[i].0@);
            }
        }
    }
}

proof fn lemma_offsets_keys(
    was: Map<Seq<char>, int>,
    rows: Seq<(String, i32)>,
    gap: i32,
    upto: nat,
    key: Seq<char>,
)
    requires
        upto <= rows.len(),
        offsets(was, rows, gap, upto).contains_key(key),
    ensures
        was.contains_key(key),
    decreases upto,
{
    if upto > 0 && offsets(was, rows, gap, (upto - 1) as nat).contains_key(key) {
        lemma_offsets_keys(was, rows, gap, (upto - 1) as nat, key);
    }
}

/// In lists without a key twice, a row that stands at `i` in the old list and at
/// `j` in the new one glides by the difference of its places, and does so
/// exactly where they lie more than half a pixel apart.
pub proof fn law_row_glides_from_its_old_place(
    old: Seq<(String, i32)>,
    new: Seq<(String, i32)>,
    gap: i32,
    i: int,
    j: int,
)
    requires
        keys_differ(old),
        keys_differ(new),
        0 <= i < old.len(),
        0 <= j < new.len(),
        old[i].0@ == new[j].0@,
    ensures
        ({
            let r = offsets(tops(old, gap, old.len()), new, gap, new.len());
            let dy = top_of(old, gap, i as nat) - top_of(new, gap, j as nat);
            &&& r.contains_key(new[j].0@) == glides(dy)
            &&& glides(dy) ==> r[new[j].0@] == dy
        }),
{
    lemma_tops_of_distinct(old, gap, old.len(), i);
    lemma_offsets_of_distinct(tops(old, gap, old.len()), new, gap, new.len(), j);
}

/// Only rows of the old list glide.
pub proof fn law_new_rows_do_not_glide(
    old: Seq<(String, i32)>,
    new: Seq<(String, i32)>,
    gap: i32,
    key: Seq<char>,
)
    requires
        offsets(tops(old, gap, old.len()), new, gap, new.len()).contains_key(key),
    ensures
        exists|i: int| 0 <= i < old.len() && (#[trigger] old[i]).0@ == key,
{
    lemma_offsets_keys(tops(old, gap, old.len()), new, gap, new.len(), key);
    lemma_tops_keys(old, gap, old.len(), key);
}

} // verus!
