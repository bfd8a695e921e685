//! Lengths measured after a layout, in 64ths of a pixel: the room of a turn just
//! sent, and how fast a selection at an edge scrolls.
use vstd::prelude::*;

use crate::layout::HALF_PIXEL;

verus! {

/// A pixel.
pub const PIXEL: i64 = 64;

/// 2 px: how much further than its room the held layout scrolls.
pub const SCROLL_SLACK: i64 = 128;

/// 1 px: a glide that is this near ends.
pub const GLIDE_SNAP: i64 = 64;

/// The room that a turn still wants: what of the usable height it does not fill.
pub open spec fn reservation(usable: int, turn_height: int) -> int {
    if usable > turn_height {
        usable - turn_height
    } else {
        0
    }
}

/// The room that a turn still wants below itself.
pub fn own_turn_reservation(usable: i64, turn_height: i64) -> (r: i128)
    ensures
        r == reservation(usable as int, turn_height as int),
{
    if usable > turn_height {
        usable as i128 - turn_height as i128
    } else {
        0
    }
}

/// What was measured of a turn and of the viewport.
#[derive(Clone, Copy, PartialEq, Eq, Structural, Debug)]
pub struct TurnBounds {
    pub viewport_top: i32,
    pub viewport_height: i32,
    /// The space above the prompt at its place.
    pub inset: i32,
    /// The padding below the last row.
    pub base_pad: i32,
    /// The distance from the end.
    pub distance: i32,
    /// The room that the turn has.
    pub runway: i32,
    /// The top of the prompt's row, where it is measured.
    pub prompt_top: Option<i32>,
    /// The bottom of the last row, where it is measured.
    pub last_bottom: Option<i32>,
    /// The prompt is at its place.
    pub positioned: bool,
}

/// What follows from it.
#[derive(Clone, Copy, PartialEq, Eq, Structural, Debug)]
pub struct TurnLengths {
    pub laid_out: bool,
    /// All the room that the viewport can give.
    pub usable: i64,
    /// The room that the turn wants, where it is measured.
    pub wanted: Option<i64>,
    /// That is more than half a pixel off the room it has.
    pub resized: bool,
    /// The prompt's row is measured.
    pub anchored: bool,
    /// The prompt is off its place by more than it may be.
    pub drifted: bool,
    /// What is left to go is within a pixel.
    pub near: bool,
    /// The prompt is within a pixel above its place, or rests just below it.
    pub in_band: bool,
    /// The prompt is more than half a pixel below its place.
    pub below: bool,
    /// What is left to go.
    pub error: i64,
    /// What a glide to the prompt skips at once.
    pub skipped: i64,
}

/// The room that the viewport leaves below the prompt's place.
pub open spec fn room(b: TurnBounds) -> int {
    b.viewport_height - b.inset - b.base_pad + SCROLL_SLACK
}

/// The least room that keeps the end from rising through the view: only what
/// lies further below the view than the slack may go.
pub open spec fn least_room(b: TurnBounds) -> int {
    if b.distance > SCROLL_SLACK {
        b.runway - (b.distance - SCROLL_SLACK)
    } else {
        b.runway as int
    }
}

/// The room that a turn from `top` to `bottom` wants.
pub open spec fn wanted_room(b: TurnBounds, top: int, bottom: int) -> int {
    let wanted = reservation(room(b), bottom - top - b.runway - b.base_pad);
    if wanted >= least_room(b) {
        wanted
    } else {
        least_room(b)
    }
}

/// How far the prompt is below its place; where it is not measured, how far the
/// end is.
pub open spec fn error_of(b: TurnBounds) -> int {
    match b.prompt_top {
        Some(top) => top - (b.viewport_top + b.inset),
        None => b.distance as int,
    }
}

/// The most that a glide goes through: two viewports and a half.
pub open spec fn glide_most(b: TurnBounds) -> int {
    b.viewport_height as int * 5 / 2
}

/// What a glide skips at once: all beyond the most that it goes through. A
/// prompt at its place skips nothing.
pub open spec fn skip_of(b: TurnBounds) -> int {
    if !b.positioned && error_of(b) > glide_most(b) {
        error_of(b) - glide_most(b)
    } else {
        0
    }
}

/// What follows from the bounds of a turn.
pub open spec fn lengths_of(b: TurnBounds) -> TurnLengths {
    let error = error_of(b) - skip_of(b);
    let wanted = match (b.prompt_top, b.last_bottom) {
        (Some(top), Some(bottom)) => Some(wanted_room(b, top as int, bottom as int)),
        _ => None,
    };
    TurnLengths {
        laid_out: b.viewport_height > 0,
        usable: if room(b) > 0 {
            room(b) as i64
        } else {
            0
        },
        wanted: match wanted {
            Some(w) => Some(w as i64),
            None => None,
        },
        resized: wanted matches Some(w) && (w - b.runway > HALF_PIXEL || b.runway - w > HALF_PIXEL),
        anchored: b.prompt_top is Some,
        drifted: if b.prompt_top is Some {
            error > HALF_PIXEL || error < -(SCROLL_SLACK + 2 * PIXEL)
        } else {
            b.distance > SCROLL_SLACK + 8 * PIXEL
        },
        near: if b.prompt_top is Some {
            -GLIDE_SNAP <= error <= GLIDE_SNAP
        } else {
            error <= GLIDE_SNAP
        },
        in_band: error <= GLIDE_SNAP && error >= -(SCROLL_SLACK + 2 * PIXEL),
        below: error > HALF_PIXEL,
        error: error as i64,
        skipped: skip_of(b) as i64,
    }
}

/// What follows from the bounds of a turn.
pub fn turn_lengths(b: TurnBounds) -> (r: TurnLengths)
    ensures
        r == lengths_of(b),
{
    let half: i64 = HALF_PIXEL as i64;
    let sunk: i64 = SCROLL_SLACK + 2 * PIXEL;
    let height: i64 = b.viewport_height as i64;
    let runway: i64 = b.runway as i64;
    let distance: i64 = b.distance as i64;
    let room: i64 = height - b.inset as i64 - b.base_pad as i64 + SCROLL_SLACK;
    let wanted: Option<i64> = match (b.prompt_top, b.last_bottom) {
        (Some(top), Some(bottom)) => {
            let tall: i64 = bottom as i64 - top as i64 - runway - b.base_pad as i64;
            let w: i64 = own_turn_reservation(room, tall) as i64;
            let least: i64 = if distance > SCROLL_SLACK {
                runway - (distance - SCROLL_SLACK)
            } else {
                runway
            };
            if w >= least {
                Some(w)
            } else {
                Some(least)
            }
        },
        _ => None,
    };
    let resized = match wanted {
        Some(w) => w - runway > half || runway - w > half,
        None => false,
    };
    let anchored = b.prompt_top.is_some();
    let whole: i64 = match b.prompt_top {
        Some(top) => top as i64 - (b.viewport_top as i64 + b.inset as i64),
        None => distance,
    };
    let most: i64 = half_down(height * 5);
    let skipped: i64 = if !b.positioned && whole > most {
        whole - most
    } else {
        0
    };
    let error: i64 = whole - skipped;
    TurnLengths {
        laid_out: b.viewport_height > 0,
        usable: if room > 0 {
            room
        } else {
            0
        },
        wanted,
        resized,
        anchored,
        drifted: if anchored {
            error > half || error < -sunk
        } else {
            distance > SCROLL_SLACK + 8 * PIXEL
        },
        near: if anchored {
            -GLIDE_SNAP <= error && error <= GLIDE_SNAP
        } else {
            error <= GLIDE_SNAP
        },
        in_band: error <= GLIDE_SNAP && error >= -sunk,
        below: error > half,
        error,
        skipped,
    }
}

/// Half of a number, rounded down.
fn half_down(n: i64) -> (r: i64)
    ensures
        r == n as int / 2,
{
    if n >= 0 {
        n / 2
    } else {
        let up: i64 = -(n + 1);
        -(up / 2) - 1
    }
}

/// A reply that grows takes its room one for one: the turn and its room together
/// stay as tall as the viewport lets them, until the reply fills it.
pub proof fn law_growth_takes_the_room(usable: int, turn_height: int)
    ensures
        turn_height <= usable ==> turn_height + reservation(usable, turn_height) == usable,
        turn_height >= usable ==> reservation(usable, turn_height) == 0,
{
}

/// The end never rises through the view: a turn gives up no more room than lies
/// below the view, beyond the slack.
pub proof fn law_the_end_stays_below(b: TurnBounds, top: int, bottom: int)
    ensures
        b.runway - wanted_room(b, top, bottom) <= if b.distance > SCROLL_SLACK {
            b.distance - SCROLL_SLACK
        } else {
            0
        },
{
}

// ---------------------------------------------------------------------------
// A selection at an edge
// ---------------------------------------------------------------------------

/// The longest step, in pixels.
pub const SELECTION_STEP_MOST: i64 = 24;

/// A length in pixels, as a fraction.
#[derive(Clone, Copy, PartialEq, Eq, Structural, Debug)]
pub struct Fraction {
    pub num: i64,
    pub den: i64,
}

/// Three times the width of an edge, which is 36 px, or a third of a small
/// viewport.
pub open spec fn edge_thrice(height: int) -> int {
    if height < 6912 {
        height
    } else {
        6912
    }
}

/// How far into an edge a step counts: never further than through it.
pub open spec fn depth_in(depth: int, edge: int) -> int {
    if depth > edge {
        edge
    } else {
        depth
    }
}

/// The length of a step at `depth` of `edge` into an edge, over the square of
/// `edge`: it grows with the square of the depth, up to the longest step.
pub open spec fn ramp(depth: int, edge: int) -> int {
    SELECTION_STEP_MOST * (depth_in(depth, edge) * depth_in(depth, edge))
}

/// What a step is a fraction of: the square of an edge.
pub open spec fn step_den(height: int) -> int {
    if height <= 0 {
        1
    } else {
        edge_thrice(height) * edge_thrice(height)
    }
}

/// The step of a pointer at `y`, over [`step_den`].
pub open spec fn edge_step(top: int, height: int, y: int) -> int {
    let edge = edge_thrice(height);
    if height <= 0 {
        0
    } else if 3 * (y - top) < edge {
        -ramp(edge - 3 * (y - top), edge)
    } else if 3 * (top + height - y) < edge {
        ramp(edge - 3 * (top + height - y), edge)
    } else {
        0
    }
}

fn ramp_step(depth: i64, edge: i64) -> (r: i64)
    requires
        0 < edge <= 6912,
        0 < depth,
    ensures
        r == ramp(depth as int, edge as int),
        0 < r,
{
    let d: i64 = if depth > edge {
        edge
    } else {
        depth
    };
    proof {
        assert(0 < d * d <= 6912 * 6912) by (nonlinear_arith)
            requires
                0 < d <= 6912,
        ;
    }
    SELECTION_STEP_MOST * (d * d)
}

/// The step that the list scrolls while a selection's pointer is at `y`: toward
/// the start near the top edge, toward the end near the bottom edge. The step is
/// exact: no part of a pixel is rounded off.
pub fn selection_scroll_step(top: i32, height: i32, y: i32) -> (r: Fraction)
    ensures
        r.num == edge_step(top as int, height as int, y as int),
        r.den == step_den(height as int),
        r.den > 0,
{
    if height <= 0 {
        return Fraction { num: 0, den: 1 };
    }
    let edge: i64 = if (height as i64) < 6912 {
        height as i64
    } else {
        6912
    };
    assert(0 < edge * edge <= 6912 * 6912) by (nonlinear_arith)
        requires
            0 < edge <= 6912,
    ;
    let den: i64 = edge * edge;
    let from_top: i64 = 3 * (y as i64 - top as i64);
    if from_top < edge {
        return Fraction { num: -ramp_step(edge - from_top, edge), den };
    }
    let from_bottom: i64 = 3 * (top as i64 + height as i64 - y as i64);
    if from_bottom < edge {
        return Fraction { num: ramp_step(edge - from_bottom, edge), den };
    }
    Fraction { num: 0, den }
}

/// The step never falls as the pointer goes down: so the nearer the pointer is to
/// an edge, the faster it scrolls toward it.
pub proof fn law_nearer_the_edge_is_faster(top: int, height: int, y: int, z: int)
    requires
        height > 0,
        y <= z,
    ensures
        edge_step(top, height, y) <= edge_step(top, height, z),
{
    let edge = edge_thrice(height);
    let up = |at: int| edge - 3 * (at - top);
    let down = |at: int| edge - 3 * (top + height - at);
    if up(y) > 0 && up(z) > 0 {
        lemma_ramp_rises(up(z), up(y), edge);
    }
    if up(z) <= 0 && down(z) > 0 {
        if up(y) <= 0 && down(y) > 0 {
            lemma_ramp_rises(down(y), down(z), edge);
        }
        lemma_clamped_ramp(down(z), edge);
    }
    if up(y) > 0 {
        lemma_clamped_ramp(up(y), edge);
    }
}

/// A pointer scrolls exactly while it is inside an edge or beyond it: toward the
/// start at the top, toward the end at the bottom.
pub proof fn law_an_edge_always_scrolls(top: int, height: int, y: int)
    requires
        height > 0,
    ensures
        edge_step(top, height, y) < 0 <==> 3 * (y - top) < edge_thrice(height),
        edge_step(top, height, y) > 0 <==> 3 * (y - top) >= edge_thrice(height) && 3 * (top + height
            - y) < edge_thrice(height),
{
    let edge = edge_thrice(height);
    if 3 * (y - top) < edge {
        lemma_clamped_ramp(edge - 3 * (y - top), edge);
    } else if 3 * (top + height - y) < edge {
        lemma_clamped_ramp(edge - 3 * (top + height - y), edge);
    }
}

proof fn lemma_clamped_ramp(depth: int, edge: int)
    requires
        0 < edge,
        0 < depth,
    ensures
        0 < ramp(depth, edge) <= SELECTION_STEP_MOST * (edge * edge),
{
    let d = depth_in(depth, edge);
    assert(0 < d * d <= edge * edge) by (nonlinear_arith)
        requires
            0 < d <= edge,
    ;
}

/// No step is longer than the longest, and one outside the viewport is as long.
pub proof fn law_steps_are_bounded(top: int, height: int, y: int)
    requires
        height > 0,
    ensures
        -SELECTION_STEP_MOST * step_den(height) <= edge_step(top, height, y)
            <= SELECTION_STEP_MOST * step_den(height),
        y <= top ==> edge_step(top, height, y) == -SELECTION_STEP_MOST * step_den(height),
        y >= top + height ==> edge_step(top, height, y) == SELECTION_STEP_MOST * step_den(height),
{
    let edge = edge_thrice(height);
    if 3 * (y - top) < edge {
        lemma_clamped_ramp(edge - 3 * (y - top), edge);
    } else if 3 * (top + height - y) < edge {
        lemma_clamped_ramp(edge - 3 * (top + height - y), edge);
    }
    assert(edge * edge > 0) by (nonlinear_arith)
        requires
            0 < edge,
    ;
}

proof fn lemma_ramp_rises(a: int, b: int, edge: int)
    requires
        0 < edge,
        0 < a <= b,
    ensures
        ramp(a, edge) <= ramp(b, edge),
{
    let x = depth_in(a, edge);
    let y = depth_in(b, edge);
    assert(x * x <= y * y) by (nonlinear_arith)
        requires
            0 < x <= y,
    ;
}

} // verus!
