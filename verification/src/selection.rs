//! Scrolling under a text selection that is dragged to an edge.
use vstd::prelude::*;

verus! {

/// Milliseconds between two steps.
pub const SELECTION_SCROLL_TICK_MS: u64 = 24;

/// A place of the pointer, by the bits of its coordinates.
#[derive(Debug, Clone, Copy, PartialEq, Eq, Structural)]
pub struct DragPoint {
    pub x: u32,
    pub y: u32,
}

/// Where the pointer drags, and whether a step is due.
#[derive(Debug, Clone, Copy, PartialEq, Eq, Structural)]
pub struct SelectionScroll {
    pub position: Option<DragPoint>,
    pub ticking: bool,
}

/// No drag.
pub open spec fn stopped() -> SelectionScroll {
    SelectionScroll { position: None, ticking: false }
}

/// What a due step comes to.
#[derive(Debug, Clone, Copy, PartialEq, Eq, Structural)]
pub enum SelectionStep {
    /// The drag is over, or the pointer is not at an edge.
    Rest,
    /// Scroll, and look again.
    Scroll,
}

impl SelectionScroll {
    /// No drag.
    pub fn new() -> (r: Self)
        ensures
            r == stopped(),
    {
        SelectionScroll { position: None, ticking: false }
    }

    /// The drag is over.
    pub fn stop(&mut self)
        ensures
            *final(self) == stopped(),
    {
        self.position = None;
        self.ticking = false;
    }

    /// The pointer moved. Says whether the selection follows it.
    pub fn moved(&mut self, dragging: bool, at: DragPoint) -> (r: bool)
        ensures
            r == dragging,
            *final(self) == if dragging {
                SelectionScroll { position: Some(at), ..*old(self) }
            } else {
                stopped()
            },
    {
        if dragging {
            self.position = Some(at);
        } else {
            self.stop();
        }
        dragging
    }

    /// Asks for the next step, where none is due and the pointer drags at an
    /// edge. Says whether to wait for it.
    pub fn schedule(&mut self, dragging: bool, at_edge: bool) -> (r: bool)
        ensures
            r == (!old(self).ticking && dragging && old(self).position is Some && at_edge),
            *final(self) == (SelectionScroll {
                ticking: old(self).ticking || r,
                ..*old(self)
            }),
    {
        if self.ticking || !dragging || self.position.is_none() || !at_edge {
            return false;
        }
        self.ticking = true;
        true
    }

    /// The step is due.
    pub fn tick(&mut self, dragging: bool, at_edge: bool) -> (r: SelectionStep)
        ensures
            r == if dragging && old(self).position is Some && at_edge {
                SelectionStep::Scroll
            } else {
                SelectionStep::Rest
            },
            *final(self) == if dragging {
                SelectionScroll { ticking: false, ..*old(self) }
            } else {
                stopped()
            },
    {
        self.ticking = false;
        if !dragging {
            self.stop();
            return SelectionStep::Rest;
        }
        if self.position.is_some() && at_edge {
            SelectionStep::Scroll
        } else {
            SelectionStep::Rest
        }
    }
}

} // verus!
