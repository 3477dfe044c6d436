//! The focus controller: one selected position in the current projection,
//! reclamped on every rebuild, moved by keyboard offsets, and translated into
//! scroll directives and highlight invalidations.
//!
//! Two policies that the design leaves open are fixed here deterministically:
//! a move from the unfocused state over a non-empty projection focuses the
//! first position, and a move past the last position leaves the focus where
//! it was while directing the view to scroll to its maximum extent.

use vstd::prelude::*;

verus! {

/// Where the keyboard focus stands: nowhere, or on one position of the
/// current projection.
#[derive(Clone, Copy, PartialEq, Eq, Structural, Debug)]
pub enum FocusState {
    Unfocused,
    FocusedAt(u32),
}

/// What the view is told after a keyboard-driven focus change: bring one
/// position into view, or scroll to the maximum extent.
#[derive(Clone, Copy, PartialEq, Eq, Structural, Debug)]
pub enum ScrollDirective {
    EnsureVisible(u32),
    ToMaximumExtent,
}

/// The outcome of a move: the scroll directive, if any, and the previously
/// and newly focused positions whose highlight must be redrawn.
#[derive(Clone, Copy, PartialEq, Eq, Structural, Debug)]
pub struct MoveOutcome {
    pub directive: Option<ScrollDirective>,
    pub invalidate_previous: Option<u32>,
    pub invalidate_current: Option<u32>,
}

/// Tracks the focused position across projection rebuilds and moves.
pub struct FocusController {
    state: FocusState,
}

/// The move target: the focused position plus the offset, clamped to zero on
/// underflow.
pub open spec fn move_target(position: u32, offset: int) -> int {
    if position + offset < 0 {
        0
    } else {
        position + offset
    }
}

impl FocusController {
    /// The current focus state.
    pub closed spec fn focus(&self) -> FocusState {
        self.state
    }

    /// A focused position always lies inside a projection of length `len`.
    pub open spec fn wf(&self, len: u32) -> bool {
        match self.focus() {
            FocusState::Unfocused => true,
            FocusState::FocusedAt(p) => p < len,
        }
    }

    /// The initial state: the first position of a non-empty startup
    /// projection, nothing otherwise.
    pub fn new(len: u32) -> (r: FocusController)
        ensures
            r.wf(len),
            len == 0 ==> r.focus() == FocusState::Unfocused,
            len > 0 ==> r.focus() == FocusState::FocusedAt(0),
    {
        if len == 0 {
            FocusController { state: FocusState::Unfocused }
        } else {
            FocusController { state: FocusState::FocusedAt(0) }
        }
    }

    /// The focused position, if any.
    pub fn position(&self) -> (r: Option<u32>)
        ensures
            r == match self.focus() {
                FocusState::Unfocused => Option::<u32>::None,
                FocusState::FocusedAt(p) => Some(p),
            },
    {
        match self.state {
            FocusState::Unfocused => None,
            FocusState::FocusedAt(p) => Some(p),
        }
    }

    /// Reclamps the focus to a projection of `new_len` entries: an empty
    /// projection clears the focus, a focus past the end moves to the last
    /// position, anything else stays put.
    pub fn reclamp(&mut self, new_len: u32)
        ensures
            final(self).wf(new_len),
            new_len == 0 ==> final(self).focus() == FocusState::Unfocused,
            new_len > 0 ==> final(self).focus() == match old(self).focus() {
                FocusState::Unfocused => FocusState::Unfocused,
                FocusState::FocusedAt(p) => FocusState::FocusedAt(
                    if p >= new_len {
                        (new_len - 1) as u32
                    } else {
                        p
                    },
                ),
            },
    {
        if new_len == 0 {
            self.state = FocusState::Unfocused;
        } else {
            match self.state {
                FocusState::Unfocused => {},
                FocusState::FocusedAt(p) => {
                    if p >= new_len {
                        self.state = FocusState::FocusedAt(new_len - 1);
                    }
                },
            }
        }
    }

    /// Moves the focus by `offset` over a projection of `len` entries.
    /// Unfocused over an empty projection: nothing happens.  Unfocused over a
    /// non-empty one: the first position takes focus.  Focused: the target is
    /// the position plus the offset, clamped to zero; a target past the end
    /// leaves the focus and directs the view to its maximum extent, any other
    /// target takes focus and is brought into view.
    pub fn move_focus(&mut self, offset: i32, len: u32) -> (outcome: MoveOutcome)
        requires
            old(self).wf(len),
        ensures
            final(self).wf(len),
            old(self).focus() == FocusState::Unfocused && len == 0 ==> final(self).focus()
                == FocusState::Unfocused && outcome == (MoveOutcome {
                directive: None,
                invalidate_previous: None,
                invalidate_current: None,
            }),
            old(self).focus() == FocusState::Unfocused && len > 0 ==> final(self).focus()
                == FocusState::FocusedAt(0) && outcome == (MoveOutcome {
                directive: Some(ScrollDirective::EnsureVisible(0)),
                invalidate_previous: None,
                invalidate_current: Some(0),
            }),
            forall|p: u32|
                old(self).focus() == FocusState::FocusedAt(p) && move_target(p, offset as int)
                    >= len ==> final(self).focus() == FocusState::FocusedAt(p) && outcome == (
                MoveOutcome {
                    directive: Some(ScrollDirective::ToMaximumExtent),
                    invalidate_previous: Some(p),
                    invalidate_current: Some(p),
                }),
            forall|p: u32|
                old(self).focus() == FocusState::FocusedAt(p) && move_target(p, offset as int)
                    < len ==> final(self).focus() == FocusState::FocusedAt(
                    move_target(p, offset as int) as u32,
                ) && outcome == (MoveOutcome {
                    directive: Some(
                        ScrollDirective::EnsureVisible(move_target(p, offset as int) as u32),
                    ),
                    invalidate_previous: Some(p),
                    invalidate_current: Some(move_target(p, offset as int) as u32),
                }),
    {
        match self.state {
            FocusState::Unfocused => {
                if len == 0 {
                    MoveOutcome {
                        directive: None,
                        invalidate_previous: None,
                        invalidate_current: None,
                    }
                } else {
                    self.state = FocusState::FocusedAt(0);
                    MoveOutcome {
                        directive: Some(ScrollDirective::EnsureVisible(0)),
                        invalidate_previous: None,
                        invalidate_current: Some(0),
                    }
                }
            },
            FocusState::FocusedAt(p) => {
                let raw: i64 = p as i64 + offset as i64;
                let target: i64 = if raw < 0 {
                    0
                } else {
                    raw
                };
                if target >= len as i64 {
                    MoveOutcome {
                        directive: Some(ScrollDirective::ToMaximumExtent),
                        invalidate_previous: Some(p),
                        invalidate_current: Some(p),
                    }
                } else {
                    let t = target as u32;
                    self.state = FocusState::FocusedAt(t);
                    MoveOutcome {
                        directive: Some(ScrollDirective::EnsureVisible(t)),
                        invalidate_previous: Some(p),
                        invalidate_current: Some(t),
                    }
                }
            },
        }
    }
}

} // verus!
