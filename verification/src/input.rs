//! The per-step input intent the orchestrator hands to the simulation.

use vstd::prelude::*;

verus! {

/// Input captured for one simulation step.  `move_x` is the horizontal
/// intent in `{-1, 0, 1}`; the booleans are edges latched since the last
/// step.
#[derive(Clone, Copy, PartialEq, Eq, Structural, Debug)]
pub struct InputState {
    pub move_x: i64,
    pub jump_pressed: bool,
    pub jump_released: bool,
    pub start_pressed: bool,
    pub restart_pressed: bool,
    pub quit_pressed: bool,
}

impl InputState {
    /// Horizontal intent is one of left, none, right.
    pub open spec fn wf(self) -> bool {
        -1 <= self.move_x <= 1
    }

    /// The neutral input: no intent, no edges.
    pub open spec fn spec_idle() -> InputState {
        InputState {
            move_x: 0,
            jump_pressed: false,
            jump_released: false,
            start_pressed: false,
            restart_pressed: false,
            quit_pressed: false,
        }
    }

    /// Builds the neutral input.
    pub fn idle() -> (r: InputState)
        ensures
            r == InputState::spec_idle(),
    {
        InputState {
            move_x: 0,
            jump_pressed: false,
            jump_released: false,
            start_pressed: false,
            restart_pressed: false,
            quit_pressed: false,
        }
    }

    /// The same input with every edge cleared; the held horizontal intent
    /// survives to later steps, edges fire at most once.
    pub open spec fn spec_cleared(self) -> InputState {
        InputState {
            move_x: self.move_x,
            jump_pressed: false,
            jump_released: false,
            start_pressed: false,
            restart_pressed: false,
            quit_pressed: false,
        }
    }
}

impl Default for InputState {
    /// The neutral input.
    fn default() -> (r: InputState)
        ensures
            r == InputState::spec_idle(),
    {
        InputState::idle()
    }
}

} // verus!
