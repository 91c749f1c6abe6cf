//! Decision logic of a camera-based localization server: the camera
//! registry with its connect / disconnect events, the tick scheduler that
//! decides between fresh, extrapolated and unavailable positions, and the
//! polling cycle of a serial compass with its reply framing.
use vstd::prelude::*;

pub mod compass;
pub mod history;
pub mod registry;
pub mod tick;
pub mod wire;

verus! {

/// Hint about the target's motion, given to an extrapolation strategy.
#[derive(Clone, Copy, Debug, PartialEq, Eq, Structural)]
pub enum MotionHint {
    MovingForwards,
    MovingBackwards,
    Stationary,
}

} // verus!
