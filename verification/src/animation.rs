//! Animation plumbing: the frame ticker, the playback direction of a
//! controller, and the easing-curve kinds.

pub mod curve;
pub mod fire_log;
pub mod ticker;

pub use curve::{CurveKind, EaseInCurve, EaseInOutCurve, EaseOutCurve, LinearCurve};
pub use fire_log::FireLog;
pub use ticker::{AnimationTicker, TickCallback, TickHandle};

use vstd::prelude::*;

verus! {

/// Which way an animation controller is currently driving its value.
#[derive(Debug, Clone, Copy, PartialEq, Eq, Structural)]
pub enum AnimationDirection {
    Forward,
    Reverse,
    Stopped,
}

} // verus!
