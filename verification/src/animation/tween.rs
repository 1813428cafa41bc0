//! Easing curves used by tweens.

use vstd::prelude::*;

verus! {

/// Standard easing functions for smooth transitions.
#[derive(Debug, Clone, Copy, PartialEq, Eq, Structural)]
pub enum Easing {
    /// Constant speed.
    Linear,
    /// Quadratic acceleration from rest.
    EaseIn,
    /// Quadratic deceleration to rest.
    EaseOut,
    /// Accelerate, then decelerate.
    EaseInOut,
    /// Bounces at the end.
    Bounce,
    /// Overshoots and oscillates at the end.
    Elastic,
}

} // verus!
