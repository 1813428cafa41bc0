//! Animation: easing curves for tweening and sprite frame stepping.

pub mod frames;
pub mod tween;
