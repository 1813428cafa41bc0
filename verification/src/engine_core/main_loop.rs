//! The decisions of the engine's main loop.
//!
//! The loop itself runs the window system and the user's callbacks; at each
//! window-system signal, and after each frame's update, it asks these
//! functions what to do next.

use vstd::prelude::*;

verus! {

/// A window-system notification the main loop reacts to.
#[derive(Debug, Clone, Copy, PartialEq, Eq, Structural)]
pub enum LoopSignal {
    /// The user asked to close the window.
    CloseRequested,
    /// The window changed size.
    Resized,
    /// All pending window events were handled; time for a frame.
    AboutToWait,
    /// Anything else.
    Other,
}

/// What the main loop does on a signal.
#[derive(Debug, Clone, Copy, PartialEq, Eq, Structural)]
pub enum LoopAction {
    /// Stop the loop.
    Exit,
    /// Run one frame: fixed steps, update, render, event flush.
    RunFrame,
    /// Nothing to do; wait for the next signal.
    Wait,
}

/// What the loop does once a frame's update has run.
#[derive(Debug, Clone, Copy, PartialEq, Eq, Structural)]
pub enum AfterUpdate {
    /// The update asked to stop: exit without rendering.
    Exit,
    /// Render and flush events; then, when `cap_fps`, sleep out the rest of
    /// the frame's time budget.
    Render {
        /// Whether the frame rate is capped by sleeping.
        cap_fps: bool,
    },
}

/// The action for a signal: closing the window exits, the end of the event
/// batch runs a frame (resizes are handled by the renderer), the rest waits.
pub fn loop_action(signal: LoopSignal) -> (r: LoopAction)
    ensures
        r == (match signal {
            LoopSignal::CloseRequested => LoopAction::Exit,
            LoopSignal::AboutToWait => LoopAction::RunFrame,
            LoopSignal::Resized | LoopSignal::Other => LoopAction::Wait,
        }),
{
    match signal {
        LoopSignal::CloseRequested => LoopAction::Exit,
        LoopSignal::AboutToWait => LoopAction::RunFrame,
        LoopSignal::Resized => LoopAction::Wait,
        LoopSignal::Other => LoopAction::Wait,
    }
}

/// The step after a frame's update: exit when the update returned `false`;
/// else render, and cap the frame rate by sleeping exactly when a cap is set
/// (`fps_cap > 0`) and vertical sync is off.
pub fn after_update(keep_running: bool, fps_cap: u32, vsync: bool) -> (r: AfterUpdate)
    ensures
        r == (if keep_running {
            AfterUpdate::Render { cap_fps: fps_cap > 0 && !vsync }
        } else {
            AfterUpdate::Exit
        }),
{
    if keep_running {
        AfterUpdate::Render { cap_fps: fps_cap > 0 && !vsync }
    } else {
        AfterUpdate::Exit
    }
}

} // verus!
