//! Input handling: keyboard, mouse and named actions.

pub mod action_map;
pub mod button;
pub mod keyboard;
pub mod mouse;

use vstd::prelude::*;

use self::action_map::{any_active, bindings_of, ActionMap};
use self::keyboard::KeyboardState;
use self::mouse::MouseState;

verus! {

/// Central input manager: owns keyboard and mouse state and the action map.
pub struct InputManager {
    /// Keyboard state for this frame.
    pub keyboard: KeyboardState,
    /// Mouse state for this frame.
    pub mouse: MouseState,
    /// Named action bindings.
    pub actions: ActionMap,
}

impl InputManager {
    /// The parts are well formed.
    pub open spec fn wf(&self) -> bool {
        &&& self.keyboard.wf()
        &&& self.mouse.wf()
        &&& self.actions.wf()
    }

    /// A manager with nothing pressed and no action bound.
    pub fn new() -> (m: Self)
        ensures
            m.wf(),
            m.keyboard.held().is_empty(),
            m.keyboard.pressed_edges().is_empty(),
            m.keyboard.released_edges().is_empty(),
            m.mouse.held().is_empty(),
            m.mouse.pressed_edges().is_empty(),
            m.mouse.released_edges().is_empty(),
            m.actions@ == Map::<Seq<char>, Set<self::action_map::Binding>>::empty(),
    {
        InputManager {
            keyboard: KeyboardState::default(),
            mouse: MouseState::default(),
            actions: ActionMap::new(),
        }
    }

    /// Roll over frame-edge state of the keyboard and the mouse; held inputs
    /// and bindings stay.
    pub fn begin_frame(&mut self)
        requires
            old(self).wf(),
        ensures
            final(self).wf(),
            final(self).keyboard.held() == old(self).keyboard.held(),
            final(self).keyboard.pressed_edges().is_empty(),
            final(self).keyboard.released_edges().is_empty(),
            final(self).mouse.held() == old(self).mouse.held(),
            final(self).mouse.pressed_edges().is_empty(),
            final(self).mouse.released_edges().is_empty(),
            final(self).mouse.pos() == old(self).mouse.pos(),
            final(self).mouse.motion() == self::mouse::vec2_of_ints(0, 0),
            final(self).mouse.wheel() == self::mouse::vec2_of_ints(0, 0),
            final(self).actions@ == old(self).actions@,
    {
        self.keyboard.begin_frame();
        self.mouse.begin_frame();
    }

    /// Whether the named action was triggered this frame.
    pub fn action_pressed(&self, name: &str) -> (r: bool)
        requires
            self.wf(),
        ensures
            r == any_active(
                bindings_of(self.actions@, name@),
                self.keyboard.pressed_edges(),
                self.mouse.pressed_edges(),
            ),
    {
        self.actions.is_pressed(name, &self.keyboard, &self.mouse)
    }
}

impl Default for InputManager {
    /// A manager with nothing pressed and no action bound.
    fn default() -> (m: Self)
        ensures
            m.wf(),
            m.keyboard.held().is_empty(),
            m.keyboard.pressed_edges().is_empty(),
            m.keyboard.released_edges().is_empty(),
            m.mouse.held().is_empty(),
            m.mouse.pressed_edges().is_empty(),
            m.mouse.released_edges().is_empty(),
            m.actions@ == Map::<Seq<char>, Set<self::action_map::Binding>>::empty(),
    {
        Self::new()
    }
}

} // verus!
