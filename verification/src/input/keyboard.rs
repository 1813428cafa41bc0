//! Keyboard state tracking.

use winit::keyboard::KeyCode;
use vstd::prelude::*;

use super::button::{ButtonId, ButtonState};

verus! {

/// `winit::keyboard::KeyCode`, a physical key named by its position on a US
/// keyboard. Its contents are not modelled.
#[verifier::external_type_specification]
#[verifier::external_body]
pub struct ExKeyCode(winit::keyboard::KeyCode);

/// `<winit::keyboard::KeyCode as PartialEq>::eq`, derived by winit (the
/// `Unidentified` variant compares its native code): true exactly for the
/// same key.
#[verifier::external_body]
fn same_key(a: &winit::keyboard::KeyCode, b: &winit::keyboard::KeyCode) -> (r: bool)
    ensures
        r == (*a == *b),
{
    *a == *b
}

impl ButtonId for KeyCode {
    fn same(&self, other: &Self) -> (r: bool) {
        same_key(self, other)
    }
}

/// Tracks keyboard input state for the current frame.
pub struct KeyboardState {
    keys: ButtonState<KeyCode>,
}

impl KeyboardState {
    /// The state's invariant.
    pub closed spec fn wf(&self) -> bool {
        self.keys.wf()
    }

    /// Keys currently held down.
    pub closed spec fn held(&self) -> Set<KeyCode> {
        self.keys.held()
    }

    /// Keys pressed since the frame began.
    pub closed spec fn pressed_edges(&self) -> Set<KeyCode> {
        self.keys.pressed_edges()
    }

    /// Keys released since the frame began.
    pub closed spec fn released_edges(&self) -> Set<KeyCode> {
        self.keys.released_edges()
    }

    /// Roll over frame-edge state. Must be called at the start of the frame.
    pub fn begin_frame(&mut self)
        requires
            old(self).wf(),
        ensures
            final(self).wf(),
            final(self).held() == old(self).held(),
            final(self).pressed_edges() == Set::<KeyCode>::empty(),
            final(self).released_edges() == Set::<KeyCode>::empty(),
    {
        self.keys.begin_frame();
    }

    /// Process a raw keyboard event: a press (`is_pressed`) or a release.
    ///
    /// Only a change of the held state records an edge; key repeats do not.
    pub fn process_event(&mut self, keycode: KeyCode, is_pressed: bool)
        requires
            old(self).wf(),
        ensures
            final(self).wf(),
            is_pressed ==> {
                &&& final(self).held() == old(self).held().insert(keycode)
                &&& final(self).pressed_edges() == (if old(self).held().contains(keycode) {
                    old(self).pressed_edges()
                } else {
                    old(self).pressed_edges().insert(keycode)
                })
                &&& final(self).released_edges() == old(self).released_edges()
            },
            !is_pressed ==> {
                &&& final(self).held() == old(self).held().remove(keycode)
                &&& final(self).released_edges() == (if old(self).held().contains(keycode) {
                    old(self).released_edges().insert(keycode)
                } else {
                    old(self).released_edges()
                })
                &&& final(self).pressed_edges() == old(self).pressed_edges()
            },
    {
        self.keys.process(keycode, is_pressed);
    }

    /// Whether the key is currently held down.
    pub fn is_pressed(&self, keycode: KeyCode) -> (r: bool)
        ensures
            r == self.held().contains(keycode),
    {
        self.keys.is_pressed(&keycode)
    }

    /// Whether the key was pressed this frame.
    pub fn just_pressed(&self, keycode: KeyCode) -> (r: bool)
        ensures
            r == self.pressed_edges().contains(keycode),
    {
        self.keys.just_pressed(&keycode)
    }

    /// Whether the key was released this frame.
    pub fn just_released(&self, keycode: KeyCode) -> (r: bool)
        ensures
            r == self.released_edges().contains(keycode),
    {
        self.keys.just_released(&keycode)
    }
}

impl Default for KeyboardState {
    /// No key held, no edge recorded.
    fn default() -> (s: Self)
        ensures
            s.wf(),
            s.held() == Set::<KeyCode>::empty(),
            s.pressed_edges() == Set::<KeyCode>::empty(),
            s.released_edges() == Set::<KeyCode>::empty(),
    {
        KeyboardState { keys: ButtonState::new() }
    }
}

} // verus!
