//! Mouse state tracking: position, buttons and scrolling.

use glam::Vec2;
use winit::event::MouseButton;
use vstd::prelude::*;

use super::button::{ButtonId, ButtonState};

verus! {

/// `glam::Vec2`, a 2D vector of two `f32` coordinates. Its contents are
/// not modelled.
#[verifier::external_type_specification]
#[verifier::external_body]
pub struct ExVec2(Vec2);

/// The vector with integer coordinates `(x, y)`, each converted to `f32`
/// with `as` (`glam::IVec2::as_vec2`); the conversion is exact when the
/// integer's magnitude is at most 2^24.
pub uninterp spec fn vec2_of_ints(x: i32, y: i32) -> Vec2;

/// Integers of magnitude at most 2^24: `f32` holds each of them exactly.
pub open spec fn f32_exact(x: int) -> bool {
    -0x100_0000 <= x <= 0x100_0000
}

/// `r` is the sum of `a` and `b` wherever the sum is plain integer
/// arithmetic: when `a` and `b` hold integers that `f32` represents exactly,
/// and so do the component-wise sums, `r` holds those sums.
pub open spec fn adds_ints(a: Vec2, b: Vec2, r: Vec2) -> bool {
    forall|x1: i32, y1: i32, x2: i32, y2: i32|
        #![trigger vec2_of_ints(x1, y1), vec2_of_ints(x2, y2)]
        f32_exact(x1 as int) && f32_exact(y1 as int) && f32_exact(x2 as int) && f32_exact(y2 as int)
            && f32_exact(x1 + x2) && f32_exact(y1 + y2) && a == vec2_of_ints(x1, y1)
            && b == vec2_of_ints(x2, y2) ==> r == vec2_of_ints((x1 + x2) as i32, (y1 + y2) as i32)
}

/// `glam::IVec2::new(x, y).as_vec2()`; with `(0, 0)` it is the zero vector.
#[verifier::external_body]
fn vec2_from_ints(x: i32, y: i32) -> (r: Vec2)
    ensures
        r == vec2_of_ints(x, y),
{
    glam::IVec2::new(x, y).as_vec2()
}

/// Component-wise sum of two vectors (`<Vec2 as Add>::add`, which adds the
/// `x` and the `y` fields with `f32` addition).
///
/// What is claimed is the integer case only: IEEE 754 addition, which Rust
/// follows, returns the exact sum whenever it is representable, so integers
/// of magnitude at most 2^24 add exactly (and `3 + -3` gives `+0.0`, as
/// `0 as f32` does). Nothing is said of other sums: they round, and a NaN
/// sum has its sign and payload left open.
#[verifier::external_body]
fn vec2_add(a: Vec2, b: Vec2) -> (r: Vec2)
    ensures
        adds_ints(a, b, r),
{
    a + b
}

/// `winit::event::MouseButton`. Its contents are not modelled.
#[verifier::external_type_specification]
#[verifier::external_body]
pub struct ExMouseButton(winit::event::MouseButton);

/// `<winit::event::MouseButton as PartialEq>::eq`, derived by winit: true
/// exactly for the same button.
#[verifier::external_body]
fn same_button(a: &winit::event::MouseButton, b: &winit::event::MouseButton) -> (r: bool)
    ensures
        r == (*a == *b),
{
    *a == *b
}

impl ButtonId for MouseButton {
    fn same(&self, other: &Self) -> (r: bool) {
        same_button(self, other)
    }
}

/// Tracks mouse input state for the current frame.
pub struct MouseState {
    buttons: ButtonState<MouseButton>,
    /// Current mouse position in logical pixels relative to the window.
    pub position: Vec2,
    /// Mouse movement delta this frame (raw device events).
    pub delta: Vec2,
    /// Mouse wheel scroll delta this frame.
    pub scroll: Vec2,
}

impl MouseState {
    /// The state's invariant.
    pub closed spec fn wf(&self) -> bool {
        self.buttons.wf()
    }

    /// Buttons currently held down.
    pub closed spec fn held(&self) -> Set<MouseButton> {
        self.buttons.held()
    }

    /// Buttons pressed since the frame began.
    pub closed spec fn pressed_edges(&self) -> Set<MouseButton> {
        self.buttons.pressed_edges()
    }

    /// Buttons released since the frame began.
    pub closed spec fn released_edges(&self) -> Set<MouseButton> {
        self.buttons.released_edges()
    }

    /// The cursor position.
    pub closed spec fn pos(&self) -> Vec2 {
        self.position
    }

    /// The movement accumulated this frame.
    pub closed spec fn motion(&self) -> Vec2 {
        self.delta
    }

    /// The scroll accumulated this frame.
    pub closed spec fn wheel(&self) -> Vec2 {
        self.scroll
    }

    /// Roll over frame-edge state: clears the press and release edges and
    /// zeroes the movement and scroll deltas. Must be called at the start of
    /// the frame.
    pub fn begin_frame(&mut self)
        requires
            old(self).wf(),
        ensures
            final(self).wf(),
            final(self).held() == old(self).held(),
            final(self).pressed_edges() == Set::<MouseButton>::empty(),
            final(self).released_edges() == Set::<MouseButton>::empty(),
            final(self).pos() == old(self).pos(),
            final(self).motion() == vec2_of_ints(0, 0),
            final(self).wheel() == vec2_of_ints(0, 0),
    {
        self.buttons.begin_frame();
        self.delta = vec2_from_ints(0, 0);
        self.scroll = vec2_from_ints(0, 0);
    }

    /// Process a button press (`is_pressed`) or release.
    ///
    /// Only a change of the held state records an edge.
    pub fn process_button(&mut self, button: MouseButton, is_pressed: bool)
        requires
            old(self).wf(),
        ensures
            final(self).wf(),
            is_pressed ==> {
                &&& final(self).held() == old(self).held().insert(button)
                &&& final(self).pressed_edges() == (if old(self).held().contains(button) {
                    old(self).pressed_edges()
                } else {
                    old(self).pressed_edges().insert(button)
                })
                &&& final(self).released_edges() == old(self).released_edges()
            },
            !is_pressed ==> {
                &&& final(self).held() == old(self).held().remove(button)
                &&& final(self).released_edges() == (if old(self).held().contains(button) {
                    old(self).released_edges().insert(button)
                } else {
                    old(self).released_edges()
                })
                &&& final(self).pressed_edges() == old(self).pressed_edges()
            },
            final(self).pos() == old(self).pos(),
            final(self).motion() == old(self).motion(),
            final(self).wheel() == old(self).wheel(),
    {
        self.buttons.process(button, is_pressed);
    }

    /// Process a cursor movement to `pos`.
    pub fn process_position(&mut self, pos: Vec2)
        ensures
            final(self).pos() == pos,
            final(self).wf() == old(self).wf(),
            final(self).held() == old(self).held(),
            final(self).pressed_edges() == old(self).pressed_edges(),
            final(self).released_edges() == old(self).released_edges(),
            final(self).motion() == old(self).motion(),
            final(self).wheel() == old(self).wheel(),
    {
        self.position = pos;
    }

    /// Accumulate a raw cursor movement into this frame's delta.
    pub fn process_delta(&mut self, delta: Vec2)
        ensures
            final(self).wf() == old(self).wf(),
            final(self).held() == old(self).held(),
            final(self).pressed_edges() == old(self).pressed_edges(),
            final(self).released_edges() == old(self).released_edges(),
            final(self).pos() == old(self).pos(),
            final(self).wheel() == old(self).wheel(),
            adds_ints(old(self).motion(), delta, final(self).motion()),
    {
        self.delta = vec2_add(self.delta, delta);
    }

    /// Accumulate a wheel scroll into this frame's scroll delta.
    pub fn process_scroll(&mut self, delta: Vec2)
        ensures
            final(self).wf() == old(self).wf(),
            final(self).held() == old(self).held(),
            final(self).pressed_edges() == old(self).pressed_edges(),
            final(self).released_edges() == old(self).released_edges(),
            final(self).pos() == old(self).pos(),
            final(self).motion() == old(self).motion(),
            adds_ints(old(self).wheel(), delta, final(self).wheel()),
    {
        self.scroll = vec2_add(self.scroll, delta);
    }

    /// Whether the button is currently held down.
    pub fn is_pressed(&self, button: MouseButton) -> (r: bool)
        ensures
            r == self.held().contains(button),
    {
        self.buttons.is_pressed(&button)
    }

    /// Whether the button was pressed this frame.
    pub fn just_pressed(&self, button: MouseButton) -> (r: bool)
        ensures
            r == self.pressed_edges().contains(button),
    {
        self.buttons.just_pressed(&button)
    }

    /// Whether the button was released this frame.
    pub fn just_released(&self, button: MouseButton) -> (r: bool)
        ensures
            r == self.released_edges().contains(button),
    {
        self.buttons.just_released(&button)
    }
}

/// Wheel deltas accumulate over a frame: from the frame's start, where the
/// scroll is zero, scrolls by `(x1, y1)` and then by `(x2, y2)` leave the
/// scroll at `(x1, y1)` and then at `(x1 + x2, y1 + y2)`, for integer deltas
/// that `f32` holds exactly.
pub proof fn lemma_scrolls_accumulate(
    s0: MouseState,
    s1: MouseState,
    s2: MouseState,
    x1: i32,
    y1: i32,
    x2: i32,
    y2: i32,
)
    requires
        s0.wheel() == vec2_of_ints(0, 0),
        adds_ints(s0.wheel(), vec2_of_ints(x1, y1), s1.wheel()),
        adds_ints(s1.wheel(), vec2_of_ints(x2, y2), s2.wheel()),
        f32_exact(x1 as int),
        f32_exact(y1 as int),
        f32_exact(x2 as int),
        f32_exact(y2 as int),
        f32_exact(x1 + x2),
        f32_exact(y1 + y2),
    ensures
        s1.wheel() == vec2_of_ints(x1, y1),
        s2.wheel() == vec2_of_ints((x1 + x2) as i32, (y1 + y2) as i32),
{
}

/// Cursor motion accumulates over a frame in the same way: from the frame's
/// start, movements by `(x1, y1)` and then by `(x2, y2)` leave the motion at
/// `(x1, y1)` and then at `(x1 + x2, y1 + y2)`, for integer deltas that `f32`
/// holds exactly.
pub proof fn lemma_motions_accumulate(
    s0: MouseState,
    s1: MouseState,
    s2: MouseState,
    x1: i32,
    y1: i32,
    x2: i32,
    y2: i32,
)
    requires
        s0.motion() == vec2_of_ints(0, 0),
        adds_ints(s0.motion(), vec2_of_ints(x1, y1), s1.motion()),
        adds_ints(s1.motion(), vec2_of_ints(x2, y2), s2.motion()),
        f32_exact(x1 as int),
        f32_exact(y1 as int),
        f32_exact(x2 as int),
        f32_exact(y2 as int),
        f32_exact(x1 + x2),
        f32_exact(y1 + y2),
    ensures
        s1.motion() == vec2_of_ints(x1, y1),
        s2.motion() == vec2_of_ints((x1 + x2) as i32, (y1 + y2) as i32),
{
}

impl Default for MouseState {
    /// No button held, no edge recorded, everything at zero.
    fn default() -> (s: Self)
        ensures
            s.wf(),
            s.held() == Set::<MouseButton>::empty(),
            s.pressed_edges() == Set::<MouseButton>::empty(),
            s.released_edges() == Set::<MouseButton>::empty(),
            s.pos() == vec2_of_ints(0, 0),
            s.motion() == vec2_of_ints(0, 0),
            s.wheel() == vec2_of_ints(0, 0),
    {
        MouseState {
            buttons: ButtonState::new(),
            position: vec2_from_ints(0, 0),
            delta: vec2_from_ints(0, 0),
            scroll: vec2_from_ints(0, 0),
        }
    }
}

} // verus!
