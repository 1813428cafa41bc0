use veltrix::input::action_map::{ActionMap, Binding};
use veltrix::input::keyboard::KeyboardState;
use winit::keyboard::KeyCode;
use veltrix::input::mouse::MouseState;
use winit::event::MouseButton;
use veltrix::input::InputManager;

#[test]
fn key_repeat_records_one_edge() {
    let mut kb = KeyboardState::default();
    kb.process_event(KeyCode::Space, true);
    kb.begin_frame();
    kb.process_event(KeyCode::Space, true);
    assert!(kb.is_pressed(KeyCode::Space));
    assert!(!kb.just_pressed(KeyCode::Space));
    kb.process_event(KeyCode::Space, false);
    assert!(kb.just_released(KeyCode::Space));
    assert!(!kb.is_pressed(KeyCode::Space));
    kb.process_event(KeyCode::KeyA, false);
    assert!(!kb.just_released(KeyCode::KeyA));
}

#[test]
fn press_and_release_in_one_frame() {
    let mut ms = MouseState::default();
    ms.process_button(MouseButton::Right, true);
    ms.process_button(MouseButton::Right, false);
    assert!(ms.just_pressed(MouseButton::Right));
    assert!(ms.just_released(MouseButton::Right));
    assert!(!ms.is_pressed(MouseButton::Right));
    ms.begin_frame();
    assert!(!ms.just_pressed(MouseButton::Right));
    assert!(!ms.just_released(MouseButton::Right));
}

#[test]
fn unbind_all_clears_an_action() {
    let mut input = InputManager::new();
    input.actions.bind("jump", Binding::Key(KeyCode::Space));
    input.actions.bind("fire", Binding::Mouse(MouseButton::Other(7)));
    input.mouse.process_button(MouseButton::Other(7), true);
    input.keyboard.process_event(KeyCode::Space, true);
    assert!(input.action_pressed("jump"));
    assert!(input.action_pressed("fire"));
    input.actions.unbind_all("jump");
    assert!(!input.action_pressed("jump"));
    assert!(!input.action_pressed("unknown"));
    input.begin_frame();
    assert!(!input.action_pressed("fire"));
    assert!(input.actions.is_held("fire", &input.keyboard, &input.mouse));
    let map = ActionMap::new();
    assert!(!map.is_held("fire", &input.keyboard, &input.mouse));
}

#[test]
fn mouse_motion_accumulates_until_the_next_frame() {
    let mut ms = MouseState::default();
    assert_eq!(ms.position, glam::Vec2::ZERO);
    assert_eq!(ms.delta, glam::Vec2::ZERO);
    ms.process_delta(glam::Vec2::new(1.0, 2.0));
    ms.process_delta(glam::Vec2::new(0.5, -1.0));
    assert_eq!(ms.delta, glam::Vec2::new(1.5, 1.0));
    ms.process_scroll(glam::Vec2::new(0.0, 3.0));
    ms.process_position(glam::Vec2::new(10.0, 20.0));
    assert_eq!(ms.scroll, glam::Vec2::new(0.0, 3.0));
    ms.begin_frame();
    assert_eq!(ms.delta, glam::Vec2::ZERO);
    assert_eq!(ms.scroll, glam::Vec2::ZERO);
    assert_eq!(ms.position, glam::Vec2::new(10.0, 20.0));
}
