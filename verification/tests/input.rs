use veltrix::input::action_map::{ActionMap, Binding};
use veltrix::input::keyboard::KeyboardState;
use winit::keyboard::KeyCode;
use veltrix::input::mouse::MouseState;
use winit::event::MouseButton;

#[test]
fn binds_and_evaluates_correctly() {
    let mut map = ActionMap::new();
    map.bind("attack", Binding::Key(KeyCode::KeyZ));
    map.bind("attack", Binding::Mouse(MouseButton::Left));

    let mut kb = KeyboardState::default();
    let mut ms = MouseState::default();

    kb.process_event(KeyCode::KeyZ, true);
    assert!(map.is_pressed("attack", &kb, &ms));

    kb.begin_frame();
    ms.begin_frame();
    assert!(!map.is_pressed("attack", &kb, &ms));
    assert!(map.is_held("attack", &kb, &ms));
}
