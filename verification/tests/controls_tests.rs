use heat_room::controls::{Action, Controls, InputState, Key, State, WindowInput};

fn key(k: Key, pressed: bool) -> WindowInput {
    WindowInput::KeyboardInput { key: k, pressed }
}

fn render_of(a: Action) -> (bool, (i32, i32, i32)) {
    match a {
        Action::Render { move_camera, axes } => (move_camera, axes),
        other => panic!("expected a render, got {:?}", other),
    }
}

#[test]
fn move_axes_from_keys() {
    let mut i = InputState::new();
    assert_eq!(i.move_axes(), (0, 0, 0));
    i.set_key(Key::KeyW, true);
    i.set_key(Key::KeyD, true);
    assert_eq!(i.move_axes(), (1, 0, 1));
    i.set_key(Key::KeyA, true);
    i.set_key(Key::ShiftRight, true);
    assert_eq!(i.move_axes(), (0, -1, 1));
    i.set_key(Key::Space, true);
    i.set_key(Key::KeyS, true);
    assert_eq!(i.move_axes(), (0, 0, 0));
    i.set_key(Key::ShiftLeft, false);
    assert_eq!(i.move_axes(), (0, 1, 0));
    i.set_key(Key::Other, true);
    assert_eq!(i.move_axes(), (0, 1, 0));
    let d = InputState::default();
    assert_eq!(d.move_axes(), (0, 0, 0));
}

#[test]
fn cursor_lock_follows_click_focus_and_escape() {
    let mut c = Controls::new();
    assert!(!c.cursor_locked);
    assert!(matches!(c.handle(WindowInput::MouseInput { left: false, pressed: true }), Action::Nothing));
    assert!(!c.cursor_locked);
    assert!(matches!(c.handle(WindowInput::MouseInput { left: true, pressed: false }), Action::Nothing));
    assert!(matches!(c.handle(WindowInput::MouseInput { left: true, pressed: true }), Action::SetCursorLock(true)));
    assert!(c.cursor_locked);
    assert!(matches!(c.handle(key(Key::Escape, false)), Action::Nothing));
    assert!(c.cursor_locked);
    assert!(matches!(c.handle(key(Key::Escape, true)), Action::SetCursorLock(false)));
    assert!(!c.cursor_locked);
    c.handle(WindowInput::MouseInput { left: true, pressed: true });
    assert!(matches!(c.handle(WindowInput::Focused(true)), Action::Nothing));
    assert!(c.cursor_locked);
    assert!(matches!(c.handle(WindowInput::Focused(false)), Action::SetCursorLock(false)));
    assert!(!c.cursor_locked);
    // Escape releases even when the cursor is already free.
    assert!(matches!(c.handle(key(Key::Escape, true)), Action::SetCursorLock(false)));
}

#[test]
fn camera_moves_only_while_locked() {
    let mut c = Controls::new();
    c.handle(key(Key::KeyW, true));
    assert_eq!(render_of(c.handle(WindowInput::RedrawRequested)), (false, (0, 0, 1)));
    c.handle(WindowInput::MouseInput { left: true, pressed: true });
    assert_eq!(render_of(c.handle(WindowInput::RedrawRequested)), (true, (0, 0, 1)));
    c.handle(key(Key::KeyW, false));
    assert_eq!(render_of(c.handle(WindowInput::RedrawRequested)), (true, (0, 0, 0)));
}

#[test]
fn resize_close_and_other_events() {
    let mut c = Controls::new();
    assert!(matches!(c.handle(WindowInput::Resized { width: 0, height: 720 }), Action::Nothing));
    assert!(matches!(c.handle(WindowInput::Resized { width: 1280, height: 0 }), Action::Nothing));
    assert!(matches!(
        c.handle(WindowInput::Resized { width: 1280, height: 720 }),
        Action::Resize { width: 1280, height: 720 }
    ));
    assert!(matches!(c.handle(WindowInput::CloseRequested), Action::Exit));
    assert!(matches!(c.handle(WindowInput::Other), Action::Nothing));
}

#[test]
fn pending_state_ignores_events_until_resumed() {
    let mut s = State::new_pending();
    assert!(s.is_pending());
    assert!(matches!(s.window_event(WindowInput::CloseRequested), Action::Nothing));
    assert!(matches!(s.window_event(key(Key::KeyW, true)), Action::Nothing));
    assert!(s.resumed());
    assert!(!s.is_pending());
    // The key press before the start was not recorded.
    assert_eq!(render_of(s.window_event(WindowInput::RedrawRequested)), (false, (0, 0, 0)));
    s.window_event(key(Key::KeyD, true));
    assert!(!s.resumed());
    // A second resume keeps the controls.
    assert_eq!(render_of(s.window_event(WindowInput::RedrawRequested)), (false, (1, 0, 0)));
    assert!(matches!(s.window_event(WindowInput::CloseRequested), Action::Exit));
}
