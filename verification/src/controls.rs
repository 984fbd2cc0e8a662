//! Input state and the decisions taken on window events.
//!
//! The window system, the GPU and the clock stay outside: this module is
//! told what happened (a [`WindowInput`]) and answers with what must be done
//! (an [`Action`]), keeping the movement keys and the cursor lock up to date.

use vstd::prelude::*;

verus! {

/// Which movement keys are held down.
#[derive(Clone, Copy, Debug)]
pub struct InputState {
    pub w: bool,
    pub a: bool,
    pub s: bool,
    pub d: bool,
    pub space: bool,
    pub shift: bool,
}

/// The value of one movement axis: +1 when only the positive key is held,
/// -1 when only the negative one is, 0 otherwise.
pub open spec fn axis(positive: bool, negative: bool) -> int {
    (if positive { 1int } else { 0int }) - (if negative { 1int } else { 0int })
}

/// The keys that the scene responds to.
#[derive(Clone, Copy, Debug)]
pub enum Key {
    KeyW,
    KeyA,
    KeyS,
    KeyD,
    Space,
    ShiftLeft,
    ShiftRight,
    Escape,
    Other,
}

/// What the window system reports.
#[derive(Clone, Copy, Debug)]
pub enum WindowInput {
    CloseRequested,
    Resized { width: u32, height: u32 },
    RedrawRequested,
    /// A mouse button went down or up; `left` tells whether it was the left one.
    MouseInput { left: bool, pressed: bool },
    Focused(bool),
    /// A key went down or up.
    KeyboardInput { key: Key, pressed: bool },
    Other,
}

/// What must be done in answer to an event.
#[derive(Clone, Copy, Debug)]
pub enum Action {
    Nothing,
    /// Leave the event loop.
    Exit,
    /// Reconfigure the surface and depth buffer to this (non-zero) size.
    Resize { width: u32, height: u32 },
    /// Draw a frame and ask for the next one. The camera moves by the mouse
    /// and by `axes` (right, up, forward) only when `move_camera` holds.
    Render { move_camera: bool, axes: (i32, i32, i32) },
    /// Grab and hide the cursor (`true`) or release and show it (`false`).
    SetCursorLock(bool),
}

/// The input state of a running scene.
#[derive(Clone, Copy, Debug)]
pub struct Controls {
    pub input: InputState,
    pub cursor_locked: bool,
}

/// The scene's state as the event loop sees it: `None` until the window and
/// the graphics exist.
pub struct State {
    controls: Option<Controls>,
}

/// No key held.
pub open spec fn released() -> InputState {
    InputState { w: false, a: false, s: false, d: false, space: false, shift: false }
}

/// The controls of a scene just started: no key held, cursor free.
pub open spec fn initial_controls() -> Controls {
    Controls { input: released(), cursor_locked: false }
}

/// The movement keys after `key` went down (`pressed`) or up. Both shift
/// keys drive the same flag; other keys change nothing.
pub open spec fn key_step(input: InputState, key: Key, pressed: bool) -> InputState {
    match key {
        Key::KeyW => InputState { w: pressed, ..input },
        Key::KeyA => InputState { a: pressed, ..input },
        Key::KeyS => InputState { s: pressed, ..input },
        Key::KeyD => InputState { d: pressed, ..input },
        Key::Space => InputState { space: pressed, ..input },
        Key::ShiftLeft | Key::ShiftRight => InputState { shift: pressed, ..input },
        _ => input,
    }
}

/// The movement axes of `input`: (right, up, forward).
pub open spec fn axes_of(input: InputState) -> (int, int, int) {
    (axis(input.d, input.a), axis(input.space, input.shift), axis(input.w, input.s))
}

/// The controls after `event`, and what must be done.
pub open spec fn step(c: Controls, event: WindowInput) -> (Controls, Action) {
    match event {
        WindowInput::CloseRequested => (c, Action::Exit),
        WindowInput::Resized { width, height } => {
            if width == 0 || height == 0 {
                (c, Action::Nothing)
            } else {
                (c, Action::Resize { width, height })
            }
        },
        WindowInput::RedrawRequested => {
            let (x, y, z) = axes_of(c.input);
            (c, Action::Render { move_camera: c.cursor_locked, axes: (x as i32, y as i32, z as i32) })
        },
        WindowInput::MouseInput { left, pressed } => {
            if left && pressed {
                (Controls { cursor_locked: true, ..c }, Action::SetCursorLock(true))
            } else {
                (c, Action::Nothing)
            }
        },
        WindowInput::Focused(focused) => {
            if !focused {
                (Controls { cursor_locked: false, ..c }, Action::SetCursorLock(false))
            } else {
                (c, Action::Nothing)
            }
        },
        WindowInput::KeyboardInput { key, pressed } => {
            match key {
                Key::Escape => {
                    if pressed {
                        (Controls { cursor_locked: false, ..c }, Action::SetCursorLock(false))
                    } else {
                        (c, Action::Nothing)
                    }
                },
                _ => (Controls { input: key_step(c.input, key, pressed), ..c }, Action::Nothing),
            }
        },
        WindowInput::Other => (c, Action::Nothing),
    }
}

impl InputState {
    /// No key held.
    pub fn new() -> (input: InputState)
        ensures
            input == released(),
    {
        InputState { w: false, a: false, s: false, d: false, space: false, shift: false }
    }

    /// The movement axes: right (D minus A), up (space minus shift) and
    /// forward (W minus S), each -1, 0 or 1.
    pub fn move_axes(&self) -> (axes: (i32, i32, i32))
        ensures
            axes.0 == axes_of(*self).0,
            axes.1 == axes_of(*self).1,
            axes.2 == axes_of(*self).2,
            -1 <= axes.0 <= 1,
            -1 <= axes.1 <= 1,
            -1 <= axes.2 <= 1,
    {
        let x: i32 = (if self.d { 1i32 } else { 0i32 }) - (if self.a { 1i32 } else { 0i32 });
        let y: i32 = (if self.space { 1i32 } else { 0i32 }) - (if self.shift { 1i32 } else { 0i32 });
        let z: i32 = (if self.w { 1i32 } else { 0i32 }) - (if self.s { 1i32 } else { 0i32 });
        (x, y, z)
    }

    /// Records that `key` went down (`pressed`) or up.
    pub fn set_key(&mut self, key: Key, pressed: bool)
        ensures
            *final(self) == key_step(*old(self), key, pressed),
    {
        match key {
            Key::KeyW => self.w = pressed,
            Key::KeyA => self.a = pressed,
            Key::KeyS => self.s = pressed,
            Key::KeyD => self.d = pressed,
            Key::Space => self.space = pressed,
            Key::ShiftLeft | Key::ShiftRight => self.shift = pressed,
            _ => {},
        }
    }
}

impl Default for InputState {
    fn default() -> (input: InputState)
        ensures
            input == released(),
    {
        InputState::new()
    }
}

impl Controls {
    /// The controls of a scene just started: no key held, cursor free.
    pub fn new() -> (c: Controls)
        ensures
            c == initial_controls(),
    {
        Controls { input: InputState::new(), cursor_locked: false }
    }

    /// Takes in `event` and says what must be done: close, resize to a
    /// non-zero size, draw (moving the camera only while the cursor is
    /// locked), or grab or release the cursor (a left click grabs it; losing
    /// focus or pressing Escape releases it). Movement keys update the held
    /// keys.
    pub fn handle(&mut self, event: WindowInput) -> (action: Action)
        ensures
            (*final(self), action) == step(*old(self), event),
    {
        match event {
            WindowInput::CloseRequested => Action::Exit,
            WindowInput::Resized { width, height } => {
                if width == 0 || height == 0 {
                    Action::Nothing
                } else {
                    Action::Resize { width, height }
                }
            },
            WindowInput::RedrawRequested => {
                let axes = self.input.move_axes();
                Action::Render { move_camera: self.cursor_locked, axes }
            },
            WindowInput::MouseInput { left, pressed } => {
                if left && pressed {
                    self.cursor_locked = true;
                    Action::SetCursorLock(true)
                } else {
                    Action::Nothing
                }
            },
            WindowInput::Focused(focused) => {
                if !focused {
                    self.cursor_locked = false;
                    Action::SetCursorLock(false)
                } else {
                    Action::Nothing
                }
            },
            WindowInput::KeyboardInput { key, pressed } => {
                match key {
                    Key::Escape => {
                        if pressed {
                            self.cursor_locked = false;
                            Action::SetCursorLock(false)
                        } else {
                            Action::Nothing
                        }
                    },
                    _ => {
                        self.input.set_key(key, pressed);
                        Action::Nothing
                    },
                }
            },
            WindowInput::Other => Action::Nothing,
        }
    }
}

impl State {
    /// The controls of the running scene, or `None` before it has started.
    pub closed spec fn controls(&self) -> Option<Controls> {
        self.controls
    }

    /// A state waiting for the window: the scene has not started.
    pub fn new_pending() -> (state: State)
        ensures
            state.controls() is None,
    {
        State { controls: None }
    }

    /// The scene has not started yet.
    pub fn is_pending(&self) -> (pending: bool)
        ensures
            pending == self.controls() is None,
    {
        self.controls.is_none()
    }

    /// The event loop resumed. Returns `true` when the window and the
    /// graphics must now be made: the first time only, when the scene
    /// starts with fresh controls. Later calls change nothing.
    pub fn resumed(&mut self) -> (start: bool)
        ensures
            start == old(self).controls() is None,
            start ==> final(self).controls() == Some(initial_controls()),
            !start ==> final(self).controls() == old(self).controls(),
    {
        if self.controls.is_some() {
            false
        } else {
            self.controls = Some(Controls::new());
            true
        }
    }

    /// Takes in a window event. Before the scene has started nothing
    /// happens; afterwards the controls take it in as [`step`] says.
    pub fn window_event(&mut self, event: WindowInput) -> (action: Action)
        ensures
            old(self).controls() is None ==> final(self).controls() is None && action
                == Action::Nothing,
            old(self).controls() matches Some(c) ==> final(self).controls() == Some(step(c, event).0)
                && action == step(c, event).1,
    {
        match &mut self.controls {
            None => Action::Nothing,
            Some(c) => c.handle(event),
        }
    }
}

/// Only a press of the left mouse button locks the cursor.
pub proof fn lemma_only_left_click_locks(c: Controls, event: WindowInput)
    requires
        !c.cursor_locked,
        step(c, event).0.cursor_locked,
    ensures
        event == (WindowInput::MouseInput { left: true, pressed: true }),
{
}

/// The held keys change only on keyboard events; closing, resizing,
/// drawing, clicking and focus changes leave them as they are.
pub proof fn lemma_keys_change_only_on_keyboard(c: Controls, event: WindowInput)
    requires
        !(event is KeyboardInput),
    ensures
        step(c, event).0.input == c.input,
{
}

/// For a key, only its last event counts: a press followed by a release
/// leaves the keys as a release alone would (and so on for any two events).
pub proof fn lemma_last_key_event_counts(input: InputState, key: Key, first: bool, second: bool)
    ensures
        key_step(key_step(input, key, first), key, second) == key_step(input, key, second),
{
}

/// Pressing Escape always frees the cursor and leaves the held keys alone.
pub proof fn lemma_escape_frees_cursor(c: Controls)
    ensures
        step(c, WindowInput::KeyboardInput { key: Key::Escape, pressed: true }) == (
        Controls { cursor_locked: false, ..c },
        Action::SetCursorLock(false),
    ),
{
}

/// A frame moves the camera exactly when the cursor is locked, by the axes
/// of the held keys, and drawing changes no control.
pub proof fn lemma_render_follows_lock(c: Controls)
    ensures
        step(c, WindowInput::RedrawRequested).0 == c,
        step(c, WindowInput::RedrawRequested).1 matches Action::Render { move_camera, axes } && move_camera
            == c.cursor_locked && axes.0 == axes_of(c.input).0 && axes.1 == axes_of(c.input).1 && axes.2
            == axes_of(c.input).2,
{
}

/// Whether `event` asks to release the cursor: losing focus, or pressing
/// Escape.
pub open spec fn releases_cursor(event: WindowInput) -> bool {
    ||| event == WindowInput::Focused(false)
    ||| event == (WindowInput::KeyboardInput { key: Key::Escape, pressed: true })
}

/// How the cursor lock evolves: a left-button press locks it, losing focus or
/// pressing Escape releases it, and every other event (a release of any
/// mouse button, another button, any other key) leaves it as it was. The
/// action that comes with a change says the new state to the window.
pub proof fn lemma_cursor_lock_transitions(c: Controls, event: WindowInput)
    ensures
        step(c, event).0.cursor_locked == (if event == (WindowInput::MouseInput {
            left: true,
            pressed: true,
        }) {
            true
        } else if releases_cursor(event) {
            false
        } else {
            c.cursor_locked
        }),
        event == (WindowInput::MouseInput { left: true, pressed: true }) ==> step(c, event).1
            == Action::SetCursorLock(true),
        releases_cursor(event) ==> step(c, event).1 == Action::SetCursorLock(false),
        step(c, event).1 matches Action::SetCursorLock(b) ==> b == step(c, event).0.cursor_locked,
        event is MouseInput ==> step(c, event).0.cursor_locked == (c.cursor_locked || (
        event->MouseInput_left && event->MouseInput_pressed)),
{
}

/// A key event changes only the flag of that key (both shift keys drive the
/// shift flag) and sets it to whether the key went down; Escape and other
/// keys change no flag.
pub proof fn lemma_key_changes_own_flag(input: InputState, key: Key, pressed: bool)
    ensures
        key_step(input, key, pressed).w == (if key == Key::KeyW { pressed } else { input.w }),
        key_step(input, key, pressed).a == (if key == Key::KeyA { pressed } else { input.a }),
        key_step(input, key, pressed).s == (if key == Key::KeyS { pressed } else { input.s }),
        key_step(input, key, pressed).d == (if key == Key::KeyD { pressed } else { input.d }),
        key_step(input, key, pressed).space == (if key == Key::Space { pressed } else { input.space }),
        key_step(input, key, pressed).shift == (if key == Key::ShiftLeft || key == Key::ShiftRight {
            pressed
        } else {
            input.shift
        }),
{
}

/// Each movement axis is the difference of its own two keys, whatever the
/// other keys: right is D minus A, up is Space minus Shift, forward is W
/// minus S (so S alone walks backward).
pub proof fn lemma_axes_are_key_differences(input: InputState)
    ensures
        axes_of(input).0 == (if input.d { 1int } else { 0int }) - (if input.a { 1int } else { 0int }),
        axes_of(input).1 == (if input.space { 1int } else { 0int }) - (if input.shift { 1int } else {
            0int
        }),
        axes_of(input).2 == (if input.w { 1int } else { 0int }) - (if input.s { 1int } else { 0int }),
        input.s && !input.w ==> axes_of(input).2 == -1,
        input.a && !input.d ==> axes_of(input).0 == -1,
        input.shift && !input.space ==> axes_of(input).1 == -1,
{
}

/// What each event asks for: leaving on a close request only, a resize to
/// exactly the reported size when both sides are non-zero, a frame on each
/// redraw request, and nothing on events that change no state.
pub proof fn lemma_actions(c: Controls, event: WindowInput)
    ensures
        (step(c, event).1 == Action::Exit) == (event == WindowInput::CloseRequested),
        (step(c, event).1 is Render) == (event == WindowInput::RedrawRequested),
        step(c, event).1 matches Action::Resize { width, height } ==> event == (WindowInput::Resized {
            width,
            height,
        }) && width != 0 && height != 0,
        event matches WindowInput::Resized { width, height } ==> (width != 0 && height != 0) == (step(
            c,
            event,
        ).1 is Resize),
        event is Other ==> step(c, event) == (c, Action::Nothing),
        !(event is KeyboardInput) && !(event is MouseInput) && !(event is Focused) ==> step(c, event).0
            == c,
{
}

/// A scene starts with the cursor free, no key held and the camera still.
pub proof fn lemma_fresh_controls()
    ensures
        !initial_controls().cursor_locked,
        !released().w && !released().a && !released().s && !released().d && !released().space
            && !released().shift,
        axes_of(released()) == (0int, 0int, 0int),
{
}

} // verus!
