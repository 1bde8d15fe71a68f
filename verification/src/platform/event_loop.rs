//! Decisions of the desktop and mobile event loops: what each window-system
//! event is turned into, when the loop stops, and when a redraw is asked for.
//! The loop itself and the window belong to the application, which reports
//! each event here and performs the action that comes back.

use vstd::prelude::*;
use crate::events::{
    is_ctrl_shift_escape, is_escape_press, InputEvent, KeyCode, KeyState, MouseButton, TouchPhase,
};
use crate::host_event::{HostEvent, WindowId};

verus! {

/// A window-system event, reduced to plain values. Coordinates are `f64` bit
/// patterns and scroll amounts, in lines, `f32` bit patterns.
#[derive(Debug, Clone, Copy, PartialEq, Eq, Structural)]
pub enum LoopEvent {
    /// The user asked to close the window.
    CloseRequested,
    /// The window's inner size changed.
    Resized { width: u32, height: u32 },
    /// The window moved.
    Moved { x: i32, y: i32 },
    /// The window gained or lost focus.
    Focused(bool),
    /// The window was destroyed.
    Destroyed,
    /// The window was hidden or shown.
    Occluded,
    /// The pointer moved.
    CursorMoved { x: u64, y: u64 },
    /// A mouse button changed state.
    MouseInput { button: MouseButton, state: KeyState },
    /// The wheel turned.
    MouseWheel { delta_x: u32, delta_y: u32 },
    /// The held modifiers changed.
    ModifiersChanged { ctrl: bool, shift: bool },
    /// A key changed state; `key` is its mapped code.
    KeyboardInput { key: KeyCode, state: KeyState, scancode: u32 },
    /// A touch point changed.
    Touch { id: u64, phase: TouchPhase, x: u64, y: u64 },
    /// Input-method composition.
    Ime,
    /// The window system asks for a redraw.
    RedrawRequested,
    /// Anything else.
    Other,
}

/// The key gesture that makes a backend exit at once.
#[derive(Debug, Clone, Copy, PartialEq, Eq, Structural)]
pub enum PanicGesture {
    /// Ctrl+Shift+Escape (desktop).
    CtrlShiftEscape,
    /// Escape alone (mobile).
    EscapePress,
}

/// The loop's own state.
#[derive(Debug, Clone, Copy, PartialEq, Eq, Structural)]
pub struct LoopState {
    /// The host window id that events are reported for.
    pub window: WindowId,
    /// Whether an exit was requested; every later event then stops the loop.
    pub exit_requested: bool,
    /// Whether Control is held.
    pub ctrl: bool,
    /// Whether Shift is held.
    pub shift: bool,
    /// Whether the window exists.
    pub has_window: bool,
}

/// What the application does after reporting an event.
#[derive(Debug, Clone, Copy, PartialEq, Eq, Structural)]
pub struct LoopAction {
    /// Event to hand to the handler, if any (before stopping).
    pub deliver: Option<HostEvent>,
    /// Whether to stop the loop.
    pub exit: bool,
    /// Whether to ask the window for a redraw.
    pub redraw: bool,
}

/// The state a loop starts in, for `window`.
pub open spec fn initial_loop_state(window: WindowId) -> LoopState {
    LoopState { window, exit_requested: false, ctrl: false, shift: false, has_window: false }
}

/// Whether `gesture` is made by `key` in `state` with the given modifiers.
pub open spec fn gesture_made(
    gesture: PanicGesture,
    key: KeyCode,
    state: KeyState,
    ctrl: bool,
    shift: bool,
) -> bool {
    match gesture {
        PanicGesture::CtrlShiftEscape => key == KeyCode::Escape && state == KeyState::Pressed
            && ctrl && shift,
        PanicGesture::EscapePress => key == KeyCode::Escape && state == KeyState::Pressed,
    }
}

/// An action that only delivers `d`.
pub open spec fn deliver(d: HostEvent) -> LoopAction {
    LoopAction { deliver: Some(d), exit: false, redraw: false }
}

/// An action that does nothing.
pub open spec fn nothing() -> LoopAction {
    LoopAction { deliver: None, exit: false, redraw: false }
}

/// How the shared desktop/mobile loop reacts to `e`: the new state and the
/// action. After an exit request every event just stops the loop. Closing
/// delivers `Close` and stops; a destroyed window stops; size, position,
/// focus, pointer, button, wheel, key and touch events are delivered; a key
/// that makes the panic gesture delivers `PanicExit` instead and stops;
/// modifier changes update the state; a redraw request is passed on to an
/// existing window; the rest is ignored.
pub open spec fn winit_reaction(s: LoopState, e: LoopEvent, gesture: PanicGesture) -> (
    LoopState,
    LoopAction,
) {
    if s.exit_requested {
        (s, LoopAction { deliver: None, exit: true, redraw: false })
    } else {
        match e {
            LoopEvent::CloseRequested => (
                s,
                LoopAction {
                    deliver: Some(HostEvent::Close { window: s.window }),
                    exit: true,
                    redraw: false,
                },
            ),
            LoopEvent::Resized { width, height } => (
                s,
                deliver(HostEvent::Resize { window: s.window, width, height }),
            ),
            LoopEvent::Moved { x, y } => (s, deliver(HostEvent::Move { window: s.window, x, y })),
            LoopEvent::Focused(focused) => (
                s,
                deliver(HostEvent::Focus { window: s.window, focused }),
            ),
            LoopEvent::Destroyed => (s, LoopAction { deliver: None, exit: true, redraw: false }),
            LoopEvent::CursorMoved { x, y } => (
                s,
                deliver(HostEvent::Input(InputEvent::MouseMove { x, y })),
            ),
            LoopEvent::MouseInput { button, state } => (
                s,
                deliver(HostEvent::Input(InputEvent::MouseButton { button, state })),
            ),
            LoopEvent::MouseWheel { delta_x, delta_y } => (
                s,
                deliver(HostEvent::Input(InputEvent::MouseScroll { delta_x, delta_y })),
            ),
            LoopEvent::ModifiersChanged { ctrl, shift } => (
                LoopState { ctrl, shift, ..s },
                nothing(),
            ),
            LoopEvent::KeyboardInput { key, state, scancode } => if gesture_made(
                gesture,
                key,
                state,
                s.ctrl,
                s.shift,
            ) {
                (s, LoopAction { deliver: Some(HostEvent::PanicExit), exit: true, redraw: false })
            } else {
                (s, deliver(HostEvent::Input(InputEvent::Keyboard { key, state, scancode })))
            },
            LoopEvent::Touch { id, phase, x, y } => (
                s,
                deliver(HostEvent::Input(InputEvent::Touch { id, phase, x, y })),
            ),
            LoopEvent::RedrawRequested => (
                s,
                LoopAction { deliver: None, exit: false, redraw: s.has_window },
            ),
            _ => (s, nothing()),
        }
    }
}

/// How the Windows loop reacts to `e`. It reports fewer events than the
/// shared loop: moves, focus, destruction, wheel and touch are ignored, its
/// panic gesture is Ctrl+Shift+Escape, and keys carry scancode 0.
pub open spec fn windows_reaction(s: LoopState, e: LoopEvent) -> (LoopState, LoopAction) {
    if s.exit_requested {
        (s, LoopAction { deliver: None, exit: true, redraw: false })
    } else {
        match e {
            LoopEvent::CloseRequested => (
                s,
                LoopAction {
                    deliver: Some(HostEvent::Close { window: s.window }),
                    exit: true,
                    redraw: false,
                },
            ),
            LoopEvent::Resized { width, height } => (
                s,
                deliver(HostEvent::Resize { window: s.window, width, height }),
            ),
            LoopEvent::CursorMoved { x, y } => (
                s,
                deliver(HostEvent::Input(InputEvent::MouseMove { x, y })),
            ),
            LoopEvent::MouseInput { button, state } => (
                s,
                deliver(HostEvent::Input(InputEvent::MouseButton { button, state })),
            ),
            LoopEvent::ModifiersChanged { ctrl, shift } => (
                LoopState { ctrl, shift, ..s },
                nothing(),
            ),
            LoopEvent::KeyboardInput { key, state, scancode } => if gesture_made(
                PanicGesture::CtrlShiftEscape,
                key,
                state,
                s.ctrl,
                s.shift,
            ) {
                (s, LoopAction { deliver: Some(HostEvent::PanicExit), exit: true, redraw: false })
            } else {
                (s, deliver(HostEvent::Input(InputEvent::Keyboard { key, state, scancode: 0 })))
            },
            LoopEvent::RedrawRequested => (
                s,
                LoopAction { deliver: None, exit: false, redraw: s.has_window },
            ),
            _ => (s, nothing()),
        }
    }
}

/// The state a loop starts in, for `window`.
pub fn new_loop_state(window: WindowId) -> (r: LoopState)
    ensures
        r == initial_loop_state(window),
{
    LoopState { window, exit_requested: false, ctrl: false, shift: false, has_window: false }
}

/// Whether `gesture` is made by `key` in `state` with the given modifiers.
fn gesture_check(gesture: PanicGesture, key: KeyCode, state: KeyState, ctrl: bool, shift: bool) -> (r:
    bool)
    ensures
        r == gesture_made(gesture, key, state, ctrl, shift),
{
    match gesture {
        PanicGesture::CtrlShiftEscape => is_ctrl_shift_escape(key, state, ctrl, shift),
        PanicGesture::EscapePress => is_escape_press(key, state),
    }
}

/// React to a window-system event in the shared desktop/mobile loop.
pub fn winit_window_event(state: &mut LoopState, event: LoopEvent, gesture: PanicGesture) -> (r:
    LoopAction)
    ensures
        (*final(state), r) == winit_reaction(*old(state), event, gesture),
        !old(state).exit_requested ==> (event matches LoopEvent::MouseInput { button, state: st }
            ==> r.deliver == Some(HostEvent::Input(InputEvent::MouseButton { button, state: st }))),
{
    if state.exit_requested {
        return LoopAction { deliver: None, exit: true, redraw: false };
    }
    let window = state.window;
    match event {
        LoopEvent::CloseRequested => LoopAction {
            deliver: Some(HostEvent::Close { window }),
            exit: true,
            redraw: false,
        },
        LoopEvent::Resized { width, height } => LoopAction {
            deliver: Some(HostEvent::Resize { window, width, height }),
            exit: false,
            redraw: false,
        },
        LoopEvent::Moved { x, y } => LoopAction {
            deliver: Some(HostEvent::Move { window, x, y }),
            exit: false,
            redraw: false,
        },
        LoopEvent::Focused(focused) => LoopAction {
            deliver: Some(HostEvent::Focus { window, focused }),
            exit: false,
            redraw: false,
        },
        LoopEvent::Destroyed => LoopAction { deliver: None, exit: true, redraw: false },
        LoopEvent::CursorMoved { x, y } => LoopAction {
            deliver: Some(HostEvent::Input(InputEvent::MouseMove { x, y })),
            exit: false,
            redraw: false,
        },
        LoopEvent::MouseInput { button, state: st } => LoopAction {
            deliver: Some(HostEvent::Input(InputEvent::MouseButton { button, state: st })),
            exit: false,
            redraw: false,
        },
        LoopEvent::MouseWheel { delta_x, delta_y } => LoopAction {
            deliver: Some(HostEvent::Input(InputEvent::MouseScroll { delta_x, delta_y })),
            exit: false,
            redraw: false,
        },
        LoopEvent::ModifiersChanged { ctrl, shift } => {
            state.ctrl = ctrl;
            state.shift = shift;
            LoopAction { deliver: None, exit: false, redraw: false }
        },
        LoopEvent::KeyboardInput { key, state: st, scancode } => {
            if gesture_check(gesture, key, st, state.ctrl, state.shift) {
                LoopAction { deliver: Some(HostEvent::PanicExit), exit: true, redraw: false }
            } else {
                LoopAction {
                    deliver: Some(HostEvent::Input(InputEvent::Keyboard { key, state: st, scancode })),
                    exit: false,
                    redraw: false,
                }
            }
        },
        LoopEvent::Touch { id, phase, x, y } => LoopAction {
            deliver: Some(HostEvent::Input(InputEvent::Touch { id, phase, x, y })),
            exit: false,
            redraw: false,
        },
        LoopEvent::RedrawRequested => LoopAction {
            deliver: None,
            exit: false,
            redraw: state.has_window,
        },
        _ => LoopAction { deliver: None, exit: false, redraw: false },
    }
}

/// React to a window-system event in the Windows loop.
pub fn windows_window_event(state: &mut LoopState, event: LoopEvent) -> (r: LoopAction)
    ensures
        (*final(state), r) == windows_reaction(*old(state), event),
        !old(state).exit_requested ==> (event matches LoopEvent::MouseInput { button, state: st }
            ==> r.deliver == Some(HostEvent::Input(InputEvent::MouseButton { button, state: st }))),
{
    if state.exit_requested {
        return LoopAction { deliver: None, exit: true, redraw: false };
    }
    let window = state.window;
    match event {
        LoopEvent::CloseRequested => LoopAction {
            deliver: Some(HostEvent::Close { window }),
            exit: true,
            redraw: false,
        },
        LoopEvent::Resized { width, height } => LoopAction {
            deliver: Some(HostEvent::Resize { window, width, height }),
            exit: false,
            redraw: false,
        },
        LoopEvent::CursorMoved { x, y } => LoopAction {
            deliver: Some(HostEvent::Input(InputEvent::MouseMove { x, y })),
            exit: false,
            redraw: false,
        },
        LoopEvent::MouseInput { button, state: st } => LoopAction {
            deliver: Some(HostEvent::Input(InputEvent::MouseButton { button, state: st })),
            exit: false,
            redraw: false,
        },
        LoopEvent::ModifiersChanged { ctrl, shift } => {
            state.ctrl = ctrl;
            state.shift = shift;
            LoopAction { deliver: None, exit: false, redraw: false }
        },
        LoopEvent::KeyboardInput { key, state: st, scancode: _ } => {
            if is_ctrl_shift_escape(key, st, state.ctrl, state.shift) {
                LoopAction { deliver: Some(HostEvent::PanicExit), exit: true, redraw: false }
            } else {
                LoopAction {
                    deliver: Some(HostEvent::Input(InputEvent::Keyboard { key, state: st, scancode: 0 })),
                    exit: false,
                    redraw: false,
                }
            }
        },
        LoopEvent::RedrawRequested => LoopAction {
            deliver: None,
            exit: false,
            redraw: state.has_window,
        },
        _ => LoopAction { deliver: None, exit: false, redraw: false },
    }
}

/// Whether the loop should create its window on resumption: only when it has
/// none yet.
pub fn should_create_window(state: &LoopState) -> (r: bool)
    ensures
        r == !state.has_window,
{
    !state.has_window
}

/// Record the outcome of creating the window. A failure stops the loop.
pub fn window_created(state: &mut LoopState, created: bool) -> (exit: bool)
    ensures
        exit == !created,
        *final(state) == (LoopState { has_window: old(state).has_window || created, ..*old(state) }),
{
    if created {
        state.has_window = true;
    }
    !created
}

/// What the loop does when it has no more events for now.
pub struct WaitAction {
    /// Stop the loop.
    pub exit: bool,
    /// Ask the window for a redraw.
    pub redraw: bool,
}

/// When idle: stop if an exit was requested, else redraw an existing window.
pub fn about_to_wait(state: &LoopState) -> (r: WaitAction)
    ensures
        r.exit == state.exit_requested,
        r.redraw == (!state.exit_requested && state.has_window),
{
    if state.exit_requested {
        WaitAction { exit: true, redraw: false }
    } else {
        WaitAction { exit: false, redraw: state.has_window }
    }
}

/// The loop's state changes only when the held modifiers change; every other
/// event leaves it as it was.
pub proof fn lemma_state_moves_only_with_modifiers(s: LoopState, e: LoopEvent, gesture: PanicGesture)
    requires
        !(e is ModifiersChanged),
    ensures
        winit_reaction(s, e, gesture).0 == s,
        windows_reaction(s, e).0 == s,
{
}

/// Once an exit is requested, every event stops the loop and nothing more is
/// delivered.
pub proof fn lemma_exit_request_stops(s: LoopState, e: LoopEvent, gesture: PanicGesture)
    requires
        s.exit_requested,
    ensures
        winit_reaction(s, e, gesture).1 == (LoopAction { deliver: None, exit: true, redraw: false }),
        windows_reaction(s, e).1 == (LoopAction { deliver: None, exit: true, redraw: false }),
{
}

/// The loop stops exactly when the window is closed or destroyed, or the
/// panic gesture is made (or an exit was requested); the panic gesture is
/// delivered as `PanicExit`.
pub proof fn lemma_exit_causes(s: LoopState, e: LoopEvent, gesture: PanicGesture)
    requires
        !s.exit_requested,
    ensures
        winit_reaction(s, e, gesture).1.exit <==> (e is CloseRequested || e is Destroyed || (
        e matches LoopEvent::KeyboardInput { key, state, .. } && gesture_made(
            gesture,
            key,
            state,
            s.ctrl,
            s.shift,
        ))),
        e matches LoopEvent::KeyboardInput { key, state, .. } && gesture_made(
            gesture,
            key,
            state,
            s.ctrl,
            s.shift,
        ) ==> winit_reaction(s, e, gesture).1.deliver == Some(HostEvent::PanicExit),
{
}

/// On the events the Windows loop handles, apart from keys, it acts as the
/// shared loop does with the Ctrl+Shift+Escape gesture; on keys it differs
/// only in reporting scancode 0.
pub proof fn lemma_windows_agrees(s: LoopState, e: LoopEvent)
    ensures
        (e is CloseRequested || e is Resized || e is CursorMoved || e is MouseInput
            || e is ModifiersChanged || e is RedrawRequested) ==> windows_reaction(s, e)
            == winit_reaction(s, e, PanicGesture::CtrlShiftEscape),
        e matches LoopEvent::KeyboardInput { key, state, scancode } ==> windows_reaction(s, e)
            == winit_reaction(
            s,
            LoopEvent::KeyboardInput { key, state, scancode: 0 },
            PanicGesture::CtrlShiftEscape,
        ),
{
}

/// Input is forwarded unchanged while no exit is pending: a button event
/// becomes a button input with the same button and the same state, a pointer
/// move keeps its coordinates, and neither stops the loop or asks for a
/// redraw, in both loops; the shared loop also passes wheel and touch events
/// through with their values.
pub proof fn lemma_input_forwarded(s: LoopState, e: LoopEvent, gesture: PanicGesture)
    requires
        !s.exit_requested,
    ensures
        e matches LoopEvent::MouseInput { button, state } ==> {
            &&& winit_reaction(s, e, gesture) == (s, LoopAction {
                deliver: Some(HostEvent::Input(InputEvent::MouseButton { button, state })),
                exit: false,
                redraw: false,
            })
            &&& windows_reaction(s, e) == (s, LoopAction {
                deliver: Some(HostEvent::Input(InputEvent::MouseButton { button, state })),
                exit: false,
                redraw: false,
            })
        },
        e matches LoopEvent::CursorMoved { x, y } ==> {
            &&& winit_reaction(s, e, gesture).1.deliver == Some(
                HostEvent::Input(InputEvent::MouseMove { x, y }),
            )
            &&& windows_reaction(s, e).1.deliver == Some(
                HostEvent::Input(InputEvent::MouseMove { x, y }),
            )
        },
        e matches LoopEvent::MouseWheel { delta_x, delta_y } ==> winit_reaction(s, e, gesture).1.deliver
            == Some(HostEvent::Input(InputEvent::MouseScroll { delta_x, delta_y })),
        e matches LoopEvent::Touch { id, phase, x, y } ==> winit_reaction(s, e, gesture).1.deliver
            == Some(HostEvent::Input(InputEvent::Touch { id, phase, x, y })),
{
}

} // verus!
