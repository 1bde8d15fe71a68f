use workspace::events::{InputEvent, KeyCode, KeyState, MouseButton, TouchPhase};
use workspace::host_event::{CursorStyle, HostEvent, WindowId};
use workspace::platform::event_loop::{
    about_to_wait, new_loop_state, should_create_window, window_created, windows_window_event,
    winit_window_event, LoopAction, LoopEvent, PanicGesture,
};
use workspace::platform::mock::MockPlatform;
use workspace::window::{Window, WindowConfig};

// ---------------------------------------------------------------- window

#[test]
fn window_config_default() {
    let cfg = WindowConfig::default();
    assert_eq!(cfg.title, "Workspace");
    assert_eq!(cfg.width, 1280);
    assert_eq!(cfg.height, 720);
    assert!(cfg.high_dpi);
    assert!(!cfg.fullscreen);
}

#[test]
fn window_config_custom() {
    let cfg = WindowConfig {
        title: "Test".into(),
        width: 800,
        height: 600,
        high_dpi: false,
        fullscreen: true,
    };
    assert_eq!(cfg.title, "Test");
    assert_eq!(cfg.width, 800);
    assert_eq!(cfg.height, 600);
    assert!(!cfg.high_dpi);
    assert!(cfg.fullscreen);
}

#[test]
fn window_creation() {
    let cfg = WindowConfig::default();
    let win = Window::new(cfg.clone());
    assert_eq!(win.config().title, "Workspace");
    assert_eq!(win.config().width, 1280);
}

#[test]
fn window_request_close_does_not_panic() {
    let cfg = WindowConfig::default();
    let mut win = Window::new(cfg);
    win.request_close();
}

#[test]
fn window_request_close_keeps_config() {
    let mut win = Window::new(WindowConfig::default());
    win.request_close();
    assert_eq!(win.config().height, 720);
    assert_eq!(win.config().title, "Workspace");
}

// ---------------------------------------------------------------- mock platform

#[test]
fn mock_init_sets_flag() {
    let mut mock = MockPlatform::new();
    assert!(!mock.init_called());
    mock.init().unwrap();
    assert!(mock.init_called());
}

#[test]
fn mock_create_window_returns_incrementing_ids() {
    let mut mock = MockPlatform::new();
    let w1 = mock.create_window(WindowConfig::default()).unwrap();
    let w2 = mock.create_window(WindowConfig::default()).unwrap();
    assert_eq!(w1, WindowId(1));
    assert_eq!(w2, WindowId(2));
}

#[test]
fn mock_poll_events_drains_queue() {
    let mut mock = MockPlatform::new();
    mock.push_event(HostEvent::PanicExit);
    mock.push_event(HostEvent::Close {
        window: WindowId(1),
    });

    let batch1 = mock.poll_events();
    assert_eq!(batch1.len(), 2);
    assert!(matches!(batch1[0], HostEvent::PanicExit));

    let batch2 = mock.poll_events();
    assert!(batch2.is_empty());
}

#[test]
fn mock_request_exit_sets_flag() {
    let mut mock = MockPlatform::new();
    assert!(!mock.exit_requested());
    mock.request_exit();
    assert!(mock.exit_requested());
}

#[test]
fn mock_shutdown_sets_flag() {
    let mut mock = MockPlatform::new();
    assert!(!mock.shutdown_called());
    mock.shutdown();
    assert!(mock.shutdown_called());
}

#[test]
fn mock_full_lifecycle() {
    let mut mock = MockPlatform::new();

    mock.init().unwrap();
    assert!(mock.init_called());

    let win = mock.create_window(WindowConfig::default()).unwrap();
    assert_eq!(win, WindowId(1));

    mock.push_event(HostEvent::Input(InputEvent::Keyboard {
        key: KeyCode::Escape,
        state: KeyState::Pressed,
        scancode: 1,
    }));
    mock.push_event(HostEvent::Input(InputEvent::MouseButton {
        button: MouseButton::Left,
        state: KeyState::Pressed,
    }));
    mock.push_event(HostEvent::PanicExit);

    let events = mock.poll_events();
    assert_eq!(events.len(), 3);
    assert!(matches!(events[2], HostEvent::PanicExit));

    mock.request_exit();
    assert!(mock.exit_requested());

    mock.shutdown();
    assert!(mock.shutdown_called());
}

#[test]
fn mock_default_is_new() {
    let mut mock = MockPlatform::default();
    assert!(!mock.init_called());
    assert_eq!(mock.create_window(WindowConfig::default()).unwrap(), WindowId(1));
    mock.set_cursor_style(CursorStyle::Hidden);
    assert!(mock.poll_events().is_empty());
}

#[test]
fn tc_01_021_mock_platform_event_flow() {
    let mut mock = MockPlatform::new();
    mock.init().unwrap();

    let win = mock.create_window(WindowConfig::default()).unwrap();
    assert_eq!(win, WindowId(1));

    mock.push_event(HostEvent::Resize {
        window: win,
        width: 1920,
        height: 1080,
    });
    mock.push_event(HostEvent::Input(InputEvent::MouseMove { x: 100.0f64.to_bits(), y: 200.0f64.to_bits() }));

    let events = mock.poll_events();
    assert_eq!(events.len(), 2);
    assert!(matches!(events[0], HostEvent::Resize { width: 1920, height: 1080, .. }));
    assert!(matches!(events[1], HostEvent::Input(InputEvent::MouseMove { .. })));
}

#[test]
fn tc_01_022_panic_exit_event() {
    let mut mock = MockPlatform::new();
    mock.push_event(HostEvent::PanicExit);

    let events = mock.poll_events();
    assert_eq!(events.len(), 1);
    assert!(matches!(events[0], HostEvent::PanicExit));
}

// ---------------------------------------------------------------- event loop

fn delivered(e: HostEvent) -> LoopAction {
    LoopAction { deliver: Some(e), exit: false, redraw: false }
}

#[test]
fn loop_close_delivers_and_exits() {
    let mut s = new_loop_state(WindowId(1));
    let a = winit_window_event(&mut s, LoopEvent::CloseRequested, PanicGesture::CtrlShiftEscape);
    assert_eq!(a, LoopAction { deliver: Some(HostEvent::Close { window: WindowId(1) }), exit: true, redraw: false });
}

#[test]
fn loop_forwards_window_and_pointer_events() {
    let mut s = new_loop_state(WindowId(3));
    let g = PanicGesture::CtrlShiftEscape;
    assert_eq!(
        winit_window_event(&mut s, LoopEvent::Resized { width: 640, height: 480 }, g),
        delivered(HostEvent::Resize { window: WindowId(3), width: 640, height: 480 })
    );
    assert_eq!(
        winit_window_event(&mut s, LoopEvent::Moved { x: -5, y: 7 }, g),
        delivered(HostEvent::Move { window: WindowId(3), x: -5, y: 7 })
    );
    assert_eq!(
        winit_window_event(&mut s, LoopEvent::Focused(false), g),
        delivered(HostEvent::Focus { window: WindowId(3), focused: false })
    );
    let x = 12.5f64.to_bits();
    let y = 3.0f64.to_bits();
    assert_eq!(
        winit_window_event(&mut s, LoopEvent::CursorMoved { x, y }, g),
        delivered(HostEvent::Input(InputEvent::MouseMove { x, y }))
    );
    let dy = (-1.0f32).to_bits();
    assert_eq!(
        winit_window_event(&mut s, LoopEvent::MouseWheel { delta_x: 0, delta_y: dy }, g),
        delivered(HostEvent::Input(InputEvent::MouseScroll { delta_x: 0, delta_y: dy }))
    );
    assert_eq!(
        winit_window_event(&mut s, LoopEvent::Touch { id: 9, phase: TouchPhase::Ended, x, y }, g),
        delivered(HostEvent::Input(InputEvent::Touch { id: 9, phase: TouchPhase::Ended, x, y }))
    );
    assert_eq!(winit_window_event(&mut s, LoopEvent::Occluded, g), LoopAction { deliver: None, exit: false, redraw: false });
    assert_eq!(winit_window_event(&mut s, LoopEvent::Destroyed, g), LoopAction { deliver: None, exit: true, redraw: false });
}

#[test]
fn loop_panic_gesture_needs_modifiers() {
    let mut s = new_loop_state(WindowId(1));
    let g = PanicGesture::CtrlShiftEscape;
    let esc = LoopEvent::KeyboardInput { key: KeyCode::Escape, state: KeyState::Pressed, scancode: 1 };
    assert_eq!(
        winit_window_event(&mut s, esc, g),
        delivered(HostEvent::Input(InputEvent::Keyboard { key: KeyCode::Escape, state: KeyState::Pressed, scancode: 1 }))
    );
    assert_eq!(
        winit_window_event(&mut s, LoopEvent::ModifiersChanged { ctrl: true, shift: true }, g),
        LoopAction { deliver: None, exit: false, redraw: false }
    );
    assert_eq!(
        winit_window_event(&mut s, esc, g),
        LoopAction { deliver: Some(HostEvent::PanicExit), exit: true, redraw: false }
    );
}

#[test]
fn loop_mobile_gesture_is_plain_escape() {
    let mut s = new_loop_state(WindowId(1));
    let esc = LoopEvent::KeyboardInput { key: KeyCode::Escape, state: KeyState::Pressed, scancode: 0 };
    assert_eq!(
        winit_window_event(&mut s, esc, PanicGesture::EscapePress),
        LoopAction { deliver: Some(HostEvent::PanicExit), exit: true, redraw: false }
    );
    let up = LoopEvent::KeyboardInput { key: KeyCode::Escape, state: KeyState::Released, scancode: 0 };
    assert_eq!(
        winit_window_event(&mut s, up, PanicGesture::EscapePress),
        delivered(HostEvent::Input(InputEvent::Keyboard { key: KeyCode::Escape, state: KeyState::Released, scancode: 0 }))
    );
}

#[test]
fn loop_redraw_only_with_window() {
    let mut s = new_loop_state(WindowId(1));
    let g = PanicGesture::EscapePress;
    assert_eq!(winit_window_event(&mut s, LoopEvent::RedrawRequested, g).redraw, false);
    assert!(should_create_window(&s));
    assert!(!window_created(&mut s, true));
    assert!(!should_create_window(&s));
    assert_eq!(winit_window_event(&mut s, LoopEvent::RedrawRequested, g).redraw, true);
    let w = about_to_wait(&s);
    assert!(!w.exit);
    assert!(w.redraw);
}

#[test]
fn loop_window_creation_failure_exits() {
    let mut s = new_loop_state(WindowId(1));
    assert!(window_created(&mut s, false));
    assert!(should_create_window(&s));
    let w = about_to_wait(&s);
    assert!(!w.exit);
    assert!(!w.redraw);
}

#[test]
fn windows_loop_ignores_extra_events_and_zeroes_scancodes() {
    let mut s = new_loop_state(WindowId(2));
    let none = LoopAction { deliver: None, exit: false, redraw: false };
    assert_eq!(windows_window_event(&mut s, LoopEvent::Moved { x: 1, y: 2 }), none);
    assert_eq!(windows_window_event(&mut s, LoopEvent::Focused(true)), none);
    assert_eq!(windows_window_event(&mut s, LoopEvent::Destroyed), none);
    assert_eq!(windows_window_event(&mut s, LoopEvent::MouseWheel { delta_x: 0, delta_y: 0 }), none);
    assert_eq!(
        windows_window_event(&mut s, LoopEvent::KeyboardInput { key: KeyCode::A, state: KeyState::Pressed, scancode: 30 }),
        delivered(HostEvent::Input(InputEvent::Keyboard { key: KeyCode::A, state: KeyState::Pressed, scancode: 0 }))
    );
    windows_window_event(&mut s, LoopEvent::ModifiersChanged { ctrl: true, shift: true });
    assert_eq!(
        windows_window_event(&mut s, LoopEvent::KeyboardInput { key: KeyCode::Escape, state: KeyState::Pressed, scancode: 1 }),
        LoopAction { deliver: Some(HostEvent::PanicExit), exit: true, redraw: false }
    );
    assert_eq!(
        windows_window_event(&mut s, LoopEvent::CloseRequested),
        LoopAction { deliver: Some(HostEvent::Close { window: WindowId(2) }), exit: true, redraw: false }
    );
}
