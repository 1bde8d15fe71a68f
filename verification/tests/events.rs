use workspace::events::{
    char_to_digit, char_to_letter, is_ctrl_shift_escape, is_escape_press, map_char_key,
    windows_char_key, InputEvent, KeyCode, KeyState, MouseButton, TouchPhase,
};
use workspace::host_event::{HostError, HostEvent, WindowId};

#[test]
fn key_state_equality() {
    assert_eq!(KeyState::Pressed, KeyState::Pressed);
    assert_ne!(KeyState::Pressed, KeyState::Released);
}

#[test]
fn mouse_button_equality() {
    assert_eq!(MouseButton::Left, MouseButton::Left);
    assert_ne!(MouseButton::Left, MouseButton::Right);
    assert_eq!(MouseButton::X1, MouseButton::X1);
    assert_eq!(MouseButton::X2, MouseButton::X2);
}

#[test]
fn touch_phase_ordering() {
    let phases = [
        TouchPhase::Started,
        TouchPhase::Moved,
        TouchPhase::Ended,
        TouchPhase::Cancelled,
    ];
    assert_eq!(phases.len(), 4);
}

#[test]
fn input_event_clone_equality() {
    let ev = InputEvent::Keyboard {
        key: KeyCode::Escape,
        state: KeyState::Pressed,
        scancode: 1,
    };
    let cloned = ev.clone();
    assert_eq!(ev, cloned);
}

#[test]
fn keyboard_event_fields() {
    let ev = InputEvent::Keyboard {
        key: KeyCode::Enter,
        state: KeyState::Released,
        scancode: 28,
    };
    match ev {
        InputEvent::Keyboard {
            key,
            state,
            scancode,
        } => {
            assert_eq!(key, KeyCode::Enter);
            assert_eq!(state, KeyState::Released);
            assert_eq!(scancode, 28);
        }
        _ => panic!("Expected Keyboard event"),
    }
}

#[test]
fn mouse_move_fields() {
    let ev = InputEvent::MouseMove { x: 100.5f64.to_bits(), y: 200.0f64.to_bits() };
    match ev {
        InputEvent::MouseMove { x, y } => {
            assert!((f64::from_bits(x) - 100.5).abs() < f64::EPSILON);
            assert!((f64::from_bits(y) - 200.0).abs() < f64::EPSILON);
        }
        _ => panic!("Expected MouseMove event"),
    }
}

#[test]
fn mouse_button_fields() {
    let ev = InputEvent::MouseButton {
        button: MouseButton::Middle,
        state: KeyState::Pressed,
    };
    match ev {
        InputEvent::MouseButton { button, state } => {
            assert_eq!(button, MouseButton::Middle);
            assert_eq!(state, KeyState::Pressed);
        }
        _ => panic!("Expected MouseButton event"),
    }
}

#[test]
fn touch_event_fields() {
    let ev = InputEvent::Touch {
        id: 42,
        phase: TouchPhase::Started,
        x: 50.0f64.to_bits(),
        y: 75.0f64.to_bits(),
    };
    match ev {
        InputEvent::Touch { id, phase, x, y } => {
            assert_eq!(id, 42);
            assert_eq!(phase, TouchPhase::Started);
            assert!((f64::from_bits(x) - 50.0).abs() < f64::EPSILON);
            assert!((f64::from_bits(y) - 75.0).abs() < f64::EPSILON);
        }
        _ => panic!("Expected Touch event"),
    }
}

#[test]
fn keycode_full_alphabet() {
    let letters = vec![
        KeyCode::A,
        KeyCode::B,
        KeyCode::C,
        KeyCode::D,
        KeyCode::E,
        KeyCode::F,
        KeyCode::G,
        KeyCode::H,
        KeyCode::I,
        KeyCode::J,
        KeyCode::K,
        KeyCode::L,
        KeyCode::M,
        KeyCode::N,
        KeyCode::O,
        KeyCode::P,
        KeyCode::Q,
        KeyCode::R,
        KeyCode::S,
        KeyCode::T,
        KeyCode::U,
        KeyCode::V,
        KeyCode::W,
        KeyCode::X,
        KeyCode::Y,
        KeyCode::Z,
    ];
    assert_eq!(letters.len(), 26);
}

#[test]
fn keycode_digits() {
    let digits = vec![
        KeyCode::Digit0,
        KeyCode::Digit1,
        KeyCode::Digit2,
        KeyCode::Digit3,
        KeyCode::Digit4,
        KeyCode::Digit5,
        KeyCode::Digit6,
        KeyCode::Digit7,
        KeyCode::Digit8,
        KeyCode::Digit9,
    ];
    assert_eq!(digits.len(), 10);
}

#[test]
fn keycode_function_keys() {
    let fkeys = vec![
        KeyCode::F1,
        KeyCode::F2,
        KeyCode::F3,
        KeyCode::F4,
        KeyCode::F5,
        KeyCode::F6,
        KeyCode::F7,
        KeyCode::F8,
        KeyCode::F9,
        KeyCode::F10,
        KeyCode::F11,
        KeyCode::F12,
    ];
    assert_eq!(fkeys.len(), 12);
}

#[test]
fn keycode_modifiers() {
    let mods = [
        KeyCode::ShiftLeft,
        KeyCode::ShiftRight,
        KeyCode::ControlLeft,
        KeyCode::ControlRight,
        KeyCode::AltLeft,
        KeyCode::AltRight,
        KeyCode::MetaLeft,
        KeyCode::MetaRight,
    ];
    assert_eq!(mods.len(), 8);
}

#[test]
fn keycode_arrows() {
    let arrows = [
        KeyCode::ArrowLeft,
        KeyCode::ArrowRight,
        KeyCode::ArrowUp,
        KeyCode::ArrowDown,
    ];
    assert_eq!(arrows.len(), 4);
}

#[test]
fn keycode_navigation() {
    let nav = vec![
        KeyCode::Escape,
        KeyCode::Enter,
        KeyCode::Space,
        KeyCode::Tab,
        KeyCode::Backspace,
        KeyCode::Delete,
        KeyCode::Insert,
        KeyCode::Home,
        KeyCode::End,
        KeyCode::PageUp,
        KeyCode::PageDown,
    ];
    assert_eq!(nav.len(), 11);
}

#[test]
fn keycode_unmapped_roundtrip() {
    let code = KeyCode::Unmapped(999);
    match code {
        KeyCode::Unmapped(v) => assert_eq!(v, 999),
        _ => panic!("Expected Unmapped"),
    }
}

#[test]
fn keycode_numpad() {
    let numpad = vec![
        KeyCode::Numpad0,
        KeyCode::Numpad1,
        KeyCode::Numpad2,
        KeyCode::Numpad3,
        KeyCode::Numpad4,
        KeyCode::Numpad5,
        KeyCode::Numpad6,
        KeyCode::Numpad7,
        KeyCode::Numpad8,
        KeyCode::Numpad9,
        KeyCode::NumpadAdd,
        KeyCode::NumpadSubtract,
        KeyCode::NumpadMultiply,
        KeyCode::NumpadDivide,
        KeyCode::NumpadEnter,
        KeyCode::NumpadDecimal,
        KeyCode::NumLock,
    ];
    assert_eq!(numpad.len(), 17);
}

// ---------------------------------------------------------------- key mapping

#[test]
fn char_to_letter_ignores_case() {
    assert_eq!(char_to_letter('a'), KeyCode::A);
    assert_eq!(char_to_letter('Q'), KeyCode::Q);
    assert_eq!(char_to_letter('z'), KeyCode::Z);
    assert_eq!(char_to_letter('1'), KeyCode::Unmapped(0));
    assert_eq!(char_to_letter('é'), KeyCode::Unmapped(0));
}

#[test]
fn char_to_digit_maps_digits_only() {
    assert_eq!(char_to_digit('0'), KeyCode::Digit0);
    assert_eq!(char_to_digit('7'), KeyCode::Digit7);
    assert_eq!(char_to_digit('a'), KeyCode::Unmapped(0));
}

#[test]
fn map_char_key_uses_first_character() {
    assert_eq!(map_char_key("a"), KeyCode::A);
    assert_eq!(map_char_key("B"), KeyCode::B);
    assert_eq!(map_char_key("5"), KeyCode::Digit5);
    assert_eq!(map_char_key("-"), KeyCode::Minus);
    assert_eq!(map_char_key("="), KeyCode::Equal);
    assert_eq!(map_char_key("["), KeyCode::BracketLeft);
    assert_eq!(map_char_key("]"), KeyCode::BracketRight);
    assert_eq!(map_char_key("\\"), KeyCode::Backslash);
    assert_eq!(map_char_key(";"), KeyCode::Semicolon);
    assert_eq!(map_char_key("'"), KeyCode::Quote);
    assert_eq!(map_char_key("`"), KeyCode::Backquote);
    assert_eq!(map_char_key(","), KeyCode::Comma);
    assert_eq!(map_char_key("."), KeyCode::Period);
    assert_eq!(map_char_key("/"), KeyCode::Slash);
    assert_eq!(map_char_key("xyz"), KeyCode::X);
    assert_eq!(map_char_key(""), KeyCode::Unmapped(0));
    assert_eq!(map_char_key("ж"), KeyCode::Unmapped(0));
}

#[test]
fn map_char_key_shifted_symbols_give_their_key() {
    assert_eq!(map_char_key("_"), KeyCode::Minus);
    assert_eq!(map_char_key("+"), KeyCode::Equal);
    assert_eq!(map_char_key("{"), KeyCode::BracketLeft);
    assert_eq!(map_char_key("}"), KeyCode::BracketRight);
    assert_eq!(map_char_key("|"), KeyCode::Backslash);
    assert_eq!(map_char_key(":"), KeyCode::Semicolon);
    assert_eq!(map_char_key("\""), KeyCode::Quote);
    assert_eq!(map_char_key("~"), KeyCode::Backquote);
    assert_eq!(map_char_key("<"), KeyCode::Comma);
    assert_eq!(map_char_key(">"), KeyCode::Period);
    assert_eq!(map_char_key("?"), KeyCode::Slash);
    assert_eq!(map_char_key("!"), KeyCode::Unmapped(0));
}

#[test]
fn windows_char_key_single_lowercase_or_digit() {
    assert_eq!(windows_char_key("a"), KeyCode::A);
    assert_eq!(windows_char_key("9"), KeyCode::Digit9);
    assert_eq!(windows_char_key("A"), KeyCode::Unmapped(0));
    assert_eq!(windows_char_key("-"), KeyCode::Unmapped(0));
    assert_eq!(windows_char_key("?"), KeyCode::Unmapped(0));
    assert_eq!(windows_char_key("ab"), KeyCode::Unmapped(0));
    assert_eq!(windows_char_key(""), KeyCode::Unmapped(0));
    assert_eq!(windows_char_key("ж"), KeyCode::Unmapped(0));
}

#[test]
fn panic_gestures() {
    assert!(is_ctrl_shift_escape(KeyCode::Escape, KeyState::Pressed, true, true));
    assert!(!is_ctrl_shift_escape(KeyCode::Escape, KeyState::Pressed, true, false));
    assert!(!is_ctrl_shift_escape(KeyCode::Escape, KeyState::Released, true, true));
    assert!(is_escape_press(KeyCode::Escape, KeyState::Pressed));
    assert!(!is_escape_press(KeyCode::Escape, KeyState::Released));
    assert!(!is_escape_press(KeyCode::Enter, KeyState::Pressed));
}

// ---------------------------------------------------------------- host events

#[test]
fn window_id_equality() {
    assert_eq!(WindowId(1), WindowId(1));
    assert_ne!(WindowId(1), WindowId(2));
}

#[test]
fn host_event_resize() {
    let ev = HostEvent::Resize {
        window: WindowId(0),
        width: 1920,
        height: 1080,
    };
    match ev {
        HostEvent::Resize { width, height, .. } => {
            assert_eq!(width, 1920);
            assert_eq!(height, 1080);
        }
        _ => panic!("Expected Resize"),
    }
}

#[test]
fn host_event_move() {
    let ev = HostEvent::Move {
        window: WindowId(1),
        x: 100,
        y: 200,
    };
    match ev {
        HostEvent::Move { x, y, .. } => {
            assert_eq!(x, 100);
            assert_eq!(y, 200);
        }
        _ => panic!("Expected Move"),
    }
}

#[test]
fn host_event_close() {
    let ev = HostEvent::Close {
        window: WindowId(2),
    };
    assert!(matches!(ev, HostEvent::Close { .. }));
}

#[test]
fn host_event_focus() {
    let ev = HostEvent::Focus {
        window: WindowId(3),
        focused: true,
    };
    match ev {
        HostEvent::Focus { focused, .. } => assert!(focused),
        _ => panic!("Expected Focus"),
    }
}

#[test]
fn host_event_minimize_maximize_restore() {
    let mini = HostEvent::Minimize {
        window: WindowId(4),
    };
    let maxi = HostEvent::Maximize {
        window: WindowId(4),
    };
    let rest = HostEvent::Restore {
        window: WindowId(4),
    };
    assert!(matches!(mini, HostEvent::Minimize { .. }));
    assert!(matches!(maxi, HostEvent::Maximize { .. }));
    assert!(matches!(rest, HostEvent::Restore { .. }));
}

#[test]
fn host_event_panic_exit() {
    assert!(matches!(HostEvent::PanicExit, HostEvent::PanicExit));
}

#[test]
fn host_event_input_wraps_keyboard() {
    let input = InputEvent::Keyboard {
        key: KeyCode::Escape,
        state: KeyState::Pressed,
        scancode: 1,
    };
    let ev = HostEvent::Input(input.clone());
    assert_eq!(ev, HostEvent::Input(input));
}

#[test]
fn host_event_clone_equality() {
    let ev = HostEvent::Resize {
        window: WindowId(7),
        width: 800,
        height: 600,
    };
    assert_eq!(ev.clone(), ev);
}

#[test]
fn tc_01_005_keydown_latin_a_z() {
    let events: Vec<InputEvent> = (0..26)
        .map(|i| InputEvent::Keyboard {
            key: KeyCode::Unmapped(i),
            state: KeyState::Pressed,
            scancode: i,
        })
        .collect();
    assert_eq!(events.len(), 26);
    for (i, ev) in events.iter().enumerate() {
        match ev {
            InputEvent::Keyboard { scancode, .. } => assert_eq!(*scancode as usize, i),
            _ => panic!("Expected keyboard event"),
        }
    }
}

#[test]
fn tc_01_006_keydown_cyrillic_layout() {
    let ev = InputEvent::Keyboard {
        key: KeyCode::Unmapped(0x0410),
        state: KeyState::Pressed,
        scancode: 41,
    };
    match ev {
        InputEvent::Keyboard { scancode, .. } => assert_eq!(scancode, 41),
        _ => panic!("Expected keyboard event"),
    }
}

#[test]
fn tc_01_010_mouse_left_click() {
    let ev = InputEvent::MouseButton {
        button: MouseButton::Left,
        state: KeyState::Pressed,
    };
    match ev {
        InputEvent::MouseButton { button, state } => {
            assert_eq!(button, MouseButton::Left);
            assert_eq!(state, KeyState::Pressed);
        }
        _ => panic!("Expected mouse button event"),
    }
}

#[test]
fn host_error_variants_display_correctly() {
    assert!(HostError::AudioUnavailable.message().contains("audio"));
    assert!(HostError::NetworkInitFailed("x".into()).message().contains("network"));
    assert_eq!(HostError::WindowCreationFailed("boom".into()).message(), "window creation failed: boom");
    assert_eq!(HostError::PlatformNotSupported.message(), "platform not supported");
}
