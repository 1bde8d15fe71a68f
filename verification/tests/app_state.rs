use workspace::app_state::{AppState, CommandOutcome, CIRCLE_COLOR_COUNT, MAX_CIRCLES, MAX_HISTORY};
use workspace::events::{KeyState, MouseButton};
use workspace::input::{handle_key, mouse_command, KeyCommand, KeyPress, NamedKey, PointerCommand, TextTarget};

/// A pen as an application would keep it: position and radius.
type Pen = (f32, f32, f32);

fn typed(s: &mut AppState<Pen>, text: &str) {
    for c in text.chars() {
        s.type_char(c, TextTarget::Command);
    }
}

#[test]
fn add_circle_cycles_colors() {
    let mut s: AppState<Pen> = AppState::default();
    s.add_circle((50.0, 60.0, 26.0));
    assert_eq!(s.circles().len(), 1);
    assert_eq!(s.circles()[0].color_index, 0);
    assert_eq!(s.circles()[0].pen, (50.0, 60.0, 26.0));

    s.add_circle((50.0, 60.0, 26.0));
    assert_eq!(s.circles()[1].color_index, 1);
}

#[test]
fn add_circle_colors_wrap_around_palette() {
    let mut s: AppState<Pen> = AppState::default();
    for _ in 0..(2 * CIRCLE_COLOR_COUNT + 1) {
        s.add_circle((0.0, 0.0, 1.0));
    }
    for (k, c) in s.circles().iter().enumerate() {
        assert_eq!(c.color_index, k % CIRCLE_COLOR_COUNT);
    }
}

#[test]
fn clear_circles_resets_color_index() {
    let mut s: AppState<Pen> = AppState::default();
    s.add_circle((0.0, 0.0, 16.0));
    s.add_circle((0.0, 0.0, 16.0));
    s.add_circle((0.0, 0.0, 16.0));
    assert_eq!(s.circles().len(), 3);
    s.clear_circles();
    assert!(s.circles().is_empty());
    s.add_circle((0.0, 0.0, 16.0));
    assert_eq!(s.circles()[0].color_index, 0);
}

#[test]
fn add_circle_enforces_limit() {
    let mut s: AppState<Pen> = AppState::default();
    for _ in 0..MAX_CIRCLES {
        assert!(s.add_circle((10.0, 10.0, 16.0)));
    }
    assert!(!s.add_circle((10.0, 10.0, 16.0)));
    assert_eq!(s.circles().len(), MAX_CIRCLES);
}

#[test]
fn execute_command_returns_and_clears() {
    let mut s: AppState<Pen> = AppState::default();
    assert!(s.execute_command().is_none());

    s.type_char('h', TextTarget::Command);
    s.type_char('i', TextTarget::Command);
    let result = s.execute_command().unwrap();
    assert!(matches!(result, CommandOutcome::Unknown(ref t) if t == "hi"));
    assert!(s.command_text().is_empty());
}

#[test]
fn execute_command_exit() {
    let mut s: AppState<Pen> = AppState::default();
    s.type_char('e', TextTarget::Command);
    s.type_char('x', TextTarget::Command);
    s.type_char('i', TextTarget::Command);
    s.type_char('t', TextTarget::Command);
    assert!(matches!(s.execute_command().unwrap(), CommandOutcome::Exit));
}

#[test]
fn execute_command_clear() {
    let mut s: AppState<Pen> = AppState::default();
    typed(&mut s, "clear");
    assert!(matches!(s.execute_command().unwrap(), CommandOutcome::ClearCircles));
}

#[test]
fn execute_command_help() {
    let mut s: AppState<Pen> = AppState::default();
    typed(&mut s, "help");
    assert!(matches!(s.execute_command().unwrap(), CommandOutcome::ShowHelp));
    assert!(s.help_visible);
    typed(&mut s, "?");
    assert!(matches!(s.execute_command().unwrap(), CommandOutcome::ShowHelp));
    assert!(!s.help_visible);
}

#[test]
fn execute_command_resize_hands_back_argument() {
    let mut s: AppState<Pen> = AppState::default();
    typed(&mut s, "resize 32");
    match s.execute_command().unwrap() {
        CommandOutcome::Resize { input, argument } => {
            assert_eq!(input, "resize 32");
            assert_eq!(argument.as_deref(), Some("32"));
        }
        _ => panic!("Expected Resize"),
    }
    typed(&mut s, "  RESIZE\t 999  extra");
    match s.execute_command().unwrap() {
        CommandOutcome::Resize { input, argument } => {
            assert_eq!(input, "  RESIZE\t 999  extra");
            assert_eq!(argument.as_deref(), Some("999"));
        }
        _ => panic!("Expected Resize"),
    }
    typed(&mut s, "resize");
    match s.execute_command().unwrap() {
        CommandOutcome::Resize { argument, .. } => assert!(argument.is_none()),
        _ => panic!("Expected Resize"),
    }
}

#[test]
fn execute_command_words_ignore_case_and_spaces() {
    let mut s: AppState<Pen> = AppState::default();
    typed(&mut s, "  QuIt now");
    assert!(matches!(s.execute_command().unwrap(), CommandOutcome::Exit));
    typed(&mut s, "   ");
    assert!(matches!(s.execute_command().unwrap(), CommandOutcome::Unknown(ref t) if t == "   "));
    typed(&mut s, "exiting");
    assert!(matches!(s.execute_command().unwrap(), CommandOutcome::Unknown(_)));
}

#[test]
fn backspace_removes_last_char() {
    let mut s: AppState<Pen> = AppState::default();
    s.type_char('a', TextTarget::Typed);
    s.type_char('b', TextTarget::Typed);
    s.backspace(TextTarget::Typed);
    assert_eq!(s.typed_text(), "a");
}

#[test]
fn backspace_on_empty_does_nothing() {
    let mut s: AppState<Pen> = AppState::default();
    s.backspace(TextTarget::Command);
    s.backspace(TextTarget::Typed);
    assert_eq!(s.command_text(), "");
    assert_eq!(s.typed_text(), "");
    s.type_char('x', TextTarget::Command);
    s.backspace(TextTarget::Command);
    assert_eq!(s.command_text(), "");
}

#[test]
fn toggle_command_bar() {
    let mut s: AppState<Pen> = AppState::default();
    assert!(!s.command_bar_visible);
    s.toggle_command_bar();
    assert!(s.command_bar_visible);
    s.toggle_command_bar();
    assert!(!s.command_bar_visible);
}

#[test]
fn history_recalls_commands() {
    let mut s: AppState<Pen> = AppState::default();
    typed(&mut s, "clear");
    s.execute_command();
    typed(&mut s, "exit");
    s.execute_command();
    typed(&mut s, "help");
    s.execute_command(); // help is not recorded
    s.history_up();
    assert_eq!(s.command_text(), "exit");
    s.history_up();
    assert_eq!(s.command_text(), "clear");
    s.history_up();
    assert_eq!(s.command_text(), "clear");
    s.history_down();
    assert_eq!(s.command_text(), "exit");
    s.history_down();
    assert_eq!(s.command_text(), "");
    s.history_down();
    assert_eq!(s.command_text(), "");
}

#[test]
fn history_empty_does_nothing() {
    let mut s: AppState<Pen> = AppState::default();
    typed(&mut s, "abc");
    s.history_up();
    assert_eq!(s.command_text(), "abc");
    s.history_down();
    assert_eq!(s.command_text(), "abc");
}

#[test]
fn history_keeps_newest_entries() {
    let mut s: AppState<Pen> = AppState::default();
    for i in 0..(MAX_HISTORY + 5) {
        s.push_history(format!("cmd{i}"));
    }
    s.history_up();
    assert_eq!(s.command_text(), format!("cmd{}", MAX_HISTORY + 4));
    for _ in 0..(MAX_HISTORY + 10) {
        s.history_up();
    }
    assert_eq!(s.command_text(), "cmd5");
}

#[test]
fn handle_command_runs_clear_and_exit() {
    let mut s: AppState<Pen> = AppState::default();
    s.add_circle((1.0, 1.0, 1.0));
    typed(&mut s, "clear");
    let eff = s.handle_command(KeyCommand::Execute);
    assert!(!eff.exit);
    assert!(matches!(eff.outcome, Some(CommandOutcome::ClearCircles)));
    assert!(s.circles().is_empty());

    typed(&mut s, "quit");
    let eff = s.handle_command(KeyCommand::Execute);
    assert!(eff.exit);

    let eff = s.handle_command(KeyCommand::Exit);
    assert!(eff.exit);
    assert!(eff.outcome.is_none());

    let eff = s.handle_command(KeyCommand::Execute);
    assert!(!eff.exit);
    assert!(eff.outcome.is_none());
}

#[test]
fn handle_command_edits_and_toggles() {
    let mut s: AppState<Pen> = AppState::default();
    s.handle_command(KeyCommand::Char('o', TextTarget::Typed));
    s.handle_command(KeyCommand::Char('k', TextTarget::Typed));
    s.handle_command(KeyCommand::Backspace(TextTarget::Typed));
    assert_eq!(s.typed_text(), "o");
    s.handle_command(KeyCommand::ToggleCommandBar);
    assert!(s.command_bar_visible);
}

// ---------------------------------------------------------------- key handling

#[test]
fn handle_key_escape_depends_on_bar_and_modifiers() {
    let esc = KeyPress::Named(NamedKey::Escape);
    assert_eq!(handle_key(&esc, false, true, true, true), vec![KeyCommand::Exit]);
    assert_eq!(handle_key(&esc, false, true, false, false), vec![KeyCommand::ToggleCommandBar]);
    assert_eq!(handle_key(&esc, false, false, false, false), vec![KeyCommand::Exit]);
}

#[test]
fn handle_key_targets_visible_buffer() {
    assert_eq!(
        handle_key(&KeyPress::Named(NamedKey::Backspace), false, true, false, false),
        vec![KeyCommand::Backspace(TextTarget::Command)]
    );
    assert_eq!(
        handle_key(&KeyPress::Character("hé".into()), false, false, false, false),
        vec![KeyCommand::Char('h', TextTarget::Typed), KeyCommand::Char('é', TextTarget::Typed)]
    );
    assert!(handle_key(&KeyPress::Character("x".into()), true, false, false, false).is_empty());
}

#[test]
fn handle_key_enter_and_space() {
    let enter = KeyPress::Named(NamedKey::Enter);
    assert_eq!(handle_key(&enter, false, true, false, false), vec![KeyCommand::Execute]);
    assert!(handle_key(&enter, false, false, false, false).is_empty());
    let space = KeyPress::Named(NamedKey::Space);
    assert_eq!(handle_key(&space, false, false, false, true), vec![KeyCommand::ToggleCommandBar]);
    assert!(handle_key(&space, false, false, false, false).is_empty());
    assert!(handle_key(&KeyPress::Named(NamedKey::Other), false, true, true, true).is_empty());
}

#[test]
fn mouse_buttons_map_to_circle_commands() {
    assert_eq!(mouse_command(MouseButton::Left, KeyState::Pressed), Some(PointerCommand::AddCircle));
    assert_eq!(mouse_command(MouseButton::Right, KeyState::Pressed), Some(PointerCommand::ClearCircles));
    assert_eq!(mouse_command(MouseButton::Left, KeyState::Released), None);
    assert_eq!(mouse_command(MouseButton::Middle, KeyState::Pressed), None);
}
