//! Key handling of the demo: which commands a key press produces, given the
//! command bar's visibility and the held modifiers.

use vstd::prelude::*;
use crate::events::{KeyState, MouseButton};
use crate::fuzzy::chars_of;

verus! {

/// Which text buffer to modify.
#[derive(Debug, Clone, Copy, PartialEq, Eq, Structural)]
pub enum TextTarget {
    /// The free text typed on the canvas.
    Typed,
    /// The command bar's input line.
    Command,
}

/// The named keys the demo reacts to.
#[derive(Debug, Clone, Copy, PartialEq, Eq, Structural)]
pub enum NamedKey {
    /// Escape.
    Escape,
    /// Backspace.
    Backspace,
    /// Enter / Return.
    Enter,
    /// Space bar.
    Space,
    /// Any other named key.
    Other,
}

/// A pressed key: a named key, or the text a character key produces.
#[derive(Debug, Clone)]
pub enum KeyPress {
    /// A named (non-character) key.
    Named(NamedKey),
    /// A character key and the text it produces.
    Character(String),
}

/// A command produced by a key press.
#[derive(Debug, Clone, Copy, PartialEq, Eq, Structural)]
pub enum KeyCommand {
    /// Leave the demo.
    Exit,
    /// Show or hide the command bar.
    ToggleCommandBar,
    /// Type a character into a buffer.
    Char(char, TextTarget),
    /// Delete the last character of a buffer.
    Backspace(TextTarget),
    /// Run the command bar's input.
    Execute,
}

/// The buffer that typing goes to.
pub open spec fn target_for(command_bar_visible: bool) -> TextTarget {
    if command_bar_visible {
        TextTarget::Command
    } else {
        TextTarget::Typed
    }
}

/// One typing command per character of `text`, into `target`.
pub open spec fn typed_commands(text: Seq<char>, target: TextTarget) -> Seq<KeyCommand>
    decreases text.len(),
{
    if text.len() == 0 {
        Seq::empty()
    } else {
        typed_commands(text.drop_last(), target).push(KeyCommand::Char(text.last(), target))
    }
}

/// The commands a key press produces: Escape exits on Ctrl+Shift, else
/// closes a visible command bar, else exits; Backspace deletes in the
/// current buffer; Enter runs a visible command bar; Shift+Space toggles the
/// bar; a character key that is not an auto-repeat types each of its
/// characters; anything else does nothing.
pub open spec fn key_commands(
    key: KeyPress,
    repeat: bool,
    command_bar_visible: bool,
    ctrl: bool,
    shift: bool,
) -> Seq<KeyCommand> {
    match key {
        KeyPress::Named(NamedKey::Escape) => if ctrl && shift {
            seq![KeyCommand::Exit]
        } else if command_bar_visible {
            seq![KeyCommand::ToggleCommandBar]
        } else {
            seq![KeyCommand::Exit]
        },
        KeyPress::Named(NamedKey::Backspace) => seq![
            KeyCommand::Backspace(target_for(command_bar_visible)),
        ],
        KeyPress::Named(NamedKey::Enter) => if command_bar_visible {
            seq![KeyCommand::Execute]
        } else {
            seq![]
        },
        KeyPress::Named(NamedKey::Space) => if shift {
            seq![KeyCommand::ToggleCommandBar]
        } else {
            seq![]
        },
        KeyPress::Named(NamedKey::Other) => seq![],
        KeyPress::Character(text) => if repeat {
            seq![]
        } else {
            typed_commands(text@, target_for(command_bar_visible))
        },
    }
}

/// The command that types `c` into `target`.
fn typing(c: char, target: TextTarget) -> (r: KeyCommand)
    ensures
        r == KeyCommand::Char(c, target),
{
    KeyCommand::Char(c, target)
}

/// One typing command per character of `text`.
fn type_text(text: &str, target: TextTarget) -> (r: Vec<KeyCommand>)
    ensures
        r@ == typed_commands(text@, target),
{
    let chars = chars_of(text);
    let mut cmds: Vec<KeyCommand> = Vec::new();
    let mut i: usize = 0;
    while i < chars.len()
        invariant
            chars@ == text@,
            i <= chars@.len(),
            cmds@ == typed_commands(chars@.take(i as int), target),
        decreases chars@.len() - i,
    {
        assert(chars@.take(i + 1).drop_last() =~= chars@.take(i as int));
        let cmd = typing(chars[i], target);
        cmds.push(cmd);
        i = i + 1;
    }
    assert(chars@.take(chars@.len() as int) =~= chars@);
    cmds
}

/// Convert a key press into the commands it produces.
pub fn handle_key(
    key: &KeyPress,
    repeat: bool,
    command_bar_visible: bool,
    ctrl: bool,
    shift: bool,
) -> (r: Vec<KeyCommand>)
    ensures
        r@ == key_commands(*key, repeat, command_bar_visible, ctrl, shift),
        *key == KeyPress::Named(NamedKey::Backspace) ==> r@ == seq![
            KeyCommand::Backspace(
                if command_bar_visible {
                    TextTarget::Command
                } else {
                    TextTarget::Typed
                },
            ),
        ],
{
    let target = if command_bar_visible {
        TextTarget::Command
    } else {
        TextTarget::Typed
    };
    let mut cmds: Vec<KeyCommand> = Vec::new();
    match key {
        KeyPress::Named(NamedKey::Escape) => {
            if ctrl && shift {
                cmds.push(KeyCommand::Exit);
            } else if command_bar_visible {
                cmds.push(KeyCommand::ToggleCommandBar);
            } else {
                cmds.push(KeyCommand::Exit);
            }
        },
        KeyPress::Named(NamedKey::Backspace) => {
            cmds.push(KeyCommand::Backspace(target));
        },
        KeyPress::Named(NamedKey::Enter) => {
            if command_bar_visible {
                cmds.push(KeyCommand::Execute);
            }
        },
        KeyPress::Named(NamedKey::Space) => {
            if shift {
                cmds.push(KeyCommand::ToggleCommandBar);
            }
        },
        KeyPress::Named(NamedKey::Other) => {},
        KeyPress::Character(text) => {
            if !repeat {
                cmds = type_text(text.as_str(), target);
            }
        },
    }
    proof {
        if cmds@.len() == 0 {
            assert(cmds@ =~= Seq::<KeyCommand>::empty());
        }
    }
    cmds
}

/// A command produced by a mouse button.
#[derive(Debug, Clone, Copy, PartialEq, Eq, Structural)]
pub enum PointerCommand {
    /// Place a circle at the cursor.
    AddCircle,
    /// Remove every circle.
    ClearCircles,
}

/// The command a mouse button event produces: pressing the left button adds
/// a circle, pressing the right one clears them; anything else does nothing.
pub fn mouse_command(button: MouseButton, state: KeyState) -> (r: Option<PointerCommand>)
    ensures
        r == (if state == KeyState::Pressed && button == MouseButton::Left {
            Some(PointerCommand::AddCircle)
        } else if state == KeyState::Pressed && button == MouseButton::Right {
            Some(PointerCommand::ClearCircles)
        } else {
            None
        }),
{
    match (state, button) {
        (KeyState::Pressed, MouseButton::Left) => Some(PointerCommand::AddCircle),
        (KeyState::Pressed, MouseButton::Right) => Some(PointerCommand::ClearCircles),
        _ => None,
    }
}

/// Backspace erases in the buffer that typing goes to. With the same command
/// bar state and modifiers, a Backspace press gives exactly one erase command
/// and a (non-repeated) character press types its characters, and both act
/// on the command line when the bar is visible and on the typed text when it
/// is hidden.
pub proof fn lemma_backspace_follows_typing(
    key: KeyPress,
    repeat: bool,
    command_bar_visible: bool,
    ctrl: bool,
    shift: bool,
)
    ensures
        ({
            let t = if command_bar_visible {
                TextTarget::Command
            } else {
                TextTarget::Typed
            };
            &&& key_commands(
                KeyPress::Named(NamedKey::Backspace),
                repeat,
                command_bar_visible,
                ctrl,
                shift,
            ) == seq![KeyCommand::Backspace(t)]
            &&& key matches KeyPress::Character(text) ==> key_commands(
                key,
                false,
                command_bar_visible,
                ctrl,
                shift,
            ) == typed_commands(text@, t)
        }),
{
}

} // verus!
