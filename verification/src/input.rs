//! Keys and the commands bound to them.

use vstd::prelude::*;

verus! {

/// Which key an event is about.
#[derive(Debug, Clone, Copy, PartialEq, Eq, Structural)]
pub enum KeyCode {
    Char(char),
    Esc,
    /// Any key that is neither a character nor Escape.
    Other,
}

/// What happened to the key.
#[derive(Debug, Clone, Copy, PartialEq, Eq, Structural)]
pub enum KeyKind {
    Press,
    Repeat,
    Release,
}

/// Something that happened to a key.
#[derive(Debug, Clone, Copy, PartialEq, Eq, Structural)]
pub struct KeyEvent {
    pub code: KeyCode,
    pub kind: KeyKind,
}

/// What the user can ask for.
#[derive(Debug, Clone, Copy, PartialEq, Eq, Structural)]
pub enum Command {
    Quit,
    TogglePause,
    Reset,
    ToggleHelp,
}

/// The key bindings: `q` and Escape quit, space and `p` pause or resume, `r`
/// resets, `h` and `?` show or hide the help. Only a key being pressed
/// counts, and every other key is bound to nothing.
pub open spec fn command_of(key: KeyEvent) -> Option<Command> {
    if key.kind != KeyKind::Press {
        None
    } else {
        match key.code {
            KeyCode::Esc => Some(Command::Quit),
            KeyCode::Char(c) => if c == 'q' {
                Some(Command::Quit)
            } else if c == ' ' || c == 'p' {
                Some(Command::TogglePause)
            } else if c == 'r' {
                Some(Command::Reset)
            } else if c == 'h' || c == '?' {
                Some(Command::ToggleHelp)
            } else {
                None
            },
            KeyCode::Other => None,
        }
    }
}

/// Looks up the command bound to a key event.
pub fn command_for(key: KeyEvent) -> (command: Option<Command>)
    ensures
        command == command_of(key),
{
    match key.kind {
        KeyKind::Press => match key.code {
            KeyCode::Char('q') | KeyCode::Esc => Some(Command::Quit),
            KeyCode::Char(' ') | KeyCode::Char('p') => Some(Command::TogglePause),
            KeyCode::Char('r') => Some(Command::Reset),
            KeyCode::Char('h') | KeyCode::Char('?') => Some(Command::ToggleHelp),
            _ => None,
        },
        _ => None,
    }
}

} // verus!
