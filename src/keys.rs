//! Key events as the engine sees them, and the commands they stand for.

use vstd::prelude::*;

verus! {

/// Which key was pressed.
#[derive(Debug, Clone, Copy, PartialEq, Eq, Structural)]
pub enum KeyCode {
    Char(char),
    Backspace,
    Delete,
    Enter,
    Esc,
    Left,
    Right,
    Home,
    End,
    Other,
}

/// A key press with the modifiers held down.
#[derive(Debug, Clone, Copy, PartialEq, Eq, Structural)]
pub struct Key {
    pub code: KeyCode,
    pub ctrl: bool,
    pub alt: bool,
    pub shift: bool,
}

impl Key {
    /// A key pressed with no modifier.
    pub fn plain(code: KeyCode) -> (r: Key)
        ensures
            r == (Key { code, ctrl: false, alt: false, shift: false }),
    {
        Key { code, ctrl: false, alt: false, shift: false }
    }

    /// A key pressed with Ctrl held down.
    pub fn ctrl(code: KeyCode) -> (r: Key)
        ensures
            r == (Key { code, ctrl: true, alt: false, shift: false }),
    {
        Key { code, ctrl: true, alt: false, shift: false }
    }
}

/// What a key press asks the session to do.
#[derive(Debug, Clone, Copy, PartialEq, Eq, Structural)]
pub enum Command {
    /// Type a character.
    Insert(char),
    /// Delete one character.
    Backspace,
    /// Delete back to the start of a word.
    WordDelete,
    Confirm,
    Cancel,
    CategoryLeft,
    CategoryRight,
    Ignore,
}

/// The command a key press stands for. Ctrl or Alt with Backspace, and
/// Ctrl+W or Ctrl+H (sent by terminals that cannot send Ctrl+Backspace),
/// delete a word; any other character typed with Ctrl or Alt is dropped.
pub open spec fn command_of(key: Key) -> Command {
    match key.code {
        KeyCode::Char(c) => if key.ctrl && (c == 'w' || c == 'W' || c == 'h' || c == 'H') {
            Command::WordDelete
        } else if key.ctrl || key.alt {
            Command::Ignore
        } else {
            Command::Insert(c)
        },
        KeyCode::Backspace => if key.ctrl || key.alt {
            Command::WordDelete
        } else {
            Command::Backspace
        },
        KeyCode::Enter => Command::Confirm,
        KeyCode::Esc => Command::Cancel,
        KeyCode::Left => Command::CategoryLeft,
        KeyCode::Right => Command::CategoryRight,
        _ => Command::Ignore,
    }
}

/// Maps a key press to the command it stands for.
pub fn classify(key: Key) -> (r: Command)
    ensures
        r == command_of(key),
{
    match key.code {
        KeyCode::Char(c) => {
            if key.ctrl && (c == 'w' || c == 'W' || c == 'h' || c == 'H') {
                Command::WordDelete
            } else if key.ctrl || key.alt {
                Command::Ignore
            } else {
                Command::Insert(c)
            }
        },
        KeyCode::Backspace => {
            if key.ctrl || key.alt {
                Command::WordDelete
            } else {
                Command::Backspace
            }
        },
        KeyCode::Enter => Command::Confirm,
        KeyCode::Esc => Command::Cancel,
        KeyCode::Left => Command::CategoryLeft,
        KeyCode::Right => Command::CategoryRight,
        _ => Command::Ignore,
    }
}

} // verus!
