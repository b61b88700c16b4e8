//! A single-line editor with a cursor and a history of cleared lines.

use vstd::prelude::*;
use crate::app::App;
use crate::chars::{chars_of, string_of};
use crate::keys::{Key, KeyCode};

verus! {

/// How many cleared lines the history keeps.
pub const HISTORY_LIMIT: usize = 100;

#[derive(Debug, Clone)]
pub struct Input {
    pub content: String,
    /// A character position in `content`.
    pub cursor_position: usize,
    pub history: Vec<String>,
    pub history_index: usize,
}

impl Input {
    /// The cursor stands within the line.
    pub open spec fn wf(&self) -> bool {
        self.cursor_position <= self.content@.len()
    }

    pub fn new() -> (r: Input)
        ensures
            r.wf(),
            r.content@.len() == 0,
            r.cursor_position == 0,
            r.history@.len() == 0,
            r.history_index == 0,
    {
        Input { content: String::new(), cursor_position: 0, history: Vec::new(), history_index: 0 }
    }

    /// Applies a key press; answers whether the editor handles that key.
    /// Characters are typed only without modifiers.
    pub fn handle_event(&mut self, key: Key) -> (r: bool)
        requires
            old(self).wf(),
        ensures
            final(self).wf(),
            r == match key.code {
                KeyCode::Char(_) => !key.ctrl && !key.alt && !key.shift,
                KeyCode::Backspace | KeyCode::Delete | KeyCode::Left | KeyCode::Right
                | KeyCode::Home | KeyCode::End => true,
                _ => false,
            },
            !r ==> *final(self) == *old(self),
    {
        match key.code {
            KeyCode::Char(c) => {
                if key.ctrl || key.alt || key.shift {
                    false
                } else {
                    self.insert_char(c);
                    true
                }
            },
            KeyCode::Backspace => {
                self.backspace();
                true
            },
            KeyCode::Delete => {
                self.delete_char();
                true
            },
            KeyCode::Left => {
                self.move_cursor_left();
                true
            },
            KeyCode::Right => {
                self.move_cursor_right();
                true
            },
            KeyCode::Home => {
                self.move_cursor_to_start();
                true
            },
            KeyCode::End => {
                self.move_cursor_to_end();
                true
            },
            _ => false,
        }
    }

    /// Empties the line, keeping a non-empty one in the history (which holds
    /// the latest `HISTORY_LIMIT` lines).
    pub fn clear(&mut self)
        ensures
            final(self).wf(),
            final(self).content@.len() == 0,
            final(self).cursor_position == 0,
            final(self).history_index == final(self).history@.len(),
            old(self).content@.len() == 0 ==> final(self).history == old(self).history,
            old(self).content@.len() > 0 ==> {
                let pushed = old(self).history@.push(old(self).content);
                final(self).history@ == (if pushed.len() > HISTORY_LIMIT {
                    pushed.drop_first()
                } else {
                    pushed
                })
            },
    {
        if chars_of(self.content.as_str()).len() > 0 {
            self.history.push(self.content.clone());
            if self.history.len() > HISTORY_LIMIT {
                self.history.remove(0);
            }
        }
        self.content = String::new();
        self.cursor_position = 0;
        self.history_index = self.history.len();
    }

    pub fn content(&self) -> (r: &str)
        ensures
            r@ == self.content@,
    {
        self.content.as_str()
    }

    pub fn get_cursor_position(&self) -> (r: usize)
        ensures
            r == self.cursor_position,
    {
        self.cursor_position
    }

    pub fn move_cursor_left(&mut self)
        ensures
            *final(self) == (Input {
                cursor_position: if old(self).cursor_position > 0 {
                    (old(self).cursor_position - 1) as usize
                } else {
                    0
                },
                ..*old(self)
            }),
    {
        if self.cursor_position > 0 {
            self.cursor_position = self.cursor_position - 1;
        }
    }

    pub fn move_cursor_right(&mut self)
        ensures
            *final(self) == (Input {
                cursor_position: if old(self).cursor_position < old(self).content@.len() {
                    (old(self).cursor_position + 1) as usize
                } else {
                    old(self).cursor_position
                },
                ..*old(self)
            }),
    {
        if self.cursor_position < chars_of(self.content.as_str()).len() {
            self.cursor_position = self.cursor_position + 1;
        }
    }

    pub fn move_cursor_to_start(&mut self)
        ensures
            *final(self) == (Input { cursor_position: 0, ..*old(self) }),
    {
        self.cursor_position = 0;
    }

    pub fn move_cursor_to_end(&mut self)
        ensures
            final(self).cursor_position == old(self).content@.len(),
            *final(self) == (Input { cursor_position: final(self).cursor_position, ..*old(self) }),
    {
        self.cursor_position = chars_of(self.content.as_str()).len();
    }

    /// Inserts `c` at the cursor and moves the cursor past it.
    pub fn insert_char(&mut self, c: char)
        requires
            old(self).wf(),
        ensures
            final(self).wf(),
            final(self).content@ == old(self).content@.insert(old(self).cursor_position as int, c),
            final(self).cursor_position == old(self).cursor_position + 1,
            final(self).history == old(self).history,
            final(self).history_index == old(self).history_index,
    {
        let mut cs = chars_of(self.content.as_str());
        cs.insert(self.cursor_position, c);
        proof {
            assert(cs@.len() == cs.len());
        }
        self.content = string_of(cs.as_slice());
        self.cursor_position = self.cursor_position + 1;
    }

    /// Deletes the character under the cursor, if there is one.
    pub fn delete_char(&mut self) -> (r: bool)
        requires
            old(self).wf(),
        ensures
            final(self).wf(),
            r == (old(self).cursor_position < old(self).content@.len()),
            r ==> final(self).content@ == old(self).content@.remove(old(self).cursor_position as int),
            r ==> *final(self) == (Input { content: final(self).content, ..*old(self) }),
            !r ==> *final(self) == *old(self),
    {
        let mut cs = chars_of(self.content.as_str());
        if self.cursor_position < cs.len() {
            cs.remove(self.cursor_position);
            self.content = string_of(cs.as_slice());
            true
        } else {
            false
        }
    }

    /// Deletes the character before the cursor, if there is one, and moves
    /// the cursor back over it.
    pub fn backspace(&mut self) -> (r: bool)
        requires
            old(self).wf(),
        ensures
            final(self).wf(),
            r == (old(self).cursor_position > 0),
            r ==> final(self).content@ == old(self).content@.remove(old(self).cursor_position - 1),
            r ==> final(self).cursor_position == old(self).cursor_position - 1,
            r ==> final(self).history == old(self).history && final(self).history_index == old(
                self,
            ).history_index,
            !r ==> *final(self) == *old(self),
    {
        if self.cursor_position > 0 {
            let mut cs = chars_of(self.content.as_str());
            self.cursor_position = self.cursor_position - 1;
            cs.remove(self.cursor_position);
            self.content = string_of(cs.as_slice());
            true
        } else {
            false
        }
    }
}

impl Default for Input {
    fn default() -> (r: Input)
        ensures
            r.wf(),
            r.content@.len() == 0,
            r.cursor_position == 0,
            r.history@.len() == 0,
            r.history_index == 0,
    {
        Input::new()
    }
}

/// The session together with the pace at which the host polls for input.
pub struct InputHandler {
    pub app: App,
    /// Clock reading, in milliseconds, of the last tick.
    pub last_tick: u64,
    /// Milliseconds between ticks.
    pub tick_rate: u64,
}

impl InputHandler {
    /// Wraps `app`, ticking every 100 ms from clock reading `now`.
    pub fn new(app: App, now: u64) -> (r: InputHandler)
        ensures
            r.app == app,
            r.last_tick == now,
            r.tick_rate == 100,
    {
        InputHandler { app, last_tick: now, tick_rate: 100 }
    }
}

} // verus!
