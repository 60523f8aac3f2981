//! The search box: a line of text and a cursor counted in characters.
use vstd::prelude::*;
use vstd::string::{StrSliceExecFns, StringExecFns};
use crate::text::push_char;

verus! {

/// What confirming the search box does.
#[derive(Clone, Copy, Debug, Default, PartialEq, Eq)]
pub enum InputMode {
    #[default]
    Normal,
    Search,
    FindID,
    Rename,
}

/// The text typed so far, the cursor position in characters, and the mode.
#[derive(Clone, Debug, Default)]
pub struct InputBox {
    pub text: String,
    pub char_index: usize,
    pub mode: InputMode,
}

/// `pos` kept within `0..=len`.
pub open spec fn clamped(pos: int, len: int) -> int {
    if pos > len {
        len
    } else {
        pos
    }
}

impl InputBox {
    /// `new_cursor_pos` kept within the text.
    pub fn clamp_cursor(&self, new_cursor_pos: usize) -> (r: usize)
        ensures
            r == clamped(new_cursor_pos as int, self.text@.len() as int),
    {
        let n = self.text.as_str().unicode_len();
        if new_cursor_pos > n {
            n
        } else {
            new_cursor_pos
        }
    }

    /// Moves the cursor one character to the left, stopping at the start.
    pub fn move_cursor_left(&mut self)
        ensures
            final(self).text == old(self).text,
            final(self).mode == old(self).mode,
            final(self).char_index == clamped(
                if old(self).char_index == 0 { 0 } else { old(self).char_index - 1 },
                old(self).text@.len() as int,
            ),
    {
        let moved = self.char_index.saturating_sub(1);
        self.char_index = self.clamp_cursor(moved);
    }

    /// Moves the cursor one character to the right, stopping at the end.
    pub fn move_cursor_right(&mut self)
        ensures
            final(self).text == old(self).text,
            final(self).mode == old(self).mode,
            final(self).char_index == clamped(
                if old(self).char_index == usize::MAX { usize::MAX as int } else { old(self).char_index + 1 },
                old(self).text@.len() as int,
            ),
    {
        let moved = self.char_index.saturating_add(1);
        self.char_index = self.clamp_cursor(moved);
    }

    /// Inserts `new_char` at the cursor (at the end when the cursor is past
    /// it) and moves the cursor after it.
    pub fn enter_char(&mut self, new_char: char)
        ensures
            ({
                let k = clamped(old(self).char_index as int, old(self).text@.len() as int);
                &&& final(self).text@ == old(self).text@.take(k).push(new_char) + old(self).text@.skip(k)
                &&& final(self).char_index == clamped(
                    if old(self).char_index == usize::MAX { usize::MAX as int } else { old(self).char_index + 1 },
                    final(self).text@.len() as int,
                )
            }),
            final(self).mode == old(self).mode,
    {
        let k = self.clamp_cursor(self.char_index);
        let text = self.text.as_str();
        let n = text.unicode_len();
        let mut out = text.substring_char(0, k).to_string();
        push_char(&mut out, new_char);
        out.append(text.substring_char(k, n));
        assert(self.text@.subrange(0, k as int) =~= self.text@.take(k as int));
        assert(self.text@.subrange(k as int, n as int) =~= self.text@.skip(k as int));
        self.text = out;
        self.move_cursor_right();
    }

    /// Deletes the character before the cursor and moves the cursor left;
    /// nothing happens with the cursor at the start.
    pub fn delete_char(&mut self)
        ensures
            old(self).char_index == 0 ==> *final(self) == *old(self),
            old(self).char_index != 0 ==> ({
                let len = old(self).text@.len() as int;
                let before = clamped(old(self).char_index - 1, len);
                let after = clamped(old(self).char_index as int, len);
                &&& final(self).text@ == old(self).text@.take(before) + old(self).text@.skip(after)
                &&& final(self).char_index == clamped(
                    old(self).char_index - 1,
                    final(self).text@.len() as int,
                )
            }),
            final(self).mode == old(self).mode,
    {
        if self.char_index == 0 {
            return;
        }
        let text = self.text.as_str();
        let n = text.unicode_len();
        let before = self.clamp_cursor(self.char_index - 1);
        let after = self.clamp_cursor(self.char_index);
        let mut out = text.substring_char(0, before).to_string();
        out.append(text.substring_char(after, n));
        assert(self.text@.subrange(0, before as int) =~= self.text@.take(before as int));
        assert(self.text@.subrange(after as int, n as int) =~= self.text@.skip(after as int));
        self.text = out;
        self.move_cursor_left();
    }

    /// Empties the box and puts the cursor at the start.
    pub fn reset_input(&mut self)
        ensures
            final(self).text@.len() == 0,
            final(self).char_index == 0,
            final(self).mode == old(self).mode,
    {
        self.char_index = 0;
        self.text = String::new();
    }
}

} // verus!
