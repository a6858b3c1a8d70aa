//! Editing state for one character cell of the text pane, and the cursor
//! decisions taken after each frame of input.
//!
//! The host widget cannot move keyboard focus or the caret in the frame
//! that created the editor, so the editor carries two one-shot flags that
//! the render step consumes exactly once each.

use vstd::prelude::*;

verus! {

/// Where the cursor goes after a frame of input on a character cell.
#[derive(Debug, Clone, Copy, PartialEq, Eq, Structural)]
pub enum NextPosition {
    /// Move to the cell before this one (the caller decrements the address).
    Left,
    /// Move to the cell after this one (the caller increments the address).
    Right,
    /// Stay where it is.
    Unchanged,
    /// Move to this character offset within the same cell.
    Changed(usize),
}

/// Focus bookkeeping for the active text-pane cell.
pub struct CharEditor {
    should_take_focus: bool,
    should_set_pos_to_start: bool,
}

impl CharEditor {
    /// The editor still has to request keyboard focus, once.
    pub closed spec fn spec_should_take_focus(self) -> bool {
        self.should_take_focus
    }

    /// The editor still has to force the caret to position 0, once.
    pub closed spec fn spec_should_set_pos_to_start(self) -> bool {
        self.should_set_pos_to_start
    }

    /// A fresh activation: both one-shot flags armed.
    pub fn new() -> (r: CharEditor)
        ensures
            r.spec_should_take_focus(),
            r.spec_should_set_pos_to_start(),
    {
        CharEditor { should_take_focus: true, should_set_pos_to_start: true }
    }

    /// Consumes the focus request: true the first time after an
    /// activation, false afterwards, so focus is taken exactly once.
    pub fn take_focus(&mut self) -> (r: bool)
        ensures
            r == old(self).spec_should_take_focus(),
            !final(self).spec_should_take_focus(),
            final(self).spec_should_set_pos_to_start() == old(
                self,
            ).spec_should_set_pos_to_start(),
    {
        let r = self.should_take_focus;
        self.should_take_focus = false;
        r
    }

    /// Consumes the caret-reset request: true the first time after an
    /// activation, false afterwards, so the caret is forced exactly once.
    pub fn take_set_pos_to_start(&mut self) -> (r: bool)
        ensures
            r == old(self).spec_should_set_pos_to_start(),
            !final(self).spec_should_set_pos_to_start(),
            final(self).spec_should_take_focus() == old(self).spec_should_take_focus(),
    {
        let r = self.should_set_pos_to_start;
        self.should_set_pos_to_start = false;
        r
    }
}

/// Keeps a remembered cursor inside a cell's text: a cursor at or past the
/// end is pulled back to the last character.
pub fn clamp_cursor(cursor: usize, text_len: usize) -> (r: usize)
    requires
        text_len >= 1,
    ensures
        r == if cursor >= text_len {
            (text_len - 1) as int
        } else {
            cursor as int
        },
        r < text_len,
{
    if cursor >= text_len {
        text_len - 1
    } else {
        cursor
    }
}

/// Where the cursor goes once a character has been accepted: one step
/// right within the cell, or out to the next cell from the last character.
pub fn position_after_input(cursor: usize, text_len: usize) -> (r: NextPosition)
    requires
        cursor < text_len,
    ensures
        r == if cursor == text_len - 1 {
            NextPosition::Right
        } else {
            NextPosition::Changed((cursor + 1) as usize)
        },
{
    if cursor == text_len - 1 {
        NextPosition::Right
    } else {
        NextPosition::Changed(cursor + 1)
    }
}

/// Where the cursor goes on a left-arrow press: one step left within the
/// cell, or out to the previous cell from the first character.
pub fn position_after_left(cursor: usize) -> (r: NextPosition)
    ensures
        r == if cursor > 0 {
            NextPosition::Changed((cursor - 1) as usize)
        } else {
            NextPosition::Left
        },
{
    if cursor > 0 {
        NextPosition::Changed(cursor - 1)
    } else {
        NextPosition::Left
    }
}

/// What the text pane shows for a byte: printable ASCII stands for
/// itself, anything else is a dot.
pub fn display_byte(b: u8) -> (r: u8)
    ensures
        r == if 32 <= b <= 127 {
            b
        } else {
            46u8
        },
{
    if 32 <= b && b <= 127 {
        b
    } else {
        46
    }
}

} // verus!
