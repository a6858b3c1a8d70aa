//! The numeric-pane cursor: which address and which digit of its rendered
//! unit are being edited, plus the one-shot focus flags the render step
//! consumes. Digits are written through the codec's single-digit write
//! path so the nibble mapping always matches the formatting.

use vstd::prelude::*;

use crate::codec::spec_write_digit;
use crate::codec::write_digit;
use crate::number_view::NumberView;

verus! {

/// Position the cursor reaches going one digit forward from `position`
/// under `view`'s layout: one digit right, or digit 0 of the next unit
/// from the last digit, or `None` past the end of the address space.
pub open spec fn next_position_of(view: NumberView, position: Option<(u64, usize)>) -> Option<
    (u64, usize),
> {
    match position {
        None => None,
        Some((address, cursor)) => {
            if cursor + 1 == view.spec_maximum_chars_needed() {
                if address + view.size.spec_byte_count() <= u64::MAX {
                    Some(((address + view.size.spec_byte_count()) as u64, 0usize))
                } else {
                    None
                }
            } else {
                Some((address, (cursor + 1) as usize))
            }
        },
    }
}

/// Position the cursor reaches going one digit backward from `position`
/// under `view`'s layout: one digit left, or the last digit of the
/// previous unit, or `None` before address 0.
pub open spec fn previous_position_of(view: NumberView, position: Option<(u64, usize)>) -> Option<
    (u64, usize),
> {
    match position {
        None => None,
        Some((address, cursor)) => {
            if cursor == 0 {
                if address >= view.size.spec_byte_count() {
                    Some(
                        (
                            (address - view.size.spec_byte_count()) as u64,
                            (view.spec_maximum_chars_needed() - 1) as usize,
                        ),
                    )
                } else {
                    None
                }
            } else {
                Some((address, (cursor - 1) as usize))
            }
        },
    }
}

/// Cursor state for editing one hex digit of the numeric pane at a time.
pub struct DigitMemoryEditor {
    position: Option<(u64, usize)>,
    view: NumberView,
    should_take_focus: bool,
    should_set_pos_to_start: bool,
}

impl DigitMemoryEditor {
    /// Address of the unit under edit and the digit offset within its
    /// rendered text, or `None` while nothing is being edited.
    pub closed spec fn spec_position(self) -> Option<(u64, usize)> {
        self.position
    }

    /// The view whose digit layout the cursor is tied to.
    pub closed spec fn spec_view(self) -> NumberView {
        self.view
    }

    /// The editor still has to request keyboard focus, once.
    pub closed spec fn spec_should_take_focus(self) -> bool {
        self.should_take_focus
    }

    /// The editor still has to force the caret to position 0, once.
    pub closed spec fn spec_should_set_pos_to_start(self) -> bool {
        self.should_set_pos_to_start
    }

    /// A fresh editor for `view`: inactive, with nothing to focus.
    pub fn new(view: NumberView) -> (r: DigitMemoryEditor)
        ensures
            r.spec_position() is None,
            r.spec_view() == view,
            !r.spec_should_take_focus(),
            !r.spec_should_set_pos_to_start(),
    {
        DigitMemoryEditor {
            position: None,
            view,
            should_take_focus: false,
            should_set_pos_to_start: false,
        }
    }

    /// The current cursor position, if the editor is active.
    pub fn position(&self) -> (r: Option<(u64, usize)>)
        ensures
            r == self.spec_position(),
    {
        self.position
    }

    /// Places the cursor on digit `cursor` of the unit at `address`.
    pub fn set_position(&mut self, address: u64, cursor: usize)
        ensures
            final(self).spec_position() == Some((address, cursor)),
            final(self).spec_view() == old(self).spec_view(),
            final(self).spec_should_take_focus() == old(self).spec_should_take_focus(),
            final(self).spec_should_set_pos_to_start() == old(self).spec_should_set_pos_to_start(),
    {
        self.position = Some((address, cursor));
    }

    /// Clears the cursor: nothing is being edited.
    pub fn clear_position(&mut self)
        ensures
            final(self).spec_position() is None,
            final(self).spec_view() == old(self).spec_view(),
            final(self).spec_should_take_focus() == old(self).spec_should_take_focus(),
            final(self).spec_should_set_pos_to_start() == old(self).spec_should_set_pos_to_start(),
    {
        self.position = None;
    }

    /// Whether the cursor sits on the unit at `address`.
    pub fn is_at_address(&self, address: u64) -> (r: bool)
        ensures
            r == match self.spec_position() {
                Some((a, _)) => a == address,
                None => false,
            },
    {
        match self.position {
            Some((x, _)) => x == address,
            _ => false,
        }
    }

    /// Arms both one-shot flags for a fresh activation: the next render
    /// takes keyboard focus and resets the caret, once each.
    pub fn focus(&mut self)
        ensures
            final(self).spec_should_take_focus(),
            final(self).spec_should_set_pos_to_start(),
            final(self).spec_position() == old(self).spec_position(),
            final(self).spec_view() == old(self).spec_view(),
    {
        self.should_take_focus = true;
        self.should_set_pos_to_start = true;
    }

    /// Switches the digit layout to a new view: the cursor is dropped,
    /// since its digit offset meant something only in the old layout.
    pub fn set_number_view(&mut self, view: NumberView)
        ensures
            final(self).spec_view() == view,
            final(self).spec_position() is None,
            final(self).spec_should_take_focus() == old(self).spec_should_take_focus(),
            final(self).spec_should_set_pos_to_start() == old(self).spec_should_set_pos_to_start(),
    {
        self.view = view;
        self.position = None;
    }

    /// Consumes the focus request: true the first time after `focus`,
    /// false afterwards, so focus is requested exactly once.
    pub fn take_focus(&mut self) -> (r: bool)
        ensures
            r == old(self).spec_should_take_focus(),
            !final(self).spec_should_take_focus(),
            final(self).spec_should_set_pos_to_start() == old(self).spec_should_set_pos_to_start(),
            final(self).spec_position() == old(self).spec_position(),
            final(self).spec_view() == old(self).spec_view(),
    {
        let r = self.should_take_focus;
        self.should_take_focus = false;
        r
    }

    /// Consumes the caret-reset request: true the first time after
    /// `focus`, false afterwards, so the caret is forced exactly once.
    pub fn take_set_pos_to_start(&mut self) -> (r: bool)
        ensures
            r == old(self).spec_should_set_pos_to_start(),
            !final(self).spec_should_set_pos_to_start(),
            final(self).spec_should_take_focus() == old(self).spec_should_take_focus(),
            final(self).spec_position() == old(self).spec_position(),
            final(self).spec_view() == old(self).spec_view(),
    {
        let r = self.should_set_pos_to_start;
        self.should_set_pos_to_start = false;
        r
    }

    /// The position preceding the current one, crossing a unit boundary
    /// to the last digit of the previous unit; `None` when inactive or
    /// when there is no unit before this one.
    pub fn previous_position(&self) -> (r: Option<(u64, usize)>)
        ensures
            r == previous_position_of(self.spec_view(), self.spec_position()),
    {
        match self.position {
            None => None,
            Some((address, cursor)) => {
                if cursor == 0 {
                    match address.checked_sub(self.view.size.byte_count() as u64) {
                        Some(a) => Some((a, self.view.maximum_chars_needed() - 1)),
                        None => None,
                    }
                } else {
                    Some((address, cursor - 1))
                }
            },
        }
    }

    /// The position succeeding the current one, crossing a unit boundary
    /// to digit 0 of the next unit; `None` when inactive or when the next
    /// unit's address would overflow.
    pub fn next_position(&self) -> (r: Option<(u64, usize)>)
        requires
            self.spec_position() matches Some(p) ==> p.1
                < self.spec_view().spec_maximum_chars_needed(),
        ensures
            r == next_position_of(self.spec_view(), self.spec_position()),
    {
        match self.position {
            None => None,
            Some((address, cursor)) => {
                if cursor == self.view.maximum_chars_needed() - 1 {
                    match address.checked_add(self.view.size.byte_count() as u64) {
                        Some(a) => Some((a, 0)),
                        None => None,
                    }
                } else {
                    Some((address, cursor + 1))
                }
            },
        }
    }

    /// One accepted keystroke on the numeric pane: writes the typed hex
    /// digit into the unit's bytes through the codec's nibble mapping,
    /// then advances the cursor one digit, moving to digit 0 of the next
    /// unit from the last digit.
    pub fn enter_digit(&mut self, data: &mut Vec<u8>, digit: u8)
        requires
            old(self).spec_view().representation is Hex,
            old(self).spec_position() matches Some((a, c)) && c < 2 * old(
                self,
            ).spec_view().size.spec_byte_count(),
            old(data)@.len() >= old(self).spec_view().size.spec_byte_count(),
            digit < 16,
        ensures
            final(self).spec_view() == old(self).spec_view(),
            final(data)@ == spec_write_digit(
                old(self).spec_view(),
                old(data)@,
                old(self).spec_position().unwrap().1 as nat,
                digit as nat,
            ),
            final(self).spec_position() == next_position_of(
                old(self).spec_view(),
                old(self).spec_position(),
            ),
            final(self).spec_should_take_focus() == old(self).spec_should_take_focus(),
            final(self).spec_should_set_pos_to_start() == old(self).spec_should_set_pos_to_start(),
    {
        let cursor = match self.position {
            Some(p) => p.1,
            None => {
                proof {
                    assert(false);
                }
                0usize
            },
        };
        write_digit(&self.view, data, cursor, digit);
        self.position = self.next_position();
    }
}

} // verus!
