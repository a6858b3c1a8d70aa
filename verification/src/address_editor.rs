//! Editor state for the address box: the current start address together
//! with its rendered hex text, and the parser for text the user types.
//!
//! The box accepts hexadecimal text only, case-insensitively; text that is
//! empty, not hex, or too large for 64 bits parses to `None`, and the caller
//! leaves the previous address unchanged.

use vstd::prelude::*;

use crate::codec::{
    addr_hex_ascii, format_hex_addr, hex_digit_value, is_hex_digit, parse_hex_digit,
};

verus! {

/// Number of hex digits the address box pads to.
pub const ADDRESS_MIN_DIGITS: usize = 8;

/// The unsigned value a sequence of hex digits denotes, first digit most
/// significant.
pub open spec fn hex_value_of(s: Seq<u8>) -> nat
    decreases s.len(),
{
    if s.len() == 0 {
        0
    } else {
        hex_value_of(s.drop_last()) * 16 + hex_digit_value(s.last())
    }
}

/// Every byte of the sequence is an ASCII hex digit.
pub open spec fn all_hex_digits(s: Seq<u8>) -> bool {
    forall|i: int| 0 <= i < s.len() ==> is_hex_digit(#[trigger] s[i])
}

/// A prefix of a hex string denotes no more than the whole string.
proof fn lemma_hex_value_prefix_le(s: Seq<u8>, i: int)
    requires
        0 <= i <= s.len(),
    ensures
        hex_value_of(s.take(i)) <= hex_value_of(s),
    decreases s.len() - i,
{
    if i == s.len() {
        assert(s.take(i) =~= s);
    } else {
        assert(s.take(i + 1).drop_last() =~= s.take(i));
        assert(s.take(i + 1).last() == s[i]);
        lemma_hex_value_prefix_le(s, i + 1);
    }
}

/// Parses hexadecimal text, case-insensitively, as an unsigned 64-bit
/// address. Returns `Some` exactly when the text is non-empty, wholly hex
/// digits, and denotes a value that fits in 64 bits.
pub fn parse_address(text: &[u8]) -> (r: Option<u64>)
    ensures
        r is Some <==> (text@.len() > 0 && all_hex_digits(text@) && hex_value_of(text@)
            <= u64::MAX),
        r matches Some(v) ==> v == hex_value_of(text@),
{
    if text.len() == 0 {
        return None;
    }
    let mut value: u64 = 0;
    let mut i: usize = 0;
    while i < text.len()
        invariant
            0 < text@.len(),
            i <= text@.len(),
            all_hex_digits(text@.take(i as int)),
            value == hex_value_of(text@.take(i as int)),
        decreases text@.len() - i,
    {
        proof {
            assert(text@.take(i + 1).drop_last() =~= text@.take(i as int));
            assert(text@.take(i + 1).last() == text@[i as int]);
        }
        let d = match parse_hex_digit(text[i]) {
            Some(d) => d,
            None => {
                return None;
            },
        };
        if value > (u64::MAX - d as u64) / 16 {
            proof {
                lemma_hex_value_prefix_le(text@, i + 1);
                assert(hex_value_of(text@.take(i + 1)) > u64::MAX) by (nonlinear_arith)
                    requires
                        hex_value_of(text@.take(i + 1)) == hex_value_of(text@.take(i as int)) * 16
                            + hex_digit_value(text@[i as int]),
                        hex_value_of(text@.take(i as int)) > (u64::MAX - hex_digit_value(
                            text@[i as int],
                        )) / 16,
                        hex_digit_value(text@[i as int]) < 16,
                ;
            }
            return None;
        }
        proof {
            assert(value * 16 + d <= u64::MAX) by (nonlinear_arith)
                requires
                    value <= (u64::MAX - d) / 16,
                    0 <= d < 16,
            ;
        }
        value = value * 16 + d as u64;
        i += 1;
    }
    proof {
        assert(text@.take(text@.len() as int) =~= text@);
    }
    Some(value)
}

/// The address box: the committed value and its rendered hex text.
pub struct AddressEditor {
    value: u64,
    text: Vec<u8>,
}

impl AddressEditor {
    /// The text always shows the value, zero-padded to the box's width.
    #[verifier::type_invariant]
    spec fn wf(self) -> bool {
        self.text@ == addr_hex_ascii(self.value as nat, ADDRESS_MIN_DIGITS as nat)
    }

    /// The committed address.
    pub closed spec fn spec_value(self) -> u64 {
        self.value
    }

    /// The rendered text, as ASCII bytes.
    pub closed spec fn spec_text(self) -> Seq<u8> {
        self.text@
    }

    pub fn new(value: u64) -> (r: AddressEditor)
        ensures
            r.spec_value() == value,
            r.spec_text() == addr_hex_ascii(value as nat, ADDRESS_MIN_DIGITS as nat),
    {
        AddressEditor { value, text: format_hex_addr(value, ADDRESS_MIN_DIGITS) }
    }

    /// The committed address.
    pub fn get(&self) -> (r: u64)
        ensures
            r == self.spec_value(),
    {
        self.value
    }

    /// Commits a new address and re-renders the text.
    pub fn set(&mut self, value: u64)
        ensures
            final(self).spec_value() == value,
            final(self).spec_text() == addr_hex_ascii(value as nat, ADDRESS_MIN_DIGITS as nat),
    {
        *self = AddressEditor { value, text: format_hex_addr(value, ADDRESS_MIN_DIGITS) };
    }

    /// The rendered hex text of the committed address.
    pub fn text(&self) -> (r: &Vec<u8>)
        ensures
            r@ == self.spec_text(),
            r@ == addr_hex_ascii(self.spec_value() as nat, ADDRESS_MIN_DIGITS as nat),
    {
        proof {
            use_type_invariant(self);
        }
        &self.text
    }

    /// Applies text typed into the box: a valid hex parse commits the new
    /// value; anything else leaves the editor unchanged. Returns whether
    /// the committed value changed, as the box's edit callback reports.
    pub fn apply_input(&mut self, typed: &[u8]) -> (changed: bool)
        ensures
            final(self).spec_value() == if typed@.len() > 0 && all_hex_digits(typed@)
                && hex_value_of(typed@) <= u64::MAX {
                hex_value_of(typed@) as u64
            } else {
                old(self).spec_value()
            },
            changed == (final(self).spec_value() != old(self).spec_value()),
            final(self).spec_text() == addr_hex_ascii(
                final(self).spec_value() as nat,
                ADDRESS_MIN_DIGITS as nat,
            ),
    {
        proof {
            use_type_invariant(&*self);
        }
        match parse_address(typed) {
            Some(v) => {
                let changed = v != self.value;
                self.set(v);
                changed
            },
            None => false,
        }
    }
}

} // verus!
