//! Configuration of the numeric pane: representation, unit size and byte
//! order, together with the rules that keep the three consistent.

use vstd::prelude::*;

verus! {

/// How one unit of memory is rendered in the numeric pane.
#[derive(Debug, Clone, Copy, PartialEq, Eq, Structural)]
pub enum NumberRepresentation {
    Hex,
    UnsignedDecimal,
    SignedDecimal,
    Float,
}

/// How many bytes one rendered unit covers.
#[derive(Debug, Clone, Copy, PartialEq, Eq, Structural)]
pub enum NumberSize {
    OneByte,
    TwoBytes,
    FourBytes,
    EightBytes,
}

/// Byte order used when a unit's bytes are combined into a number.
#[derive(Debug, Clone, Copy, PartialEq, Eq, Structural)]
pub enum Endianness {
    Little,
    Big,
}

/// Full description of the numeric pane's formatting: representation,
/// unit size and endianness.
///
/// The intended invariant is [`NumberView::is_valid`]: a float can only be
/// four or eight bytes wide. [`NumberView::change_representation`]
/// re-establishes it after every representation switch.
#[derive(Debug, Clone, Copy, PartialEq, Eq, Structural)]
pub struct NumberView {
    pub representation: NumberRepresentation,
    pub size: NumberSize,
    pub endianness: Endianness,
}

impl NumberSize {
    /// Number of bytes covered, as a spec-level value.
    pub open spec fn spec_byte_count(&self) -> nat {
        match self {
            NumberSize::OneByte => 1,
            NumberSize::TwoBytes => 2,
            NumberSize::FourBytes => 4,
            NumberSize::EightBytes => 8,
        }
    }

    /// Number of bytes represented by this `NumberSize`.
    pub fn byte_count(&self) -> (r: usize)
        ensures
            r == self.spec_byte_count(),
    {
        match *self {
            NumberSize::OneByte => 1,
            NumberSize::TwoBytes => 2,
            NumberSize::FourBytes => 4,
            NumberSize::EightBytes => 8,
        }
    }

    /// Human-readable description of this size.
    pub fn as_str(&self) -> (r: &'static str)
        ensures
            *self is OneByte ==> r@ == "1 byte"@,
            *self is TwoBytes ==> r@ == "2 bytes"@,
            *self is FourBytes ==> r@ == "4 bytes"@,
            *self is EightBytes ==> r@ == "8 bytes"@,
    {
        match *self {
            NumberSize::OneByte => "1 byte",
            NumberSize::TwoBytes => "2 bytes",
            NumberSize::FourBytes => "4 bytes",
            NumberSize::EightBytes => "8 bytes",
        }
    }
}

impl NumberRepresentation {
    /// Whether a unit of `size` bytes can be shown in this representation:
    /// floats exist only in four- and eight-byte widths.
    pub open spec fn spec_can_be_of_size(&self, size: NumberSize) -> bool {
        match self {
            NumberRepresentation::Float => size is FourBytes || size is EightBytes,
            _ => true,
        }
    }

    /// Whether a unit of `size` bytes can be shown in this representation.
    pub fn can_be_of_size(&self, size: NumberSize) -> (r: bool)
        ensures
            r == self.spec_can_be_of_size(size),
    {
        match *self {
            NumberRepresentation::Float => {
                match size {
                    NumberSize::FourBytes => true,
                    NumberSize::EightBytes => true,
                    _ => false,
                }
            },
            _ => true,
        }
    }

    /// The unit sizes a picker may offer for this representation, in
    /// ascending order: exactly those that `can_be_of_size` accepts.
    pub fn get_avaialable_sizes(&self) -> (r: Vec<NumberSize>)
        ensures
            forall|i: int|
                0 <= i < r@.len() ==> #[trigger] self.spec_can_be_of_size(r@[i]),
            forall|s: NumberSize| self.spec_can_be_of_size(s) ==> r@.contains(s),
            *self is Float ==> r@ =~= seq![NumberSize::FourBytes, NumberSize::EightBytes],
            !(*self is Float) ==> r@ =~= seq![
                NumberSize::OneByte,
                NumberSize::TwoBytes,
                NumberSize::FourBytes,
                NumberSize::EightBytes,
            ],
    {
        let mut r: Vec<NumberSize> = Vec::new();
        if !matches!(*self, NumberRepresentation::Float) {
            r.push(NumberSize::OneByte);
            r.push(NumberSize::TwoBytes);
        }
        r.push(NumberSize::FourBytes);
        r.push(NumberSize::EightBytes);
        proof {
            assert forall|s: NumberSize| self.spec_can_be_of_size(s) implies r@.contains(s) by {
                match s {
                    NumberSize::OneByte => assert(r@[0] == s),
                    NumberSize::TwoBytes => assert(r@[1] == s),
                    NumberSize::FourBytes => {
                        if self is Float {
                            assert(r@[0] == s);
                        } else {
                            assert(r@[2] == s);
                        }
                    },
                    NumberSize::EightBytes => {
                        if self is Float {
                            assert(r@[1] == s);
                        } else {
                            assert(r@[3] == s);
                        }
                    },
                }
            }
        }
        r
    }

    /// The size picked when the current one is not allowed for this
    /// representation.
    pub fn get_default_size(&self) -> (r: NumberSize)
        ensures
            self.spec_can_be_of_size(r),
            *self is Float ==> r is FourBytes,
            !(*self is Float) ==> r is OneByte,
    {
        match *self {
            NumberRepresentation::Float => NumberSize::FourBytes,
            _ => NumberSize::OneByte,
        }
    }

    /// Human-readable description of this representation.
    pub fn as_str(&self) -> (r: &'static str)
        ensures
            *self is Hex ==> r@ == "Hex"@,
            *self is UnsignedDecimal ==> r@ == "Unsigned decimal"@,
            *self is SignedDecimal ==> r@ == "Signed decimal"@,
            *self is Float ==> r@ == "Float"@,
    {
        match *self {
            NumberRepresentation::Hex => "Hex",
            NumberRepresentation::UnsignedDecimal => "Unsigned decimal",
            NumberRepresentation::SignedDecimal => "Signed decimal",
            NumberRepresentation::Float => "Float",
        }
    }
}

impl Endianness {
    /// Human-readable description of this byte order.
    pub fn as_str(&self) -> (r: &'static str)
        ensures
            *self is Little ==> r@ == "Little-endian"@,
            *self is Big ==> r@ == "Big-endian"@,
    {
        match *self {
            Endianness::Little => "Little-endian",
            Endianness::Big => "Big-endian",
        }
    }
}

impl Default for Endianness {
    /// Little-endian, the byte order of the common host platforms.
    fn default() -> (r: Endianness)
        ensures
            r is Little,
    {
        Endianness::Little
    }
}

impl NumberView {
    /// The representation/size pair is allowed.
    pub open spec fn is_valid(self) -> bool {
        self.representation.spec_can_be_of_size(self.size)
    }

    /// Width, in characters, of every string the codec renders for this
    /// view, so that column layout can be computed without formatting.
    pub open spec fn spec_maximum_chars_needed(&self) -> nat {
        match self.representation {
            NumberRepresentation::Hex => self.size.spec_byte_count() * 2,
            NumberRepresentation::UnsignedDecimal => {
                match self.size {
                    NumberSize::OneByte => 3,
                    NumberSize::TwoBytes => 5,
                    NumberSize::FourBytes => 10,
                    NumberSize::EightBytes => 20,
                }
            },
            NumberRepresentation::SignedDecimal => {
                match self.size {
                    NumberSize::OneByte => 4,
                    NumberSize::TwoBytes => 6,
                    NumberSize::FourBytes => 11,
                    NumberSize::EightBytes => 20,
                }
            },
            NumberRepresentation::Float => {
                match self.size {
                    NumberSize::FourBytes => 14,
                    NumberSize::EightBytes => 23,
                    // Width of the error sentinel shown for the
                    // disallowed float sizes.
                    _ => 5,
                }
            },
        }
    }

    /// Maximum number of characters needed to show a number in this view.
    pub fn maximum_chars_needed(&self) -> (r: usize)
        ensures
            r == self.spec_maximum_chars_needed(),
            1 <= r <= 23,
    {
        match self.representation {
            NumberRepresentation::Hex => self.size.byte_count() * 2,
            NumberRepresentation::UnsignedDecimal => {
                match self.size {
                    NumberSize::OneByte => 3,
                    NumberSize::TwoBytes => 5,
                    NumberSize::FourBytes => 10,
                    NumberSize::EightBytes => 20,
                }
            },
            NumberRepresentation::SignedDecimal => {
                match self.size {
                    NumberSize::OneByte => 4,
                    NumberSize::TwoBytes => 6,
                    NumberSize::FourBytes => 11,
                    NumberSize::EightBytes => 20,
                }
            },
            NumberRepresentation::Float => {
                match self.size {
                    NumberSize::FourBytes => 14,
                    NumberSize::EightBytes => 23,
                    _ => 5,
                }
            },
        }
    }

    /// Switches the representation, falling back to that representation's
    /// default size when the current size is not allowed for it. The
    /// resulting view is always valid, whatever the view was before.
    pub fn change_representation(&mut self, representation: NumberRepresentation)
        ensures
            final(self).representation == representation,
            final(self).endianness == old(self).endianness,
            final(self).size == if representation.spec_can_be_of_size(old(self).size) {
                old(self).size
            } else {
                representation.spec_get_default_size()
            },
            final(self).is_valid(),
    {
        self.representation = representation;
        if !representation.can_be_of_size(self.size) {
            self.size = representation.get_default_size();
        }
    }
}

impl NumberRepresentation {
    /// Spec-level mirror of [`NumberRepresentation::get_default_size`].
    pub open spec fn spec_get_default_size(self) -> NumberSize {
        match self {
            NumberRepresentation::Float => NumberSize::FourBytes,
            _ => NumberSize::OneByte,
        }
    }
}

impl Default for NumberView {
    /// One-byte little-endian hex, the layout the view starts in.
    fn default() -> (r: NumberView)
        ensures
            r.representation is Hex,
            r.size is OneByte,
            r.endianness is Little,
            r.is_valid(),
    {
        NumberView {
            representation: NumberRepresentation::Hex,
            size: NumberSize::OneByte,
            endianness: Endianness::Little,
        }
    }
}

} // verus!
