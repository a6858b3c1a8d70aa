//! Numeric codec: renders one unit of memory as fixed-width ASCII text in
//! the configured representation, size and endianness, and parses single
//! hex digits for the character-level write path.
//!
//! Every representation has a fixed rendered width
//! ([`NumberView::maximum_chars_needed`]) so that the viewport can lay out
//! columns by character count without formatting anything.

use vstd::prelude::*;

use crate::number_view::{Endianness, NumberRepresentation, NumberSize, NumberView};

verus! {

// ---------------------------------------------------------------------------
// Spec-level text model. Rendered text is modelled as a sequence of ASCII
// bytes; `chars_of` lifts it to the `Seq<char>` view of `String`.
// ---------------------------------------------------------------------------

/// The characters of a sequence of ASCII bytes.
pub open spec fn chars_of(s: Seq<u8>) -> Seq<char> {
    s.map_values(|b: u8| b as char)
}

/// ASCII digit for a nibble value: `0`-`9` then lowercase `a`-`f`.
pub open spec fn hex_digit_ascii(d: nat) -> u8
    recommends
        d < 16,
{
    if d < 10 {
        (48 + d) as u8
    } else {
        (87 + d) as u8
    }
}

/// ASCII digit for a decimal digit value.
pub open spec fn dec_digit_ascii(d: nat) -> u8
    recommends
        d < 10,
{
    (48 + d) as u8
}

/// Two hex digits of one byte, most significant nibble first.
pub open spec fn hex_byte_ascii(b: u8) -> Seq<u8> {
    seq![hex_digit_ascii((b / 16) as nat), hex_digit_ascii((b % 16) as nat)]
}

/// A unit's bytes reordered so that the most significant byte comes first:
/// little-endian units are reversed, big-endian units are kept as stored.
pub open spec fn display_order(endianness: Endianness, s: Seq<u8>) -> Seq<u8> {
    match endianness {
        Endianness::Little => s.reverse(),
        Endianness::Big => s,
    }
}

/// Hex text of a unit whose bytes are given most significant first.
pub open spec fn hex_unit_ascii(s: Seq<u8>) -> Seq<u8>
    decreases s.len(),
{
    if s.len() == 0 {
        Seq::empty()
    } else {
        hex_unit_ascii(s.drop_last()) + hex_byte_ascii(s.last())
    }
}

/// The integer a byte sequence denotes when its first byte is the most
/// significant.
pub open spec fn be_value(s: Seq<u8>) -> nat
    decreases s.len(),
{
    if s.len() == 0 {
        0
    } else {
        be_value(s.drop_last()) * 256 + s.last() as nat
    }
}

/// The integer a unit denotes under the given endianness.
pub open spec fn unit_value(endianness: Endianness, s: Seq<u8>) -> nat {
    be_value(display_order(endianness, s))
}

/// Decimal text of a value, most significant digit first, no leading zeros.
pub open spec fn dec_ascii(v: nat) -> Seq<u8>
    decreases v,
{
    if v < 10 {
        seq![dec_digit_ascii(v)]
    } else {
        dec_ascii(v / 10) + seq![dec_digit_ascii(v % 10)]
    }
}

/// `s` right-justified to `width` characters with spaces, as Rust's
/// fixed-width integer formatting does; text already at least `width`
/// long is kept as it is.
pub open spec fn pad_left(s: Seq<u8>, width: nat) -> Seq<u8> {
    if s.len() >= width {
        s
    } else {
        Seq::new((width - s.len()) as nat, |i: int| 32u8) + s
    }
}

/// 256 to the `n`th power: the number of values of an `n`-byte unit.
pub open spec fn pow256(n: nat) -> nat
    decreases n,
{
    if n == 0 {
        1
    } else {
        256 * pow256((n - 1) as nat)
    }
}

/// 10 to the `n`th power.
pub open spec fn pow10(n: nat) -> nat
    decreases n,
{
    if n == 0 {
        1
    } else {
        10 * pow10((n - 1) as nat)
    }
}

/// Decimal text of the two's-complement reading of `v` as an `n`-byte
/// integer: values at or above half the range are negative.
pub open spec fn signed_dec_ascii(v: nat, n: nat) -> Seq<u8>
    recommends
        v < pow256(n),
{
    if v < pow256(n) / 2 {
        dec_ascii(v)
    } else {
        seq![45u8] + dec_ascii((pow256(n) - v) as nat)
    }
}

/// The sentinel rendered for the disallowed one- and two-byte float sizes.
pub open spec fn error_text() -> Seq<u8> {
    seq![69u8, 114u8, 114u8, 111u8, 114u8]
}

/// Everything the codec renders for `view` over the leading unit of
/// `bytes`, as ASCII. The valid float sizes are the one case the engine
/// does not render itself (the host formats the float from the unit's
/// bits); their arm here is a placeholder that no contract exposes.
pub open spec fn spec_format(view: NumberView, bytes: Seq<u8>) -> Seq<u8> {
    let disp = display_order(view.endianness, bytes.take(view.size.spec_byte_count() as int));
    let width = view.spec_maximum_chars_needed();
    match view.representation {
        NumberRepresentation::Hex => hex_unit_ascii(disp),
        NumberRepresentation::UnsignedDecimal => pad_left(dec_ascii(be_value(disp)), width),
        NumberRepresentation::SignedDecimal => pad_left(
            signed_dec_ascii(be_value(disp), view.size.spec_byte_count()),
            width,
        ),
        NumberRepresentation::Float => if view.is_valid() {
            Seq::empty()
        } else {
            error_text()
        },
    }
}

// ---------------------------------------------------------------------------
// Arithmetic lemmas about the text model.
// ---------------------------------------------------------------------------

/// The concrete powers of 256 the codec works with.
pub proof fn lemma_pow256_values()
    ensures
        pow256(0) == 1,
        pow256(1) == 0x100,
        pow256(2) == 0x10000,
        pow256(4) == 0x1_0000_0000,
        pow256(7) == 0x100_0000_0000_0000,
        pow256(8) == 0x1_0000_0000_0000_0000,
{
    reveal_with_fuel(pow256, 9);
}

/// The concrete powers of 10 the width table rests on.
pub proof fn lemma_pow10_values()
    ensures
        pow10(3) == 1000,
        pow10(5) == 100_000,
        pow10(10) == 10_000_000_000,
        pow10(19) == 10_000_000_000_000_000_000,
        pow10(20) == 100_000_000_000_000_000_000,
{
    reveal_with_fuel(pow10, 21);
}

pub proof fn lemma_pow256_monotonic(a: nat, b: nat)
    requires
        a <= b,
    ensures
        pow256(a) <= pow256(b),
    decreases b,
{
    if a < b {
        lemma_pow256_monotonic(a, (b - 1) as nat);
        assert(pow256(b) == 256 * pow256((b - 1) as nat));
    }
}

/// An `n`-byte unit denotes a value below 256^n.
pub proof fn lemma_be_value_bound(s: Seq<u8>)
    ensures
        be_value(s) < pow256(s.len()),
    decreases s.len(),
{
    if s.len() > 0 {
        lemma_be_value_bound(s.drop_last());
    }
}

/// A value below 10^k has at most `k` decimal digits (and at least one).
pub proof fn lemma_dec_ascii_len(v: nat, k: nat)
    requires
        v < pow10(k),
        1 <= k,
    ensures
        1 <= dec_ascii(v).len() <= k,
    decreases k,
{
    if v < 10 {
    } else {
        assert(pow10(k) == 10 * pow10((k - 1) as nat));
        assert(v / 10 < pow10((k - 1) as nat)) by (nonlinear_arith)
            requires
                v < 10 * pow10((k - 1) as nat),
        ;
        if k == 1 {
            assert(pow10(1) == 10) by {
                reveal_with_fuel(pow10, 2);
            }
        }
        lemma_dec_ascii_len(v / 10, (k - 1) as nat);
    }
}

/// Decimal text is made of ASCII digits.
pub proof fn lemma_dec_ascii_is_ascii(v: nat)
    ensures
        forall|i: int| 0 <= i < dec_ascii(v).len() ==> 48 <= #[trigger] dec_ascii(v)[i] <= 57,
    decreases v,
{
    if v >= 10 {
        lemma_dec_ascii_is_ascii(v / 10);
        assert forall|i: int| 0 <= i < dec_ascii(v).len() implies 48 <= #[trigger] dec_ascii(v)[i]
            <= 57 by {
            if i < dec_ascii(v / 10).len() {
                assert(dec_ascii(v)[i] == dec_ascii(v / 10)[i]);
            } else {
                assert(dec_ascii(v)[i] == dec_digit_ascii(v % 10));
            }
        }
    }
}

/// Hex text of a unit is twice as long as the unit.
pub proof fn lemma_hex_unit_ascii_len(s: Seq<u8>)
    ensures
        hex_unit_ascii(s).len() == 2 * s.len(),
    decreases s.len(),
{
    if s.len() > 0 {
        lemma_hex_unit_ascii_len(s.drop_last());
    }
}

/// Hex text is made of ASCII digit and lowercase letter bytes.
pub proof fn lemma_hex_unit_ascii_is_ascii(s: Seq<u8>)
    ensures
        forall|i: int| 0 <= i < hex_unit_ascii(s).len() ==> #[trigger] hex_unit_ascii(s)[i] < 128,
    decreases s.len(),
{
    if s.len() > 0 {
        lemma_hex_unit_ascii_is_ascii(s.drop_last());
        let rest = hex_unit_ascii(s.drop_last());
        assert forall|i: int| 0 <= i < hex_unit_ascii(s).len() implies #[trigger] hex_unit_ascii(
            s,
        )[i] < 128 by {
            if i < rest.len() {
                assert(hex_unit_ascii(s)[i] == rest[i]);
            } else {
                assert(hex_unit_ascii(s)[i] == hex_byte_ascii(s.last())[i - rest.len()]);
            }
        }
    }
}

// ---------------------------------------------------------------------------
// Executable formatting.
// ---------------------------------------------------------------------------

/// ASCII character of a nibble value.
fn hex_digit_char(d: u8) -> (r: u8)
    requires
        d < 16,
    ensures
        r == hex_digit_ascii(d as nat),
{
    if d < 10 {
        48 + d
    } else {
        87 + d
    }
}

/// Copies the leading `n`-byte unit of `buffer` into display order:
/// most significant byte first.
fn display_bytes(endianness: Endianness, buffer: &[u8], n: usize) -> (r: Vec<u8>)
    requires
        n <= buffer@.len(),
    ensures
        r@ == display_order(endianness, buffer@.take(n as int)),
        r@.len() == n,
{
    let mut r: Vec<u8> = Vec::new();
    match endianness {
        Endianness::Big => {
            let mut i: usize = 0;
            while i < n
                invariant
                    i <= n <= buffer@.len(),
                    r@ =~= buffer@.take(i as int),
                decreases n - i,
            {
                r.push(buffer[i]);
                i += 1;
            }
            proof {
                assert(r@ =~= buffer@.take(n as int));
            }
        },
        Endianness::Little => {
            let mut i: usize = 0;
            while i < n
                invariant
                    i <= n <= buffer@.len(),
                    r@.len() == i,
                    forall|j: int| 0 <= j < i ==> r@[j] == buffer@[n - 1 - j],
                decreases n - i,
            {
                r.push(buffer[n - 1 - i]);
                i += 1;
            }
            proof {
                assert(r@ =~= buffer@.take(n as int).reverse());
            }
        },
    }
    r
}

/// Hex text of a unit given in display order.
fn hex_unit_bytes(disp: &Vec<u8>) -> (r: Vec<u8>)
    ensures
        r@ == hex_unit_ascii(disp@),
{
    let mut r: Vec<u8> = Vec::new();
    let mut i: usize = 0;
    while i < disp.len()
        invariant
            i <= disp@.len(),
            r@ == hex_unit_ascii(disp@.take(i as int)),
        decreases disp@.len() - i,
    {
        let b = disp[i];
        r.push(hex_digit_char(b / 16));
        r.push(hex_digit_char(b % 16));
        proof {
            assert(disp@.take(i + 1).drop_last() =~= disp@.take(i as int));
            assert(disp@.take(i + 1).last() == disp@[i as int]);
            assert(r@ =~= hex_unit_ascii(disp@.take(i + 1)));
        }
        i += 1;
    }
    proof {
        assert(disp@.take(disp@.len() as int) =~= disp@);
    }
    r
}

/// The value of a unit given in display order.
fn be_value_of(disp: &Vec<u8>) -> (v: u64)
    requires
        disp@.len() <= 8,
    ensures
        v as nat == be_value(disp@),
{
    proof {
        lemma_pow256_values();
    }
    let mut v: u64 = 0;
    let mut i: usize = 0;
    while i < disp.len()
        invariant
            i <= disp@.len() <= 8,
            (v as nat) == be_value(disp@.take(i as int)),
            (v as nat) < pow256(i as nat),
        decreases disp@.len() - i,
    {
        proof {
            lemma_pow256_monotonic(i as nat, 7);
            lemma_pow256_values();
            assert(disp@.take(i + 1).drop_last() =~= disp@.take(i as int));
            assert(disp@.take(i + 1).last() == disp@[i as int]);
        }
        v = v * 256 + (disp[i] as u64);
        i += 1;
    }
    proof {
        assert(disp@.take(disp@.len() as int) =~= disp@);
    }
    v
}

/// Decimal text of `v`, most significant digit first.
fn dec_bytes(v: u64) -> (r: Vec<u8>)
    ensures
        r@ == dec_ascii(v as nat),
    decreases v,
{
    if v < 10 {
        let mut r: Vec<u8> = Vec::new();
        r.push(48 + (v as u8));
        proof {
            assert(r@ =~= dec_ascii(v as nat));
        }
        r
    } else {
        let mut r = dec_bytes(v / 10);
        r.push(48 + ((v % 10) as u8));
        proof {
            assert(r@ =~= dec_ascii(v as nat));
        }
        r
    }
}

/// Right-justifies `digits` to `width` characters with spaces.
fn pad_to_width(digits: Vec<u8>, width: usize) -> (r: Vec<u8>)
    ensures
        r@ == pad_left(digits@, width as nat),
{
    let ghost orig = digits@;
    let mut digits = digits;
    let mut r: Vec<u8> = Vec::new();
    let mut i: usize = digits.len();
    while i < width
        invariant
            digits@ == orig,
            orig.len() <= i,
            i <= width || i == orig.len(),
            r@ =~= Seq::new((i - orig.len()) as nat, |j: int| 32u8),
        decreases width - i,
    {
        r.push(32);
        i += 1;
    }
    r.append(&mut digits);
    proof {
        assert(r@ =~= pad_left(orig, width as nat));
    }
    r
}

/// Decimal text of the two's-complement reading of `v` as a unit of
/// `size` bytes.
fn signed_dec_bytes(v: u64, size: NumberSize) -> (r: Vec<u8>)
    requires
        (v as nat) < pow256(size.spec_byte_count()),
    ensures
        r@ == signed_dec_ascii(v as nat, size.spec_byte_count()),
{
    proof {
        lemma_pow256_values();
    }
    let half: u64 = match size {
        NumberSize::OneByte => 128,
        NumberSize::TwoBytes => 32768,
        NumberSize::FourBytes => 2147483648,
        NumberSize::EightBytes => 9223372036854775808,
    };
    if v < half {
        dec_bytes(v)
    } else {
        let magnitude: u64 = match size {
            NumberSize::OneByte => 256 - v,
            NumberSize::TwoBytes => 65536 - v,
            NumberSize::FourBytes => 4294967296 - v,
            NumberSize::EightBytes => (u64::MAX - v) + 1,
        };
        let mut r: Vec<u8> = Vec::new();
        r.push(45);
        let mut m = dec_bytes(magnitude);
        r.append(&mut m);
        proof {
            assert(r@ =~= signed_dec_ascii(v as nat, size.spec_byte_count()));
        }
        r
    }
}

/// Builds a `String` from bytes that are all ASCII.
///
/// Relies on `String::from_utf8`: a buffer of bytes below 128 is valid
/// UTF-8 and decodes to exactly those characters, one per byte.
#[verifier::external_body]
pub(crate) fn ascii_to_string(bytes: &Vec<u8>) -> (r: String)
    requires
        forall|i: int| 0 <= i < bytes@.len() ==> bytes@[i] < 128,
    ensures
        r@ == chars_of(bytes@),
{
    match String::from_utf8(bytes.clone()) {
        Ok(s) => s,
        Err(_) => String::new(),
    }
}

impl NumberView {
    /// Renders the leading unit of `buffer` in this view, always exactly
    /// [`NumberView::maximum_chars_needed`] characters wide.
    ///
    /// Returns the error sentinel for the disallowed one- and two-byte
    /// float sizes, and `None` for the valid float sizes, which the host
    /// renders from the unit's bits (this engine holds no floating point):
    /// every other view formats to `Some` text.
    pub fn format(&self, buffer: &[u8]) -> (r: Option<String>)
        requires
            buffer@.len() >= self.size.spec_byte_count(),
        ensures
            r is None <==> (self.representation is Float && self.is_valid()),
            r matches Some(s) ==> s@ == chars_of(spec_format(*self, buffer@)),
            r matches Some(s) ==> s@.len() == self.spec_maximum_chars_needed(),
    {
        let n = self.size.byte_count();
        let width = self.maximum_chars_needed();
        match self.representation {
            NumberRepresentation::Float => {
                match self.size {
                    NumberSize::FourBytes => None,
                    NumberSize::EightBytes => None,
                    _ => {
                        let text: Vec<u8> = vec![69, 114, 114, 111, 114];
                        proof {
                            assert(text@ =~= error_text());
                        }
                        Some(ascii_to_string(&text))
                    },
                }
            },
            NumberRepresentation::Hex => {
                let disp = display_bytes(self.endianness, buffer, n);
                let text = hex_unit_bytes(&disp);
                proof {
                    lemma_hex_unit_ascii_len(disp@);
                    lemma_hex_unit_ascii_is_ascii(disp@);
                }
                Some(ascii_to_string(&text))
            },
            NumberRepresentation::UnsignedDecimal => {
                let disp = display_bytes(self.endianness, buffer, n);
                let v = be_value_of(&disp);
                proof {
                    lemma_be_value_bound(disp@);
                    lemma_pow256_values();
                    lemma_pow10_values();
                    lemma_dec_ascii_len(v as nat, width as nat);
                    lemma_dec_ascii_is_ascii(v as nat);
                }
                let text = pad_to_width(dec_bytes(v), width);
                Some(ascii_to_string(&text))
            },
            NumberRepresentation::SignedDecimal => {
                let disp = display_bytes(self.endianness, buffer, n);
                let v = be_value_of(&disp);
                proof {
                    lemma_be_value_bound(disp@);
                    lemma_pow256_values();
                }
                let digits = signed_dec_bytes(v, self.size);
                proof {
                    lemma_pow10_values();
                    lemma_signed_dec_ascii_len(v as nat, self.size);
                    lemma_signed_dec_ascii_is_ascii(v as nat, self.size.spec_byte_count());
                }
                let text = pad_to_width(digits, width);
                Some(ascii_to_string(&text))
            },
        }
    }
}

/// Signed decimal text fits the width table of `maximum_chars_needed`.
proof fn lemma_signed_dec_ascii_len(v: nat, size: NumberSize)
    requires
        v < pow256(size.spec_byte_count()),
    ensures
        1 <= signed_dec_ascii(v, size.spec_byte_count()).len() <= match size {
            NumberSize::OneByte => 4nat,
            NumberSize::TwoBytes => 6nat,
            NumberSize::FourBytes => 11nat,
            NumberSize::EightBytes => 20nat,
        },
{
    lemma_pow256_values();
    lemma_pow10_values();
    let n = size.spec_byte_count();
    if v < pow256(n) / 2 {
        match size {
            NumberSize::OneByte => lemma_dec_ascii_len(v, 3),
            NumberSize::TwoBytes => lemma_dec_ascii_len(v, 5),
            NumberSize::FourBytes => lemma_dec_ascii_len(v, 10),
            NumberSize::EightBytes => lemma_dec_ascii_len(v, 19),
        }
    } else {
        let m = (pow256(n) - v) as nat;
        match size {
            NumberSize::OneByte => lemma_dec_ascii_len(m, 3),
            NumberSize::TwoBytes => lemma_dec_ascii_len(m, 5),
            NumberSize::FourBytes => lemma_dec_ascii_len(m, 10),
            NumberSize::EightBytes => lemma_dec_ascii_len(m, 19),
        }
    }
}

/// Signed decimal text is ASCII: a possible minus sign, then digits.
proof fn lemma_signed_dec_ascii_is_ascii(v: nat, n: nat)
    ensures
        forall|i: int|
            0 <= i < signed_dec_ascii(v, n).len() ==> #[trigger] signed_dec_ascii(v, n)[i] < 128,
{
    if v < pow256(n) / 2 {
        lemma_dec_ascii_is_ascii(v);
    } else {
        lemma_dec_ascii_is_ascii((pow256(n) - v) as nat);
    }
}

// ---------------------------------------------------------------------------
// Single-digit parse and write path. The digit editor changes one hex digit
// of a rendered unit at a time; the mapping from digit position to byte and
// nibble lives here, next to the formatting it must match.
// ---------------------------------------------------------------------------

/// The byte is an ASCII hex digit, either case.
pub open spec fn is_hex_digit(c: u8) -> bool {
    (48 <= c <= 57) || (97 <= c <= 102) || (65 <= c <= 70)
}

/// Nibble value of an ASCII hex digit.
pub open spec fn hex_digit_value(c: u8) -> nat
    recommends
        is_hex_digit(c),
{
    if 48 <= c <= 57 {
        (c - 48) as nat
    } else if 97 <= c <= 102 {
        (c - 87) as nat
    } else {
        (c - 55) as nat
    }
}

/// Parses one hex character, case-insensitively, as a nibble value.
/// Returns `None` exactly on characters that are not hex digits.
pub fn parse_hex_digit(c: u8) -> (r: Option<u8>)
    ensures
        r is Some <==> is_hex_digit(c),
        r matches Some(d) ==> d == hex_digit_value(c) && d < 16,
{
    if 48 <= c && c <= 57 {
        Some(c - 48)
    } else if 97 <= c && c <= 102 {
        Some(c - 87)
    } else if 65 <= c && c <= 70 {
        Some(c - 55)
    } else {
        None
    }
}

/// The byte of the unit that holds hex digit `cursor` of the rendered
/// text. Digit 0 is the most significant nibble, which for a little-endian
/// unit lives in the last stored byte.
pub open spec fn digit_byte_offset(view: NumberView, cursor: nat) -> nat
    recommends
        cursor < 2 * view.size.spec_byte_count(),
{
    match view.endianness {
        Endianness::Big => cursor / 2,
        Endianness::Little => (view.size.spec_byte_count() - 1 - cursor / 2) as nat,
    }
}

/// `b` with its high nibble replaced by `d`.
pub open spec fn set_high_nibble(b: u8, d: nat) -> u8
    recommends
        d < 16,
{
    (d * 16 + b % 16) as u8
}

/// `b` with its low nibble replaced by `d`.
pub open spec fn set_low_nibble(b: u8, d: nat) -> u8
    recommends
        d < 16,
{
    ((b / 16) * 16 + d) as u8
}

/// The unit with hex digit `cursor` of its rendered text set to `d`:
/// even digit positions are high nibbles, odd ones low nibbles.
pub open spec fn spec_write_digit(view: NumberView, bytes: Seq<u8>, cursor: nat, d: nat) -> Seq<
    u8,
>
    recommends
        cursor < 2 * view.size.spec_byte_count(),
        view.size.spec_byte_count() <= bytes.len(),
        d < 16,
{
    let o = digit_byte_offset(view, cursor) as int;
    if cursor % 2 == 0 {
        bytes.update(o, set_high_nibble(bytes[o], d))
    } else {
        bytes.update(o, set_low_nibble(bytes[o], d))
    }
}

/// Reversing a sequence turns an update at `i` into one at `len - 1 - i`.
proof fn lemma_reverse_update(s: Seq<u8>, i: int, b: u8)
    requires
        0 <= i < s.len(),
    ensures
        s.update(i, b).reverse() =~= s.reverse().update(s.len() - 1 - i, b),
{
}

/// Hex digit `j` of a unit's text comes from byte `j / 2` of the unit in
/// display order: its high nibble for even `j`, its low nibble for odd `j`.
pub proof fn lemma_hex_unit_ascii_index(s: Seq<u8>, j: int)
    requires
        0 <= j < 2 * s.len(),
    ensures
        hex_unit_ascii(s)[j] == if j % 2 == 0 {
            hex_digit_ascii((s[j / 2] / 16) as nat)
        } else {
            hex_digit_ascii((s[j / 2] % 16) as nat)
        },
    decreases s.len(),
{
    lemma_hex_unit_ascii_len(s.drop_last());
    if j < 2 * (s.len() - 1) {
        lemma_hex_unit_ascii_index(s.drop_last(), j);
        assert(hex_unit_ascii(s)[j] == hex_unit_ascii(s.drop_last())[j]);
        assert(s.drop_last()[j / 2] == s[j / 2]);
    } else {
        assert(hex_unit_ascii(s)[j] == hex_byte_ascii(s.last())[j - 2 * (s.len() - 1)]);
        assert(j / 2 == s.len() - 1);
    }
}

/// Updating one byte of a unit changes exactly the two hex digits that
/// render that byte.
proof fn lemma_hex_unit_ascii_update(s: Seq<u8>, i: int, b: u8)
    requires
        0 <= i < s.len(),
    ensures
        hex_unit_ascii(s.update(i, b)) =~= hex_unit_ascii(s).update(
            2 * i,
            hex_digit_ascii((b / 16) as nat),
        ).update(2 * i + 1, hex_digit_ascii((b % 16) as nat)),
{
    let u = s.update(i, b);
    lemma_hex_unit_ascii_len(s);
    lemma_hex_unit_ascii_len(u);
    assert forall|j: int| 0 <= j < 2 * s.len() implies hex_unit_ascii(u)[j] == hex_unit_ascii(
        s,
    ).update(2 * i, hex_digit_ascii((b / 16) as nat)).update(
        2 * i + 1,
        hex_digit_ascii((b % 16) as nat),
    )[j] by {
        lemma_hex_unit_ascii_index(s, j);
        lemma_hex_unit_ascii_index(u, j);
        if j / 2 == i {
            assert(u[j / 2] == b);
            assert(j == 2 * i || j == 2 * i + 1);
        } else {
            assert(u[j / 2] == s[j / 2]);
            assert(j != 2 * i && j != 2 * i + 1);
        }
    }
}

/// Writes hex digit `cursor` of the rendered unit: replaces one nibble of
/// one byte of `data`, so that the text formatted from the new bytes is
/// the old text with exactly character `cursor` replaced by `digit`.
pub fn write_digit(view: &NumberView, data: &mut Vec<u8>, cursor: usize, digit: u8)
    requires
        view.representation is Hex,
        old(data)@.len() >= view.size.spec_byte_count(),
        cursor < 2 * view.size.spec_byte_count(),
        digit < 16,
    ensures
        final(data)@ == spec_write_digit(*view, old(data)@, cursor as nat, digit as nat),
        final(data)@.len() == old(data)@.len(),
        spec_format(*view, final(data)@) == spec_format(*view, old(data)@).update(
            cursor as int,
            hex_digit_ascii(digit as nat),
        ),
{
    let n = view.size.byte_count();
    let offset = match view.endianness {
        Endianness::Big => cursor / 2,
        Endianness::Little => n - 1 - cursor / 2,
    };
    let b = data[offset];
    let nb: u8 = if cursor % 2 == 0 {
        digit * 16 + b % 16
    } else {
        (b / 16) * 16 + digit
    };
    data.set(offset, nb);
    proof {
        let nn = n as int;
        let o = offset as int;
        let dj = cursor as int / 2;
        let old_bytes = old(data)@;
        let new_bytes = data@;
        let old_unit = old_bytes.take(nn);
        let new_unit = new_bytes.take(nn);
        assert(new_unit =~= old_unit.update(o, nb));
        let disp_old = display_order(view.endianness, old_unit);
        let disp_new = display_order(view.endianness, new_unit);
        if view.endianness is Little {
            lemma_reverse_update(old_unit, o, nb);
        }
        assert(disp_new =~= disp_old.update(dj, nb));
        lemma_hex_unit_ascii_update(disp_old, dj, nb);
        lemma_hex_unit_ascii_len(disp_old);
        lemma_hex_unit_ascii_index(disp_old, cursor as int);
        if cursor % 2 == 0 {
            assert(nb / 16 == digit && nb % 16 == b % 16) by (nonlinear_arith)
                requires
                    digit < 16,
                    nb == digit * 16 + b % 16,
            ;
            lemma_hex_unit_ascii_index(disp_old, cursor as int + 1);
            assert(disp_old[dj] == b);
            assert(spec_format(*view, new_bytes) =~= spec_format(*view, old_bytes).update(
                cursor as int,
                hex_digit_ascii(digit as nat),
            ));
        } else {
            assert(nb % 16 == digit && nb / 16 == b / 16) by (nonlinear_arith)
                requires
                    digit < 16,
                    nb == (b / 16) * 16 + digit,
            ;
            lemma_hex_unit_ascii_index(disp_old, cursor as int - 1);
            assert(disp_old[dj] == b);
            assert(spec_format(*view, new_bytes) =~= spec_format(*view, old_bytes).update(
                cursor as int,
                hex_digit_ascii(digit as nat),
            ));
        }
    }
}

/// Law: each character of a unit's rendered hex text parses to the nibble
/// the unit already stores there, so writing it back through
/// `spec_write_digit` leaves the unit unchanged. Composed over every digit
/// position of a full unit, parsing `format`'s output and writing the
/// digits back reconstructs the original bytes.
pub proof fn lemma_format_write_digit_round_trip(view: NumberView, bytes: Seq<u8>, cursor: nat)
    requires
        view.representation is Hex,
        bytes.len() >= view.size.spec_byte_count(),
        cursor < 2 * view.size.spec_byte_count(),
    ensures
        is_hex_digit(spec_format(view, bytes)[cursor as int]),
        spec_write_digit(
            view,
            bytes,
            cursor,
            hex_digit_value(spec_format(view, bytes)[cursor as int]),
        ) =~= bytes,
{
    let n = view.size.spec_byte_count() as int;
    let unit = bytes.take(n);
    let disp = display_order(view.endianness, unit);
    let dj = cursor as int / 2;
    let o = digit_byte_offset(view, cursor) as int;
    lemma_hex_unit_ascii_index(disp, cursor as int);
    assert(disp[dj] == bytes[o]);
    let b = bytes[o];
    vstd::arithmetic::div_mod::lemma_fundamental_div_mod(b as int, 16);
    if cursor % 2 == 0 {
        assert(set_high_nibble(b, (b / 16) as nat) == b);
    } else {
        assert(set_low_nibble(b, (b % 16) as nat) == b);
    }
}

// ---------------------------------------------------------------------------
// Address text: hex with a minimum width, as the address box shows it.
// ---------------------------------------------------------------------------

/// Hex text of `v` rendered with exactly `w` digits (leading zeros kept).
pub open spec fn hex_ascii_width(v: nat, w: nat) -> Seq<u8>
    decreases w,
{
    if w == 0 {
        Seq::empty()
    } else {
        hex_ascii_width(v / 16, (w - 1) as nat) + seq![hex_digit_ascii(v % 16)]
    }
}

/// Number of hex digits needed to write `v` without leading zeros.
pub open spec fn hex_len(v: nat) -> nat
    decreases v,
{
    if v < 16 {
        1
    } else {
        1 + hex_len(v / 16)
    }
}

/// Hex text of `v`, zero-padded on the left to at least `min` digits.
pub open spec fn addr_hex_ascii(v: nat, min: nat) -> Seq<u8> {
    hex_ascii_width(
        v,
        if hex_len(v) >= min {
            hex_len(v)
        } else {
            min
        },
    )
}

/// Hex digits of `v` with exactly `w` digits.
fn hex_width_bytes(v: u64, w: usize) -> (r: Vec<u8>)
    ensures
        r@ == hex_ascii_width(v as nat, w as nat),
        r@.len() == w,
    decreases w,
{
    proof {
        lemma_hex_ascii_width_len(v as nat, w as nat);
    }
    if w == 0 {
        Vec::new()
    } else {
        let mut r = hex_width_bytes(v / 16, w - 1);
        r.push(hex_digit_char((v % 16) as u8));
        proof {
            assert(r@ =~= hex_ascii_width(v as nat, w as nat));
        }
        r
    }
}

proof fn lemma_hex_ascii_width_len(v: nat, w: nat)
    ensures
        hex_ascii_width(v, w).len() == w,
    decreases w,
{
    if w > 0 {
        lemma_hex_ascii_width_len(v / 16, (w - 1) as nat);
    }
}

/// Fixed-width hex text is made of ASCII digit and letter bytes.
pub proof fn lemma_hex_ascii_width_is_ascii(v: nat, w: nat)
    ensures
        forall|i: int|
            0 <= i < hex_ascii_width(v, w).len() ==> #[trigger] hex_ascii_width(v, w)[i] < 128,
    decreases w,
{
    if w > 0 {
        lemma_hex_ascii_width_is_ascii(v / 16, (w - 1) as nat);
        let rest = hex_ascii_width(v / 16, (w - 1) as nat);
        assert forall|i: int| 0 <= i < hex_ascii_width(v, w).len() implies #[trigger] hex_ascii_width(
            v,
            w,
        )[i] < 128 by {
            if i < rest.len() {
                assert(hex_ascii_width(v, w)[i] == rest[i]);
            } else {
                assert(hex_ascii_width(v, w)[i] == hex_digit_ascii(v % 16));
            }
        }
    }
}

/// Number of hex digits of `v` without leading zeros.
fn hex_len_of(v: u64) -> (r: usize)
    ensures
        r == hex_len(v as nat),
        1 <= r <= 16,
    decreases v,
{
    proof {
        lemma_hex_len_bound(v as nat);
    }
    if v < 16 {
        1
    } else {
        1 + hex_len_of(v / 16)
    }
}

/// 16 to the `n`th power.
pub open spec fn pow16(n: nat) -> nat
    decreases n,
{
    if n == 0 {
        1
    } else {
        16 * pow16((n - 1) as nat)
    }
}

/// A value below 16^k has at most `k` hex digits (and at least one).
proof fn lemma_hex_len_le(v: nat, k: nat)
    requires
        v < pow16(k),
        1 <= k,
    ensures
        1 <= hex_len(v) <= k,
    decreases k,
{
    if v >= 16 {
        assert(pow16(k) == 16 * pow16((k - 1) as nat));
        assert(v / 16 < pow16((k - 1) as nat)) by (nonlinear_arith)
            requires
                v < 16 * pow16((k - 1) as nat),
        ;
        if k == 1 {
            assert(pow16(1) == 16) by {
                reveal_with_fuel(pow16, 2);
            }
        }
        lemma_hex_len_le(v / 16, (k - 1) as nat);
    }
}

/// A 64-bit value never needs more than 16 hex digits.
proof fn lemma_hex_len_bound(v: nat)
    requires
        v < 0x1_0000_0000_0000_0000,
    ensures
        1 <= hex_len(v) <= 16,
{
    assert(pow16(16) == 0x1_0000_0000_0000_0000) by {
        reveal_with_fuel(pow16, 17);
    }
    lemma_hex_len_le(v, 16);
}

/// Hex text of an address, zero-padded on the left to at least
/// `min_width` digits.
pub fn format_hex_addr(v: u64, min_width: usize) -> (r: Vec<u8>)
    requires
        min_width <= 1000,
    ensures
        r@ == addr_hex_ascii(v as nat, min_width as nat),
        forall|i: int| 0 <= i < r@.len() ==> r@[i] < 128,
{
    let len = hex_len_of(v);
    let w = if len >= min_width {
        len
    } else {
        min_width
    };
    proof {
        lemma_hex_ascii_width_is_ascii(v as nat, w as nat);
    }
    hex_width_bytes(v, w)
}

impl NumberView {
    /// The integer value of the leading unit of `buffer` under this
    /// view's endianness: for the float views these are the bits the
    /// host reinterprets and renders.
    pub fn unit_bits(&self, buffer: &[u8]) -> (r: u64)
        requires
            buffer@.len() >= self.size.spec_byte_count(),
        ensures
            r as nat == unit_value(
                self.endianness,
                buffer@.take(self.size.spec_byte_count() as int),
            ),
    {
        let n = self.size.byte_count();
        let disp = display_bytes(self.endianness, buffer, n);
        be_value_of(&disp)
    }
}

/// The unit after digits `0 .. k` of `text` have been parsed and written
/// back through the single-digit write path, in order.
pub open spec fn spec_write_text_back(
    view: NumberView,
    bytes: Seq<u8>,
    text: Seq<u8>,
    k: nat,
) -> Seq<u8>
    decreases k,
{
    if k == 0 {
        bytes
    } else {
        spec_write_digit(
            view,
            spec_write_text_back(view, bytes, text, (k - 1) as nat),
            (k - 1) as nat,
            hex_digit_value(text[k - 1]),
        )
    }
}

proof fn lemma_format_write_back_prefix(view: NumberView, bytes: Seq<u8>, k: nat)
    requires
        view.representation is Hex,
        bytes.len() >= view.size.spec_byte_count(),
        k <= 2 * view.size.spec_byte_count(),
    ensures
        spec_write_text_back(view, bytes, spec_format(view, bytes), k) == bytes,
    decreases k,
{
    if k > 0 {
        lemma_format_write_back_prefix(view, bytes, (k - 1) as nat);
        lemma_format_write_digit_round_trip(view, bytes, (k - 1) as nat);
    }
}

/// Law: formatting a unit as hex and writing every character of that text
/// back through the parse-and-write path, digit by digit over the full
/// unit, reconstructs the original bytes exactly.
pub proof fn lemma_format_parse_round_trip(view: NumberView, bytes: Seq<u8>)
    requires
        view.representation is Hex,
        bytes.len() >= view.size.spec_byte_count(),
    ensures
        spec_write_text_back(
            view,
            bytes,
            spec_format(view, bytes),
            2 * view.size.spec_byte_count(),
        ) == bytes,
{
    lemma_format_write_back_prefix(view, bytes, 2 * view.size.spec_byte_count());
}

} // verus!
