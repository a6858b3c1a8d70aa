//! Tests of the edit-state machines: the address box, the text-pane
//! character editor, and the numeric-pane digit cursor.

use memory_view::address_editor::{parse_address, AddressEditor};
use memory_view::char_editor::{
    clamp_cursor, display_byte, position_after_input, position_after_left, CharEditor,
    NextPosition,
};
use memory_view::digit_memory_editor::DigitMemoryEditor;
use memory_view::number_view::{Endianness, NumberRepresentation, NumberSize, NumberView};

fn hex_view(size: NumberSize) -> NumberView {
    NumberView {
        representation: NumberRepresentation::Hex,
        size,
        endianness: Endianness::Little,
    }
}

#[test]
fn parse_address_accepts_hex_of_either_case() {
    assert_eq!(parse_address(b"f0000"), Some(0xf0000));
    assert_eq!(parse_address(b"F0000"), Some(0xf0000));
    assert_eq!(parse_address(b"00ff"), Some(0xff));
    assert_eq!(parse_address(b"0"), Some(0));
    assert_eq!(parse_address(b"ffffffffffffffff"), Some(u64::MAX));
}

#[test]
fn parse_address_rejects_bad_text() {
    assert_eq!(parse_address(b""), None);
    assert_eq!(parse_address(b"12g4"), None);
    assert_eq!(parse_address(b"0x12"), None);
    assert_eq!(parse_address(b" 12"), None);
    // One digit past what 64 bits can hold.
    assert_eq!(parse_address(b"10000000000000000"), None);
    // Leading zeros are fine even past sixteen characters.
    assert_eq!(parse_address(b"000000000000000001"), Some(1));
}

#[test]
fn address_editor_renders_and_commits() {
    let mut e = AddressEditor::new(0xf0000);
    assert_eq!(e.get(), 0xf0000);
    assert_eq!(e.text().as_slice(), b"000f0000");
    e.set(0x12);
    assert_eq!(e.get(), 0x12);
    assert_eq!(e.text().as_slice(), b"00000012");
}

#[test]
fn address_editor_keeps_the_old_value_on_a_bad_parse() {
    let mut e = AddressEditor::new(0x100);
    assert!(!e.apply_input(b"zz"));
    assert_eq!(e.get(), 0x100);
    assert!(!e.apply_input(b""));
    assert_eq!(e.get(), 0x100);
    assert!(e.apply_input(b"2a0"));
    assert_eq!(e.get(), 0x2a0);
    // Re-entering the same value reports no change.
    assert!(!e.apply_input(b"2A0"));
    assert_eq!(e.get(), 0x2a0);
}

#[test]
fn char_editor_flags_fire_once() {
    let mut e = CharEditor::new();
    assert!(e.take_focus());
    assert!(!e.take_focus());
    assert!(e.take_set_pos_to_start());
    assert!(!e.take_set_pos_to_start());
}

#[test]
fn character_cursor_decisions() {
    assert_eq!(clamp_cursor(0, 4), 0);
    assert_eq!(clamp_cursor(3, 4), 3);
    assert_eq!(clamp_cursor(4, 4), 3);
    assert_eq!(clamp_cursor(100, 4), 3);
    assert_eq!(position_after_input(0, 4), NextPosition::Changed(1));
    assert_eq!(position_after_input(3, 4), NextPosition::Right);
    assert_eq!(position_after_input(0, 1), NextPosition::Right);
    assert_eq!(position_after_left(0), NextPosition::Left);
    assert_eq!(position_after_left(2), NextPosition::Changed(1));
}

#[test]
fn text_pane_shows_printable_ascii_and_dots() {
    assert_eq!(display_byte(b'A'), b'A');
    assert_eq!(display_byte(b' '), b' ');
    assert_eq!(display_byte(127), 127);
    assert_eq!(display_byte(31), b'.');
    assert_eq!(display_byte(128), b'.');
    assert_eq!(display_byte(0), b'.');
}

#[test]
fn digit_cursor_advances_within_and_across_units() {
    // A one-byte hex unit has two digits: digit 0, then digit 1, then
    // digit 0 of the next address.
    let mut e = DigitMemoryEditor::new(hex_view(NumberSize::OneByte));
    e.set_position(0x1000, 0);
    let mut data = vec![0u8];
    e.enter_digit(&mut data, 0xa);
    assert_eq!(e.position(), Some((0x1000, 1)));
    assert_eq!(data, vec![0xa0]);
    e.enter_digit(&mut data, 0xb);
    assert_eq!(e.position(), Some((0x1001, 0)));
    assert_eq!(data, vec![0xab]);
}

#[test]
fn digit_cursor_steps_backward_across_units() {
    let mut e = DigitMemoryEditor::new(hex_view(NumberSize::TwoBytes));
    e.set_position(0x1000, 0);
    // Backward from digit 0 lands on the last digit of the unit before.
    assert_eq!(e.previous_position(), Some((0x0ffe, 3)));
    e.set_position(0x1000, 2);
    assert_eq!(e.previous_position(), Some((0x1000, 1)));
    // There is no unit before address 0.
    e.set_position(0x0001, 0);
    assert_eq!(e.previous_position(), None);
}

#[test]
fn digit_cursor_next_position_stops_at_the_address_space_end() {
    let mut e = DigitMemoryEditor::new(hex_view(NumberSize::OneByte));
    e.set_position(u64::MAX, 1);
    assert_eq!(e.next_position(), None);
    e.set_position(u64::MAX - 1, 1);
    assert_eq!(e.next_position(), Some((u64::MAX, 0)));
}

#[test]
fn changing_the_view_drops_the_digit_cursor() {
    let mut e = DigitMemoryEditor::new(hex_view(NumberSize::OneByte));
    e.set_position(0x1000, 1);
    assert!(e.is_at_address(0x1000));
    assert!(!e.is_at_address(0x1001));
    e.set_number_view(hex_view(NumberSize::FourBytes));
    assert_eq!(e.position(), None);
    assert!(!e.is_at_address(0x1000));
}

#[test]
fn digit_editor_focus_flags_fire_once() {
    let mut e = DigitMemoryEditor::new(hex_view(NumberSize::OneByte));
    assert!(!e.take_focus());
    e.focus();
    assert!(e.take_focus());
    assert!(!e.take_focus());
    assert!(e.take_set_pos_to_start());
    assert!(!e.take_set_pos_to_start());
}
