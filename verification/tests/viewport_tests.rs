//! Tests of the viewport controller: view configuration, the cursor
//! enum, row alignment, column fitting, scroll-follow, and the request
//! policy.

use memory_view::number_view::{Endianness, NumberRepresentation, NumberSize, NumberView};
use memory_view::viewport::{
    AsciiEditor, Chunks, Editor, HexEditor, MemoryView, CHARS_PER_ADDRESS, START_ADDRESS,
};

fn hex_view(size: NumberSize) -> NumberView {
    NumberView {
        representation: NumberRepresentation::Hex,
        size,
        endianness: Endianness::Little,
    }
}

#[test]
fn change_representation_keeps_the_view_valid() {
    // Switching to Float while the size is not a float size forces the
    // float default of four bytes.
    let mut v = hex_view(NumberSize::TwoBytes);
    v.change_representation(NumberRepresentation::Float);
    assert_eq!(v.representation, NumberRepresentation::Float);
    assert_eq!(v.size, NumberSize::FourBytes);
    assert!(v.representation.can_be_of_size(v.size));
    // A size legal for the new representation survives the switch:
    // eight bytes is a float size, so it is kept.
    let mut w = hex_view(NumberSize::EightBytes);
    w.change_representation(NumberRepresentation::Float);
    assert_eq!(w.size, NumberSize::EightBytes);
    assert!(w.representation.can_be_of_size(w.size));
    let mut s = hex_view(NumberSize::EightBytes);
    s.change_representation(NumberRepresentation::SignedDecimal);
    assert_eq!(s.size, NumberSize::EightBytes);
}

#[test]
fn available_sizes_follow_the_representation() {
    assert_eq!(
        NumberRepresentation::Float.get_avaialable_sizes(),
        vec![NumberSize::FourBytes, NumberSize::EightBytes]
    );
    assert_eq!(
        NumberRepresentation::Hex.get_avaialable_sizes(),
        vec![
            NumberSize::OneByte,
            NumberSize::TwoBytes,
            NumberSize::FourBytes,
            NumberSize::EightBytes,
        ]
    );
    assert_eq!(
        NumberRepresentation::Float.get_default_size(),
        NumberSize::FourBytes
    );
    assert_eq!(
        NumberRepresentation::UnsignedDecimal.get_default_size(),
        NumberSize::OneByte
    );
    assert!(!NumberRepresentation::Float.can_be_of_size(NumberSize::TwoBytes));
    assert!(NumberRepresentation::SignedDecimal.can_be_of_size(NumberSize::TwoBytes));
}

#[test]
fn view_names_for_the_pickers() {
    assert_eq!(NumberRepresentation::Hex.as_str(), "Hex");
    assert_eq!(
        NumberRepresentation::UnsignedDecimal.as_str(),
        "Unsigned decimal"
    );
    assert_eq!(
        NumberRepresentation::SignedDecimal.as_str(),
        "Signed decimal"
    );
    assert_eq!(NumberRepresentation::Float.as_str(), "Float");
    assert_eq!(NumberSize::OneByte.as_str(), "1 byte");
    assert_eq!(NumberSize::EightBytes.as_str(), "8 bytes");
    assert_eq!(Endianness::Little.as_str(), "Little-endian");
    assert_eq!(Endianness::Big.as_str(), "Big-endian");
    assert_eq!(Endianness::default(), Endianness::Little);
    let d = NumberView::default();
    assert_eq!(d.representation, NumberRepresentation::Hex);
    assert_eq!(d.size, NumberSize::OneByte);
}

#[test]
fn maximum_chars_needed_table() {
    let cases = [
        (NumberRepresentation::Hex, NumberSize::OneByte, 2),
        (NumberRepresentation::Hex, NumberSize::EightBytes, 16),
        (NumberRepresentation::UnsignedDecimal, NumberSize::OneByte, 3),
        (
            NumberRepresentation::UnsignedDecimal,
            NumberSize::EightBytes,
            20,
        ),
        (NumberRepresentation::SignedDecimal, NumberSize::OneByte, 4),
        (NumberRepresentation::SignedDecimal, NumberSize::FourBytes, 11),
        (NumberRepresentation::Float, NumberSize::FourBytes, 14),
        (NumberRepresentation::Float, NumberSize::EightBytes, 23),
        (NumberRepresentation::Float, NumberSize::OneByte, 5),
    ];
    for &(representation, size, expected) in &cases {
        let v = NumberView {
            representation,
            size,
            endianness: Endianness::Little,
        };
        assert_eq!(v.maximum_chars_needed(), expected);
    }
}

#[test]
fn editor_tracks_and_moves_the_cursor() {
    let mut e = Editor::Inactive;
    assert_eq!(e.get_address(), None);
    e.decrease_address(10);
    assert_eq!(e.get_address(), None);

    let mut h = Editor::Hex(HexEditor::new(0x100, 3, hex_view(NumberSize::OneByte)));
    assert_eq!(h.get_address(), Some(0x100));
    h.increase_address(0x10);
    assert_eq!(h.get_address(), Some(0x110));
    h.decrease_address(0x200);
    assert_eq!(h.get_address(), Some(0));
    h.increase_address(u64::MAX);
    h.increase_address(5);
    assert_eq!(h.get_address(), Some(u64::MAX));

    // An external address jump re-bases a numeric cursor at digit 0.
    let mut j = Editor::Hex(HexEditor::new(0x100, 3, hex_view(NumberSize::OneByte)));
    j.set_address(0x400);
    match j.hex() {
        Some(inner) => {
            assert_eq!(inner.address, 0x400);
            assert_eq!(inner.cursor, 0);
        }
        None => panic!("a hex cursor must stay a hex cursor"),
    }
    assert!(j.text().is_none());

    let mut t = Editor::Text(AsciiEditor::new(0x50));
    t.set_address(0x60);
    assert_eq!(t.get_address(), Some(0x60));
    assert!(t.hex().is_none());
}

#[test]
fn chunks_walks_aligned_data_row_by_row() {
    // Twelve bytes loaded exactly at the viewport start, four to a row.
    let mut rows = Chunks::new(0x1000, 0x1000, 4, 12);
    assert_eq!(rows.next(), (0, 4));
    assert_eq!(rows.next(), (4, 4));
    assert_eq!(rows.next(), (8, 4));
    assert_eq!(rows.next(), (0, 0));
}

#[test]
fn chunks_pads_rows_before_the_data_and_after_it() {
    // Data starts two rows below the viewport start.
    let mut rows = Chunks::new(0x1000, 0x1008, 4, 6);
    assert_eq!(rows.next(), (0, 0));
    assert_eq!(rows.next(), (0, 0));
    assert_eq!(rows.next(), (0, 4));
    // The final row is short where the data runs out.
    assert_eq!(rows.next(), (4, 2));
    assert_eq!(rows.next(), (0, 0));
}

#[test]
fn chunks_skips_bytes_before_the_row_grid() {
    // Data begins mid-row: the lead-in bytes up to the next row boundary
    // are skipped so rows never straddle the grid.
    let mut rows = Chunks::new(0x1000, 0x0fff, 4, 9);
    assert_eq!(rows.next(), (1, 4));
    assert_eq!(rows.next(), (5, 4));
    assert_eq!(rows.next(), (0, 0));
}

#[test]
fn chunks_with_data_above_the_grid_start() {
    let mut rows = Chunks::new(0x1000, 0x1002, 4, 8);
    // 0x1002 aligns up to 0x1004: the two lead-in bytes are skipped.
    assert_eq!(rows.next(), (0, 0));
    assert_eq!(rows.next(), (2, 4));
    assert_eq!(rows.next(), (6, 2));
}

#[test]
fn columns_never_drop_to_zero() {
    let mut view = MemoryView::new();
    assert!(view.get_columns_from_width(0) >= 1);
    assert!(view.get_columns_from_width(1) >= 1);
    assert!(view.get_columns_from_width(CHARS_PER_ADDRESS) >= 1);
    view.text_shown = false;
    view.number_view = None;
    assert_eq!(view.get_columns_from_width(500), 1);
}

#[test]
fn columns_fit_the_window_width() {
    let mut view = MemoryView::new();
    // One-byte hex with the text pane: 3 chars of numeric column plus
    // one text char per byte, two pane gaps of 2, and a 10-char gutter.
    assert!(view.text_shown);
    // 80 chars: (80 - 14) / 4 = 16 columns.
    assert_eq!(view.get_columns_from_width(80), 16);
    view.text_shown = false;
    // 80 chars: (80 - 12) / 3 = 22 columns.
    assert_eq!(view.get_columns_from_width(80), 22);
}

#[test]
fn screen_lines_hold_one_row_back() {
    assert_eq!(MemoryView::get_screen_lines_count(0, 25), 24);
    assert_eq!(MemoryView::get_screen_lines_count(3, 25), 21);
    assert_eq!(MemoryView::get_screen_lines_count(5, 5), 0);
    assert_eq!(MemoryView::get_screen_lines_count(0, 0), 0);
}

#[test]
fn memory_intersection_finds_the_overlap() {
    assert_eq!(
        MemoryView::get_memory_intersection(0x100, 0x10, 0x108, 0x10),
        Some((0x108, 0x8))
    );
    assert_eq!(
        MemoryView::get_memory_intersection(0x108, 0x10, 0x100, 0x10),
        Some((0x108, 0x8))
    );
    assert_eq!(
        MemoryView::get_memory_intersection(0x100, 0x8, 0x108, 0x8),
        None
    );
    assert_eq!(
        MemoryView::get_memory_intersection(0x100, 0, 0x100, 0x10),
        None
    );
}

#[test]
fn a_step_swaps_the_snapshots_and_forces_a_read() {
    let mut view = MemoryView::new();
    view.update_memory(0x100, vec![1, 2, 3]);
    assert_eq!(view.data.get(0x100), Some(1));
    view.process_step();
    assert!(view.should_update_memory);
    assert_eq!(view.prev_data.get(0x100), Some(1));
}

#[test]
fn update_memory_rebases_both_chunks() {
    let mut view = MemoryView::new();
    view.update_memory(0x100, vec![1, 2]);
    // The user edits a byte of the current chunk, then the window widens.
    view.process_step();
    view.update_memory(0x100, vec![1, 2, 3, 4]);
    assert_eq!(view.data.len(), 4);
    assert_eq!(view.prev_data.len(), 4);
    // The snapshot kept its own bytes on the overlap and filled the tail.
    assert_eq!(view.prev_data.get(0x102), Some(3));
    assert_eq!(view.memory_request, None);
}

#[test]
fn follow_cursor_scrolls_up_by_one_whole_row() {
    // Viewport [0x1000, 0x1000 + rows * line); the cursor sits one line
    // above it. Following must move the start up by exactly one stride
    // and leave the cursor strictly inside the new viewport.
    let line: u64 = 16;
    let rows: u64 = 24;
    let mut view = MemoryView::new();
    view.start_address.set(0x1000);
    view.memory_editor = Editor::Text(AsciiEditor::new(0x1000 - line));
    view.move_memory_to_cursor(line, rows);
    let new_start = view.start_address.get();
    assert_eq!(new_start, 0x1000 - line);
    let cursor = 0x1000 - line;
    assert!(new_start <= cursor);
    assert!(cursor < new_start + rows * line);
}

#[test]
fn follow_cursor_scrolls_down_past_the_last_row() {
    let line: u64 = 16;
    let rows: u64 = 4;
    let mut view = MemoryView::new();
    view.start_address.set(0x1000);
    // One byte past the last visible address triggers a one-row move.
    view.memory_editor = Editor::Text(AsciiEditor::new(0x1000 + rows * line));
    view.move_memory_to_cursor(line, rows);
    assert_eq!(view.start_address.get(), 0x1000 + line);
    // Far below: the viewport jumps by whole rows to reach the cursor.
    let mut far = MemoryView::new();
    far.start_address.set(0x1000);
    far.memory_editor = Editor::Text(AsciiEditor::new(0x2005));
    far.move_memory_to_cursor(line, rows);
    let s = far.start_address.get();
    assert_eq!((s - 0x1000) % line, 0);
    assert!(s <= 0x2005 && 0x2005 < s + rows * line);
}

#[test]
fn follow_cursor_leaves_a_visible_cursor_alone() {
    let mut view = MemoryView::new();
    view.start_address.set(0x1000);
    view.memory_editor = Editor::Text(AsciiEditor::new(0x1010));
    view.move_memory_to_cursor(16, 4);
    assert_eq!(view.start_address.get(), 0x1000);
    view.memory_editor = Editor::Inactive;
    view.move_memory_to_cursor(16, 4);
    assert_eq!(view.start_address.get(), 0x1000);
}

#[test]
fn requests_are_issued_once_and_remembered() {
    let mut view = MemoryView::new();
    assert_eq!(view.start_address.get(), START_ADDRESS);
    view.bytes_needed = 64;
    // Nothing is loaded, so the screen cannot be filled: a request goes
    // out for exactly the viewport.
    let r = view.process_memory_request();
    assert_eq!(r, Some((START_ADDRESS, 64)));
    assert_eq!(view.memory_request, Some((START_ADDRESS, 64)));
    assert!(!view.should_update_memory);
    // The identical need is already in flight: nothing new is sent.
    assert_eq!(view.process_memory_request(), None);
    // Once the response lands and covers the screen, no request goes out.
    view.update_memory(START_ADDRESS, vec![0; 64]);
    assert_eq!(view.process_memory_request(), None);
    // A step forces a fresh read of the same window.
    view.process_step();
    assert_eq!(view.process_memory_request(), Some((START_ADDRESS, 64)));
}
