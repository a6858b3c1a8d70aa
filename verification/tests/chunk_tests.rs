//! Tests of the memory chunk: windowed transformation, best-effort
//! merging of read responses, and diff highlighting.

use memory_view::memory_chunk::MemoryChunk;

fn chunk(start: u64, bytes: &[u8]) -> MemoryChunk {
    let mut c = MemoryChunk::new();
    c.set_accessible(start, bytes.to_vec());
    c
}

#[test]
fn get_respects_the_loaded_window() {
    let c = chunk(0x100, &[1, 2, 3, 4]);
    assert_eq!(c.start_address(), 0x100);
    assert_eq!(c.len(), 4);
    assert_eq!(c.get(0xff), None);
    assert_eq!(c.get(0x100), Some(1));
    assert_eq!(c.get(0x103), Some(4));
    assert_eq!(c.get(0x104), None);
}

#[test]
fn transform_keeps_the_overlap_and_drops_the_rest() {
    // The scenario from the window-move contract: [1,2,3,4] at 0x100,
    // re-windowed to [0x102, 0x106).
    let mut c = chunk(0x100, &[1, 2, 3, 4]);
    c.transform(0x102, 4);
    assert_eq!(c.get(0x102), Some(3));
    assert_eq!(c.get(0x103), Some(4));
    // The rest of the new window is not loaded yet.
    assert_eq!(c.get(0x104), None);
    assert_eq!(c.get(0x105), None);
    // Nothing outside the new window survives.
    assert_eq!(c.get(0x100), None);
    assert_eq!(c.get(0x101), None);
}

#[test]
fn transform_to_an_earlier_window_keeps_the_overlap() {
    let mut c = chunk(0x100, &[1, 2, 3, 4]);
    c.transform(0xfe, 4);
    assert_eq!(c.get(0xfe), None);
    assert_eq!(c.get(0xff), None);
    assert_eq!(c.get(0x100), Some(1));
    assert_eq!(c.get(0x101), Some(2));
    assert_eq!(c.get(0x102), None);
}

#[test]
fn transform_to_a_disjoint_window_loads_nothing() {
    let mut c = chunk(0x100, &[1, 2, 3, 4]);
    c.transform(0x200, 8);
    assert_eq!(c.len(), 0);
    for a in 0x200..0x208 {
        assert_eq!(c.get(a), None);
    }
}

#[test]
fn extend_accessible_appends_without_overwriting() {
    // The previous snapshot holds a user's edit; a wider read response
    // for the same window must not erase it, only fill in the new tail.
    let mut prev = chunk(0x100, &[9, 9]);
    prev.extend_accessible(0x100, &vec![1, 2, 3, 4]);
    assert_eq!(prev.start_address(), 0x100);
    assert_eq!(prev.len(), 4);
    assert_eq!(prev.get(0x100), Some(9));
    assert_eq!(prev.get(0x101), Some(9));
    assert_eq!(prev.get(0x102), Some(3));
    assert_eq!(prev.get(0x103), Some(4));
}

#[test]
fn extend_accessible_truncates_to_a_narrower_window() {
    let mut prev = chunk(0x100, &[5, 6, 7, 8]);
    prev.extend_accessible(0x100, &vec![1, 2]);
    assert_eq!(prev.len(), 2);
    assert_eq!(prev.get(0x100), Some(5));
    assert_eq!(prev.get(0x101), Some(6));
    assert_eq!(prev.get(0x102), None);
}

#[test]
fn extend_accessible_keeps_only_the_overlap_of_a_shifted_window() {
    let mut prev = chunk(0x100, &[5, 6, 7, 8]);
    prev.extend_accessible(0x102, &vec![1, 2, 3, 4]);
    assert_eq!(prev.start_address(), 0x102);
    assert_eq!(prev.len(), 4);
    // Where the old window overlapped, its bytes survive.
    assert_eq!(prev.get(0x102), Some(7));
    assert_eq!(prev.get(0x103), Some(8));
    // Beyond the overlap the incoming bytes stand.
    assert_eq!(prev.get(0x104), Some(3));
    assert_eq!(prev.get(0x105), Some(4));
}

#[test]
fn extend_accessible_replaces_a_disjoint_window() {
    let mut prev = chunk(0x100, &[5, 6]);
    prev.extend_accessible(0x300, &vec![1, 2]);
    assert_eq!(prev.start_address(), 0x300);
    assert_eq!(prev.get(0x300), Some(1));
    assert_eq!(prev.get(0x301), Some(2));
    assert_eq!(prev.get(0x100), None);
}

#[test]
fn no_highlight_without_previous_data() {
    // A current chunk covering [0x200, 0x210) against an empty previous
    // snapshot: not a single byte may light up.
    let current = chunk(0x200, &[7; 16]);
    let previous = MemoryChunk::new();
    for a in 0x200..0x210 {
        assert!(!current.byte_has_changed(&previous, a));
    }
    assert!(!current.unit_has_changed(&previous, 0x200, 4));
}

#[test]
fn byte_diff_needs_both_sides_and_a_difference() {
    let current = chunk(0x100, &[1, 2, 3]);
    let previous = chunk(0x101, &[9, 3]);
    // 0x100: only current covers it.
    assert!(!current.byte_has_changed(&previous, 0x100));
    // 0x101: both cover it and the bytes differ.
    assert!(current.byte_has_changed(&previous, 0x101));
    // 0x102: both cover it and the bytes agree.
    assert!(!current.byte_has_changed(&previous, 0x102));
    // 0x103: neither side covers it.
    assert!(!current.byte_has_changed(&previous, 0x103));
}

#[test]
fn unit_diff_is_per_unit() {
    let current = chunk(0x100, &[1, 2, 3, 4, 5, 6, 7, 8]);
    let mut previous = chunk(0x100, &[1, 2, 3, 4, 5, 6, 7, 8]);
    assert!(!current.unit_has_changed(&previous, 0x100, 4));
    assert!(!current.unit_has_changed(&previous, 0x104, 4));
    // One differing byte marks its whole unit, and only that unit.
    previous = chunk(0x100, &[1, 2, 9, 4, 5, 6, 7, 8]);
    assert!(current.unit_has_changed(&previous, 0x100, 4));
    assert!(!current.unit_has_changed(&previous, 0x104, 4));
    // A unit only partly covered on one side is never marked.
    previous = chunk(0x100, &[9, 9, 9, 9, 9]);
    assert!(current.unit_has_changed(&previous, 0x100, 4));
    assert!(!current.unit_has_changed(&previous, 0x104, 4));
}

#[test]
fn copy_range_is_all_or_nothing() {
    let c = chunk(0x100, &[1, 2, 3, 4]);
    assert_eq!(c.copy_range(0x100, 4), Some(vec![1, 2, 3, 4]));
    assert_eq!(c.copy_range(0x101, 2), Some(vec![2, 3]));
    assert_eq!(c.copy_range(0x102, 4), None);
    assert_eq!(c.copy_range(0xff, 2), None);
    assert_eq!(c.copy_range(0x104, 1), None);
    assert_eq!(c.copy_range(0x100, 0), Some(vec![]));
}
