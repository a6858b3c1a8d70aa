//! Memory viewport and editing engine for a debugger front end.
//!
//! The engine turns a remotely fetched, possibly stale byte stream into a
//! scrollable, column-aligned view over a 64-bit address space, highlights
//! which bytes changed since the last step, renders and parses bytes in
//! several numeric representations, and tracks a character-level edit cursor.
//! It owns no I/O: read and write requests are returned as plain values, and
//! responses are handed in as plain values.

pub mod address_editor;
pub mod char_editor;
pub mod codec;
pub mod digit_memory_editor;
pub mod memory_chunk;
pub mod number_view;
pub mod viewport;
