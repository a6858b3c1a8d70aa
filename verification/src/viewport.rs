//! The viewport controller: the cursor over the rendered panes, the
//! row iterator that aligns loaded data to the visible grid, and the
//! view state machine that issues read requests and follows the cursor.

use vstd::prelude::*;

use crate::address_editor::AddressEditor;
use crate::memory_chunk::MemoryChunk;
use crate::number_view::NumberView;

verus! {

/// Address the memory view shows when it first opens.
pub const START_ADDRESS: u64 = 0xf0000;

/// Width of the address gutter in characters: `0x` and eight hex digits.
pub const CHARS_PER_ADDRESS: usize = 10;

/// Characters of spacing between the address, numeric and text panes.
pub const TABLE_SPACING_CHARS: usize = 2;

/// Characters of spacing between two numeric columns.
pub const COLUMN_SPACING_CHARS: usize = 1;

/// The numeric-pane cursor: address of the unit under edit, character
/// offset within its rendered text, and the view whose layout the offset
/// refers to.
pub struct HexEditor {
    pub address: u64,
    pub cursor: usize,
    pub view: NumberView,
}

impl HexEditor {
    pub fn new(address: u64, cursor: usize, view: NumberView) -> (r: HexEditor)
        ensures
            r.address == address,
            r.cursor == cursor,
            r.view == view,
    {
        HexEditor { address, cursor, view }
    }
}

/// The text-pane cursor: one ASCII character per address, so the address
/// alone places it.
pub struct AsciiEditor {
    pub address: u64,
}

impl AsciiEditor {
    pub fn new(address: u64) -> (r: AsciiEditor)
        ensures
            r.address == address,
    {
        AsciiEditor { address }
    }
}

/// Which pane, if any, is being edited: at most one cursor is active at a
/// time.
pub enum Editor {
    /// The numeric pane is being edited.
    Hex(HexEditor),
    /// The text pane is being edited.
    Text(AsciiEditor),
    /// Nothing is being edited.
    Inactive,
}

impl Editor {
    /// The address under the cursor, if one is active.
    pub open spec fn spec_address(self) -> Option<u64> {
        match self {
            Editor::Hex(e) => Some(e.address),
            Editor::Text(e) => Some(e.address),
            Editor::Inactive => None,
        }
    }

    /// The text-pane cursor, if that is the active pane.
    pub fn text(&mut self) -> (r: Option<&mut AsciiEditor>)
        ensures
            r is Some <==> *old(self) is Text,
            r matches Some(e) ==> *e == (*old(self))->Text_0 && *final(self) == Editor::Text(
                *final(e),
            ),
            r is None ==> *final(self) == *old(self),
    {
        match self {
            Editor::Text(e) => Some(e),
            _ => None,
        }
    }

    /// The numeric-pane cursor, if that is the active pane.
    pub fn hex(&mut self) -> (r: Option<&mut HexEditor>)
        ensures
            r is Some <==> *old(self) is Hex,
            r matches Some(e) ==> *e == (*old(self))->Hex_0 && *final(self) == Editor::Hex(*final(e)),
            r is None ==> *final(self) == *old(self),
    {
        match self {
            Editor::Hex(e) => Some(e),
            _ => None,
        }
    }

    /// Moves an active cursor `delta` addresses down, stopping at 0:
    /// address arithmetic near the ends of the space saturates instead of
    /// wrapping.
    pub fn decrease_address(&mut self, delta: u64)
        ensures
            final(self).spec_address() == match old(self).spec_address() {
                Some(a) => Some(if a >= delta {
                    (a - delta) as u64
                } else {
                    0u64
                }),
                None => None,
            },
            *old(self) is Hex ==> *final(self) is Hex
                && (*final(self))->Hex_0.cursor == (*old(self))->Hex_0.cursor
                && (*final(self))->Hex_0.view == (*old(self))->Hex_0.view,
            *old(self) is Text ==> *final(self) is Text,
            *old(self) is Inactive ==> *final(self) is Inactive,
    {
        match self {
            Editor::Text(e) => e.address = e.address.saturating_sub(delta),
            Editor::Hex(e) => e.address = e.address.saturating_sub(delta),
            Editor::Inactive => {},
        }
    }

    /// Moves an active cursor `delta` addresses up, stopping at the top of
    /// the address space instead of wrapping.
    pub fn increase_address(&mut self, delta: u64)
        ensures
            final(self).spec_address() == match old(self).spec_address() {
                Some(a) => Some(if a + delta <= u64::MAX {
                    (a + delta) as u64
                } else {
                    u64::MAX
                }),
                None => None,
            },
            *old(self) is Hex ==> *final(self) is Hex
                && (*final(self))->Hex_0.cursor == (*old(self))->Hex_0.cursor
                && (*final(self))->Hex_0.view == (*old(self))->Hex_0.view,
            *old(self) is Text ==> *final(self) is Text,
            *old(self) is Inactive ==> *final(self) is Inactive,
    {
        match self {
            Editor::Text(e) => e.address = e.address.saturating_add(delta),
            Editor::Hex(e) => e.address = e.address.saturating_add(delta),
            Editor::Inactive => {},
        }
    }

    /// The address being edited right now, if any.
    pub fn get_address(&self) -> (r: Option<u64>)
        ensures
            r == self.spec_address(),
    {
        match self {
            Editor::Text(e) => Some(e.address),
            Editor::Hex(e) => Some(e.address),
            Editor::Inactive => None,
        }
    }

    /// Re-bases an active cursor to `address` after an external address
    /// jump: the cursor follows, and a numeric cursor starts over at
    /// digit 0.
    pub fn set_address(&mut self, address: u64)
        ensures
            final(self).spec_address() == match old(self).spec_address() {
                Some(_) => Some(address),
                None => None,
            },
            *old(self) is Hex ==> *final(self) is Hex && (*final(self))->Hex_0.cursor == 0
                && (*final(self))->Hex_0.view == (*old(self))->Hex_0.view,
            *old(self) is Text ==> *final(self) is Text,
            *old(self) is Inactive ==> *final(self) is Inactive,
    {
        match self {
            Editor::Text(e) => e.address = address,
            Editor::Hex(e) => {
                e.address = address;
                e.cursor = 0;
            },
            Editor::Inactive => {},
        }
    }
}

/// How far the start of the loaded data must be advanced so that it falls
/// on the row grid anchored at `start_address` with stride `size`.
pub open spec fn spec_align_offset(start_address: u64, data_address: u64, size: u64) -> int
    recommends
        size >= 1,
{
    let s = size as int;
    if data_address > start_address {
        (s - ((data_address - start_address) % s)) % s
    } else {
        (start_address - data_address) % s
    }
}

/// The byte range of the row at `cur_address`, as (index, length) into
/// the data buffer: length 0 for rows before the loaded data or past its
/// end, and a short final row where the data runs out mid-row.
pub open spec fn spec_row(c: Chunks) -> (int, int) {
    if c.cur_address < c.data_address {
        (0, 0)
    } else {
        let base = c.offset + c.cur_address - c.data_address;
        if base >= c.data_len {
            (0, 0)
        } else if c.data_len - base < c.size {
            (base, c.data_len - base)
        } else {
            (base, c.size as int)
        }
    }
}

/// Walks the visible rows of the viewport, yielding for each row the
/// (index, length) of its bytes within a data buffer loaded at
/// `data_address`. The data need not start on a row boundary: leading
/// bytes before the first full row on the grid are skipped, and rows
/// outside the loaded range come back empty, to be rendered as
/// inaccessible.
pub struct Chunks {
    /// Address of the row the next call yields.
    pub cur_address: u64,
    /// Address of the first grid-aligned loaded byte.
    pub data_address: u64,
    /// Index of that byte within the data buffer.
    pub offset: usize,
    /// Row stride in bytes.
    pub size: usize,
    /// Length of the data buffer.
    pub data_len: usize,
}

impl Chunks {
    /// Starts a walk of rows `start_address`, `start_address + size`, ...
    /// over a buffer of `data_len` bytes loaded at `data_address`.
    pub fn new(start_address: u64, data_address: u64, size: usize, data_len: usize) -> (r: Chunks)
        requires
            1 <= size,
            data_address + size <= u64::MAX,
        ensures
            r.cur_address == start_address,
            r.size == size,
            r.data_len == data_len,
            r.offset == spec_align_offset(start_address, data_address, size as u64),
            r.data_address == data_address + r.offset,
            (r.data_address - start_address) % (size as int) == 0,
    {
        let size64 = size as u64;
        let offset64: u64 = if data_address > start_address {
            (size64 - ((data_address - start_address) % size64)) % size64
        } else {
            (start_address - data_address) % size64
        };
        proof {
            lemma_align_offset(start_address, data_address, size as u64);
        }
        Chunks {
            cur_address: start_address,
            data_address: data_address + offset64,
            offset: offset64 as usize,
            size,
            data_len,
        }
    }

    /// The byte range of the current row, then advances to the next row.
    /// A length of 0 means the row is not loaded.
    pub fn next(&mut self) -> (r: (usize, usize))
        requires
            old(self).cur_address + old(self).size <= u64::MAX,
        ensures
            (r.0 as int, r.1 as int) == spec_row(*old(self)),
            r.0 + r.1 <= old(self).data_len,
            *final(self) == (Chunks {
                cur_address: (old(self).cur_address + old(self).size) as u64,
                ..*old(self)
            }),
    {
        let r = if self.cur_address < self.data_address {
            (0, 0)
        } else {
            let base128: u128 = self.offset as u128 + (self.cur_address - self.data_address)
                as u128;
            if base128 >= self.data_len as u128 {
                (0, 0)
            } else {
                let base = base128 as usize;
                let len = if self.data_len - base < self.size {
                    self.data_len - base
                } else {
                    self.size
                };
                (base, len)
            }
        };
        self.cur_address = self.cur_address + self.size as u64;
        r
    }
}

/// The alignment offset is smaller than one row and lands the data start
/// on the row grid.
proof fn lemma_align_offset(start_address: u64, data_address: u64, size: u64)
    requires
        1 <= size,
    ensures
        0 <= spec_align_offset(start_address, data_address, size) < size,
        (data_address + spec_align_offset(start_address, data_address, size) - start_address) % (
        size as int) == 0,
{
    let s = size as int;
    if data_address > start_address {
        let diff = data_address - start_address;
        let m = diff % s;
        assert(0 <= m < s) by (nonlinear_arith)
            requires
                s >= 1,
                m == diff % s,
                diff >= 0,
        ;
        let off = (s - m) % s;
        if m == 0 {
            assert(off == 0) by (nonlinear_arith)
                requires
                    s >= 1,
                    off == (s - 0) % s,
            ;
            assert((diff + off) % s == 0) by (nonlinear_arith)
                requires
                    s >= 1,
                    off == 0,
                    diff % s == 0,
                    diff >= 0,
            ;
        } else {
            assert(off == s - m) by (nonlinear_arith)
                requires
                    s >= 1,
                    0 < m < s,
                    off == (s - m) % s,
            ;
            assert((diff + (s - m)) % s == 0) by (nonlinear_arith)
                requires
                    s >= 1,
                    0 < m < s,
                    m == diff % s,
                    diff >= 0,
            ;
        }
    } else {
        let diff = start_address - data_address;
        let off = diff % s;
        assert(0 <= off < s) by (nonlinear_arith)
            requires
                s >= 1,
                off == diff % s,
                diff >= 0,
        ;
        let q = diff / s;
        vstd::arithmetic::div_mod::lemma_fundamental_div_mod(diff, s);
        vstd::arithmetic::div_mod::lemma_mod_multiples_vanish(-q, 0, s);
        assert(off - diff == s * (-q) + 0) by (nonlinear_arith)
            requires
                diff == s * q + off,
        ;
        assert((off - diff) % s == 0int % s);
    }
}

/// Length of the overlap of the windows `[fs, fs + fl)` and
/// `[ss, ss + sl)`, or 0 where they do not meet.
pub open spec fn spec_intersection_len(fs: int, fl: int, ss: int, sl: int) -> int {
    let istart = if fs > ss {
        fs
    } else {
        ss
    };
    let iend = if fs + fl < ss + sl {
        fs + fl
    } else {
        ss + sl
    };
    if iend > istart {
        iend - istart
    } else {
        0
    }
}

/// Number of whole columns that fit beside the address gutter: the spec
/// behind [`MemoryView::get_columns_from_width`].
pub open spec fn spec_columns_from_width(
    number_view: Option<NumberView>,
    text_shown: bool,
    chars_in_screen: int,
) -> int {
    let large_columns = (if number_view is Some {
        1int
    } else {
        0int
    }) + (if text_shown {
        1int
    } else {
        0int
    });
    let chars_per_column = (match number_view {
        Some(v) => v.spec_maximum_chars_needed() + COLUMN_SPACING_CHARS,
        None => 0,
    }) + (if text_shown {
        match number_view {
            Some(v) => v.size.spec_byte_count() as int,
            None => 1int,
        }
    } else {
        0int
    });
    let reserved = large_columns * TABLE_SPACING_CHARS + CHARS_PER_ADDRESS;
    let chars_left = if chars_in_screen > reserved {
        chars_in_screen - reserved
    } else {
        0int
    };
    if chars_per_column > 0 {
        if chars_left / chars_per_column > 1 {
            chars_left / chars_per_column
        } else {
            1int
        }
    } else {
        1int
    }
}

/// The memory view's whole engine state: everything the render layer
/// reads and every decision that outlives a frame. Rendering itself and
/// the host transport stay outside; read and write requests are returned
/// as values and responses are handed in as values.
pub struct MemoryView {
    /// Address of the first byte of memory shown.
    pub start_address: AddressEditor,
    /// Number of bytes needed to fill one screen.
    pub bytes_needed: usize,
    /// Current state of memory.
    pub data: MemoryChunk,
    /// Snapshot of memory taken at the last step, for diff highlighting.
    pub prev_data: MemoryChunk,
    /// The read request sent but not yet answered, as (address, size).
    pub memory_request: Option<(u64, u64)>,
    /// Set to force a re-read of the viewport.
    pub should_update_memory: bool,
    /// Fixed column count picked by the user, or 0 to fit the width.
    pub columns: usize,
    /// The active edit cursor.
    pub memory_editor: Editor,
    /// The numeric pane's view, or `None` when that pane is hidden.
    pub number_view: Option<NumberView>,
    /// Whether the text pane is shown.
    pub text_shown: bool,
}

impl MemoryView {
    /// A fresh view: nothing loaded, nothing edited, hex bytes and the
    /// text pane shown, columns fitted to the window.
    pub fn new() -> (r: MemoryView)
        ensures
            r.start_address.spec_value() == START_ADDRESS,
            r.bytes_needed == 0,
            r.data.contents().len() == 0,
            r.prev_data.contents().len() == 0,
            r.memory_request is None,
            !r.should_update_memory,
            r.columns == 0,
            r.memory_editor is Inactive,
            r.number_view matches Some(v) && v.representation is Hex && v.size is OneByte
                && v.endianness is Little,
            r.text_shown,
    {
        MemoryView {
            start_address: AddressEditor::new(START_ADDRESS),
            bytes_needed: 0,
            data: MemoryChunk::new(),
            prev_data: MemoryChunk::new(),
            memory_request: None,
            should_update_memory: false,
            columns: 0,
            memory_editor: Editor::Inactive,
            number_view: Some(NumberView::default()),
            text_shown: true,
        }
    }

    /// The debuggee executed: the current bytes become the previous
    /// snapshot (one in-memory exchange, no partial state), and the
    /// viewport is re-read on the next frame.
    pub fn process_step(&mut self)
        ensures
            final(self).data == old(self).prev_data,
            final(self).prev_data == old(self).data,
            final(self).should_update_memory,
            final(self).start_address == old(self).start_address,
            final(self).bytes_needed == old(self).bytes_needed,
            final(self).memory_request == old(self).memory_request,
            final(self).columns == old(self).columns,
            final(self).memory_editor == old(self).memory_editor,
            final(self).number_view == old(self).number_view,
            final(self).text_shown == old(self).text_shown,
    {
        core::mem::swap(&mut self.data, &mut self.prev_data);
        self.should_update_memory = true;
    }

    /// The overlap of the windows `[first_start, first_start + first_len)`
    /// and `[second_start, second_start + second_len)`, as start and
    /// length; `None` exactly when they do not overlap.
    pub fn get_memory_intersection(
        first_start: u64,
        first_len: u64,
        second_start: u64,
        second_len: u64,
    ) -> (r: Option<(u64, u64)>)
        ensures
            r is Some <==> spec_intersection_len(
                first_start as int,
                first_len as int,
                second_start as int,
                second_len as int,
            ) > 0,
            r matches Some(p) ==> p.0 == (if first_start > second_start {
                first_start
            } else {
                second_start
            }) && p.1 as int == spec_intersection_len(
                first_start as int,
                first_len as int,
                second_start as int,
                second_len as int,
            ),
    {
        let istart: u64 = if first_start > second_start {
            first_start
        } else {
            second_start
        };
        let first_end: u128 = first_start as u128 + first_len as u128;
        let second_end: u128 = second_start as u128 + second_len as u128;
        let iend: u128 = if first_end < second_end {
            first_end
        } else {
            second_end
        };
        if iend > istart as u128 {
            Some((istart, (iend - istart as u128) as u64))
        } else {
            None
        }
    }

    /// A read response landed: the incoming bytes become the current
    /// chunk outright, and the previous snapshot is re-based to the same
    /// window, keeping its own byte wherever it had one so that pending
    /// edits stay visible in the diff. Any outstanding request is
    /// considered answered.
    pub fn update_memory(&mut self, address: u64, data: Vec<u8>)
        requires
            address + data@.len() <= u64::MAX,
        ensures
            final(self).data.start() == address,
            final(self).data.contents() == data@,
            final(self).prev_data.start() == address,
            final(self).prev_data.contents().len() == data@.len(),
            forall|a: int|
                address <= a < address + data@.len() ==> final(self).prev_data.byte_at(a) == if old(
                    self,
                ).prev_data.covers(a) {
                    old(self).prev_data.byte_at(a)
                } else {
                    data@[a - address]
                },
            final(self).memory_request is None,
            final(self).start_address == old(self).start_address,
            final(self).bytes_needed == old(self).bytes_needed,
            final(self).should_update_memory == old(self).should_update_memory,
            final(self).columns == old(self).columns,
            final(self).memory_editor == old(self).memory_editor,
            final(self).number_view == old(self).number_view,
            final(self).text_shown == old(self).text_shown,
    {
        self.prev_data.extend_accessible(address, &data);
        self.data.set_accessible(address, data);
        self.memory_request = None;
    }

    /// Maximum number of whole columns that fit in a window
    /// `chars_in_screen` characters wide, after the address gutter and
    /// the spacing between panes and columns. Never less than 1, however
    /// small the window: the view degenerates rather than divides by
    /// zero.
    pub fn get_columns_from_width(&self, chars_in_screen: usize) -> (r: usize)
        ensures
            r as int == spec_columns_from_width(
                self.number_view,
                self.text_shown,
                chars_in_screen as int,
            ),
            r >= 1,
    {
        let mut large_columns: usize = 0;
        let mut chars_per_column: usize = 0;
        match self.number_view {
            Some(view) => {
                large_columns += 1;
                chars_per_column += view.maximum_chars_needed() + COLUMN_SPACING_CHARS;
            },
            None => {},
        }
        if self.text_shown {
            large_columns += 1;
            chars_per_column += match self.number_view {
                Some(view) => view.size.byte_count(),
                None => 1,
            };
        }
        let chars_left = chars_in_screen.saturating_sub(
            large_columns * TABLE_SPACING_CHARS + CHARS_PER_ADDRESS,
        );
        if chars_per_column > 0 {
            let columns = chars_left / chars_per_column;
            if columns > 1 {
                columns
            } else {
                1
            }
        } else {
            // Neither the numeric nor the text pane is shown.
            1
        }
    }

    /// Number of whole rows to render given the visible line range the
    /// host reports: one row is held back so that rounding never forces a
    /// vertical scrollbar into existence.
    pub fn get_screen_lines_count(visible_start: usize, visible_end: usize) -> (r: usize)
        requires
            visible_start < usize::MAX,
        ensures
            r == if visible_end > visible_start + 1 {
                visible_end - visible_start - 1
            } else {
                0int
            },
    {
        visible_end.saturating_sub(visible_start + 1)
    }
}

/// `diff` rounded up to a whole number of rows of `bpl` bytes.
pub open spec fn spec_ceil_mul(diff: int, bpl: int) -> int
    recommends
        bpl >= 1,
        diff >= 0,
{
    (if diff % bpl == 0 {
        diff / bpl
    } else {
        diff / bpl + 1
    }) * bpl
}

impl MemoryView {
    /// Scroll-follow: if the cursor's address lies before the viewport or
    /// at or past the address one row after its last visible row, the
    /// viewport start moves by whole rows — never partial ones — far
    /// enough that the cursor lands strictly inside the visible range,
    /// clamped at the ends of the address space.
    pub fn move_memory_to_cursor(&mut self, bytes_per_line: u64, lines_on_screen: u64)
        requires
            bytes_per_line >= 1,
            lines_on_screen >= 1,
        ensures
            final(self).bytes_needed == old(self).bytes_needed,
            final(self).data == old(self).data,
            final(self).prev_data == old(self).prev_data,
            final(self).memory_request == old(self).memory_request,
            final(self).should_update_memory == old(self).should_update_memory,
            final(self).columns == old(self).columns,
            final(self).memory_editor == old(self).memory_editor,
            final(self).number_view == old(self).number_view,
            final(self).text_shown == old(self).text_shown,
            old(self).memory_editor.spec_address() is None ==> final(self).start_address == old(
                self,
            ).start_address,
            ({
                let s0 = old(self).start_address.spec_value() as int;
                let s1 = final(self).start_address.spec_value() as int;
                let bpl = bytes_per_line as int;
                let rows = lines_on_screen as int;
                let m = u64::MAX as int;
                match old(self).memory_editor.spec_address() {
                    None => true,
                    Some(a64) => {
                        let a = a64 as int;
                        let need_up = spec_ceil_mul(s0 - a, bpl);
                        let last = if s0 + bpl * rows <= m {
                            s0 + bpl * rows
                        } else {
                            m
                        };
                        let need_down = ((a - last) / bpl + 1) * bpl;
                        &&& (a < s0 ==> {
                            &&& s1 == (if need_up >= s0 {
                                0int
                            } else {
                                s0 - need_up
                            })
                            &&& s1 <= a < s1 + bpl * rows
                            &&& (s1 > 0 ==> (s0 - s1) % bpl == 0)
                        })
                        &&& ((s0 <= a && a < s0 + bpl * rows && s0 + bpl * rows <= m) ==> s1
                            == s0)
                        &&& ((s0 <= a && a >= last) ==> {
                            &&& s1 == (if s0 + need_down <= m {
                                s0 + need_down
                            } else {
                                m
                            })
                            &&& (s1 + bpl * rows <= m ==> s1 <= a < s1 + bpl * rows)
                        })
                    },
                }
            }),
    {
        let address = match self.memory_editor.get_address() {
            Some(a) => a,
            None => {
                return ;
            },
        };
        let ghost a = address as int;
        let ghost s0 = self.start_address.spec_value() as int;
        let ghost bpl = bytes_per_line as int;
        let ghost rows = lines_on_screen as int;
        let ghost m = u64::MAX as int;
        proof {
            assert(bpl * rows >= bpl && bpl * rows >= rows) by (nonlinear_arith)
                requires
                    bpl >= 1,
                    rows >= 1,
            ;
        }
        let start_address = self.start_address.get();
        if address < start_address {
            let diff = start_address - address;
            let q = diff / bytes_per_line;
            let rem = diff % bytes_per_line;
            proof {
                vstd::arithmetic::div_mod::lemma_fundamental_div_mod(diff as int, bpl);
                assert((q + 1) * bpl == q * bpl + bpl) by (nonlinear_arith);
                if rem != 0 {
                    assert(q < u64::MAX) by (nonlinear_arith)
                        requires
                            diff == bpl * q + rem,
                            1 <= rem,
                            bpl >= 1,
                            0 <= q,
                            diff <= u64::MAX,
                    ;
                }
            }
            let lines_needed: u64 = if rem != 0 {
                q + 1
            } else {
                q
            };
            let ghost ln = lines_needed as int;
            let ghost need_up = spec_ceil_mul(s0 - a, bpl);
            proof {
                assert(diff <= ln * bpl < diff + bpl && (ln * bpl) % bpl == 0) by (nonlinear_arith)
                    requires
                        bpl >= 1,
                        0 <= q,
                        diff == bpl * q + rem,
                        0 <= rem < bpl,
                        ln == (if rem != 0 {
                            q + 1
                        } else {
                            q as int
                        }),
                ;
                assert(ln * bpl == need_up);
            }
            let sub = match lines_needed.checked_mul(bytes_per_line) {
                Some(v) => v,
                None => u64::MAX,
            };
            self.start_address.set(start_address.saturating_sub(sub));
            proof {
                let s1 = self.start_address.spec_value() as int;
                assert(s1 == (if need_up >= s0 {
                    0int
                } else {
                    s0 - need_up
                }));
                assert(s1 <= a < s1 + bpl);
            }
        }
        let current_start = self.start_address.get();
        let step = match bytes_per_line.checked_mul(lines_on_screen) {
            Some(v) => v,
            None => u64::MAX,
        };
        let last_address = current_start.saturating_add(step);
        if address >= last_address {
            // The first adjustment, had it run, would have left the cursor
            // strictly before `last_address`, so on this path the cursor
            // started at or past the viewport: the start is unchanged.
            let diff = address - last_address;
            let q = diff / bytes_per_line;
            proof {
                vstd::arithmetic::div_mod::lemma_fundamental_div_mod(diff as int, bpl);
                assert(q <= diff) by (nonlinear_arith)
                    requires
                        diff == bpl * q + diff as int % bpl,
                        bpl >= 1,
                        0 <= q,
                        0 <= diff as int % bpl,
                ;
            }
            let lines_needed: u64 = q + 1;
            let ghost ln = lines_needed as int;
            let ghost last = last_address as int;
            let ghost need_down = ((a - last) / bpl + 1) * bpl;
            proof {
                assert(diff < ln * bpl <= diff + bpl) by (nonlinear_arith)
                    requires
                        bpl >= 1,
                        0 <= q,
                        diff == bpl * q + (diff as int % bpl),
                        0 <= diff as int % bpl < bpl,
                        ln == q + 1,
                ;
                assert(ln * bpl == need_down);
            }
            let add = match lines_needed.checked_mul(bytes_per_line) {
                Some(v) => v,
                None => u64::MAX,
            };
            self.start_address.set(start_address.saturating_add(add));
            proof {
                let s1 = self.start_address.spec_value() as int;
                assert(s1 == (if s0 + need_down <= m {
                    s0 + need_down
                } else {
                    m
                }));
                if s1 + bpl * rows <= m {
                    assert(s1 == s0 + need_down);
                    assert(s1 <= a < s1 + bpl * rows);
                }
            }
        }
    }
}

impl MemoryView {
    /// Decides, once per frame, whether a new read must go out: when a
    /// re-read was forced, or when the window already asked for (or,
    /// with nothing in flight, the window owned) fails to cover the
    /// bytes the screen needs. The request returned is for exactly the
    /// viewport, it supersedes any request in flight, and it is
    /// remembered so the next frame does not ask again.
    pub fn process_memory_request(&mut self) -> (r: Option<(u64, u64)>)
        ensures
            ({
                let ws = match old(self).memory_request {
                    Some(p) => p.0 as int,
                    None => old(self).data.start() as int,
                };
                let wl = match old(self).memory_request {
                    Some(p) => p.1 as int,
                    None => old(self).data.contents().len() as int,
                };
                let covered = spec_intersection_len(
                    ws,
                    wl,
                    old(self).start_address.spec_value() as int,
                    old(self).bytes_needed as int,
                );
                let wants = old(self).should_update_memory || covered < old(self).bytes_needed;
                &&& (r is Some <==> wants)
                &&& (r matches Some(p) ==> p.0 == old(self).start_address.spec_value() && p.1
                    == old(self).bytes_needed as u64 && final(self).memory_request == Some(p)
                    && !final(self).should_update_memory)
                &&& (r is None ==> final(self).memory_request == old(self).memory_request
                    && final(self).should_update_memory == old(self).should_update_memory)
            }),
            final(self).start_address == old(self).start_address,
            final(self).bytes_needed == old(self).bytes_needed,
            final(self).data == old(self).data,
            final(self).prev_data == old(self).prev_data,
            final(self).columns == old(self).columns,
            final(self).memory_editor == old(self).memory_editor,
            final(self).number_view == old(self).number_view,
            final(self).text_shown == old(self).text_shown,
    {
        let (window_start, window_len) = match self.memory_request {
            Some(p) => p,
            None => (self.data.start_address(), self.data.len() as u64),
        };
        let covered = match MemoryView::get_memory_intersection(
            window_start,
            window_len,
            self.start_address.get(),
            self.bytes_needed as u64,
        ) {
            Some(p) => p.1,
            None => 0,
        };
        if covered < self.bytes_needed as u64 {
            // Less data can be shown than the screen needs.
            self.should_update_memory = true;
        }
        if self.should_update_memory {
            let address = self.start_address.get();
            self.should_update_memory = false;
            self.memory_request = Some((address, self.bytes_needed as u64));
            Some((address, self.bytes_needed as u64))
        } else {
            None
        }
    }
}

} // verus!
