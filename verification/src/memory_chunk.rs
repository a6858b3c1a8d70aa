//! An owned byte buffer tagged with the absolute address of its first byte.
//!
//! A chunk holds one contiguous run of loaded memory: byte `i` of the buffer
//! represents address `start + i`, and addresses outside the run are simply
//! not represented (the render layer shows them as inaccessible). Two chunks
//! exist at run time, the current one and the previous (pre-step) snapshot,
//! and diffing the two drives the change highlighting.

use vstd::prelude::*;

verus! {

/// One contiguous run of loaded memory, starting at an absolute address.
pub struct MemoryChunk {
    start_address: u64,
    bytes: Vec<u8>,
}

impl MemoryChunk {
    /// Every held byte has a representable 64-bit address.
    #[verifier::type_invariant]
    spec fn wf(self) -> bool {
        self.start_address + self.bytes@.len() <= u64::MAX
    }

    /// Absolute address of byte 0 of the buffer.
    pub closed spec fn start(self) -> u64 {
        self.start_address
    }

    /// The bytes held, in address order.
    pub closed spec fn contents(self) -> Seq<u8> {
        self.bytes@
    }

    /// The chunk holds a byte for address `a`.
    pub open spec fn covers(self, a: int) -> bool {
        self.start() <= a < self.start() + self.contents().len()
    }

    /// The chunk holds every address of `[a, a + len)`.
    pub open spec fn covers_range(self, a: int, len: int) -> bool {
        forall|i: int| a <= i < a + len ==> self.covers(i)
    }

    /// The byte held for address `a`.
    pub open spec fn byte_at(self, a: int) -> u8
        recommends
            self.covers(a),
    {
        self.contents()[a - self.start()]
    }

    /// An empty chunk: nothing is loaded at view startup.
    pub fn new() -> (r: MemoryChunk)
        ensures
            r.start() == 0,
            r.contents() == Seq::<u8>::empty(),
            forall|a: int| !r.covers(a),
    {
        MemoryChunk { start_address: 0, bytes: Vec::new() }
    }

    /// Absolute address of the first held byte.
    pub fn start_address(&self) -> (r: u64)
        ensures
            r == self.start(),
    {
        proof {
            use_type_invariant(self);
        }
        self.start_address
    }

    /// Number of bytes held.
    pub fn len(&self) -> (r: usize)
        ensures
            r == self.contents().len(),
    {
        self.bytes.len()
    }

    /// The byte loaded for `address`, or `None` where nothing is loaded.
    pub fn get(&self, address: u64) -> (r: Option<u8>)
        ensures
            r is Some <==> self.covers(address as int),
            r matches Some(b) ==> b == self.byte_at(address as int),
    {
        proof {
            use_type_invariant(self);
        }
        if address >= self.start_address && address - self.start_address < (self.bytes.len() as u64) {
            Some(self.bytes[(address - self.start_address) as usize])
        } else {
            None
        }
    }

    /// Copies the bytes of `[address, address + len)` out of the chunk;
    /// `None` unless the whole range is loaded.
    pub fn copy_range(&self, address: u64, len: usize) -> (r: Option<Vec<u8>>)
        requires
            address + len <= u64::MAX,
        ensures
            r is Some <==> self.covers_range(address as int, len as int),
            r matches Some(v) ==> v@.len() == len && forall|i: int|
                0 <= i < len ==> v@[i] == self.byte_at(address + i),
    {
        proof {
            use_type_invariant(self);
        }
        if len == 0 {
            return Some(Vec::new());
        }
        if address < self.start_address {
            proof {
                assert(!self.covers(address as int));
            }
            return None;
        }
        let offset = address - self.start_address;
        if (self.bytes.len() as u64) < offset || (self.bytes.len() as u64 - offset) < (len as u64) {
            proof {
                assert(!self.covers(address + len - 1));
            }
            return None;
        }
        let offset = offset as usize;
        let mut v: Vec<u8> = Vec::new();
        let mut i: usize = 0;
        while i < len
            invariant
                i <= len,
                offset == address - self.start(),
                offset + len <= self.contents().len(),
                offset + len <= usize::MAX,
                v@.len() == i,
                forall|j: int| 0 <= j < i ==> v@[j] == self.byte_at(address + j),
            decreases len - i,
        {
            v.push(self.bytes[offset + i]);
            i += 1;
        }
        Some(v)
    }

    /// Replaces the chunk outright with `data` loaded at `address`: the
    /// authoritative answer to a read request for exactly this window.
    pub fn set_accessible(&mut self, address: u64, data: Vec<u8>)
        requires
            address + data@.len() <= u64::MAX,
        ensures
            final(self).start() == address,
            final(self).contents() == data@,
    {
        *self = MemoryChunk { start_address: address, bytes: data };
    }

    /// Merges a freshly read window into this (previous-snapshot) chunk:
    /// afterwards the chunk covers exactly `[address, address + data.len())`,
    /// keeping its own byte wherever it already had one — a user's pending
    /// edits survive a widening of the window — and taking the incoming
    /// byte everywhere else.
    pub fn extend_accessible(&mut self, address: u64, data: &Vec<u8>)
        requires
            address + data@.len() <= u64::MAX,
        ensures
            final(self).start() == address,
            final(self).contents().len() == data@.len(),
            forall|a: int|
                address <= a < address + data@.len() ==> final(self).byte_at(a) == if old(
                    self,
                ).covers(a) {
                    old(self).byte_at(a)
                } else {
                    data@[a - address]
                },
    {
        proof {
            use_type_invariant(&*self);
        }
        let ghost orig = *self;
        let mut merged: Vec<u8> = Vec::new();
        let mut i: usize = 0;
        while i < data.len()
            invariant
                *self == orig,
                self.wf(),
                i <= data@.len(),
                address + data@.len() <= u64::MAX,
                merged@.len() == i,
                forall|j: int|
                    0 <= j < i ==> merged@[j] == if orig.covers(address + j) {
                        orig.byte_at(address + j)
                    } else {
                        data@[j]
                    },
            decreases data@.len() - i,
        {
            let a = address + i as u64;
            let kept = if a >= self.start_address && a - self.start_address < (self.bytes.len() as u64) {
                self.bytes[(a - self.start_address) as usize]
            } else {
                data[i]
            };
            merged.push(kept);
            i += 1;
        }
        *self = MemoryChunk { start_address: address, bytes: merged };
    }

    /// Re-windows the chunk to `[new_address, new_address + new_size)`:
    /// whatever was loaded inside the new window is kept at its address,
    /// and everything else of the new window is left unloaded, to be
    /// filled by the next read response.
    pub fn transform(&mut self, new_address: u64, new_size: usize)
        requires
            new_address + new_size <= u64::MAX,
        ensures
            forall|a: int|
                final(self).covers(a) <==> (old(self).covers(a) && new_address <= a < new_address
                    + new_size),
            forall|a: int| final(self).covers(a) ==> final(self).byte_at(a) == old(self).byte_at(a),
    {
        proof {
            use_type_invariant(&*self);
        }
        let ghost orig = *self;
        let old_end: u128 = self.start_address as u128 + self.bytes.len() as u128;
        let new_end: u128 = new_address as u128 + new_size as u128;
        let istart: u64 = if new_address > self.start_address {
            new_address
        } else {
            self.start_address
        };
        let iend: u128 = if new_end < old_end {
            new_end
        } else {
            old_end
        };
        if (istart as u128) >= iend {
            // The windows do not overlap: nothing of the new window is loaded.
            *self = MemoryChunk { start_address: new_address, bytes: Vec::new() };
            return ;
        }
        let overlap: usize = (iend - istart as u128) as usize;
        let offset: usize = (istart - self.start_address) as usize;
        let mut kept: Vec<u8> = Vec::new();
        let mut i: usize = 0;
        while i < overlap
            invariant
                *self == orig,
                self.wf(),
                offset == istart - self.start(),
                offset + overlap <= self.contents().len(),
                offset + overlap <= usize::MAX,
                i <= overlap,
                kept@.len() == i,
                forall|j: int| 0 <= j < i ==> kept@[j] == self.byte_at(istart + j),
            decreases overlap - i,
        {
            kept.push(self.bytes[offset + i]);
            i += 1;
        }
        *self = MemoryChunk { start_address: istart, bytes: kept };
    }

    /// Whether the byte at `address` should be highlighted as changed
    /// against the `previous` snapshot: true exactly when both chunks hold
    /// a byte for that address and the two bytes differ, so missing data
    /// never produces a false highlight.
    pub fn byte_has_changed(&self, previous: &MemoryChunk, address: u64) -> (r: bool)
        ensures
            r == (self.covers(address as int) && previous.covers(address as int) && self.byte_at(
                address as int,
            ) != previous.byte_at(address as int)),
    {
        let cur = self.get(address);
        let prev = previous.get(address);
        match (cur, prev) {
            (Some(c), Some(p)) => c != p,
            _ => false,
        }
    }

    /// Whether the whole unit `[address, address + unit_len)` should be
    /// highlighted: true exactly when both chunks hold the entire unit and
    /// the units differ in some byte. A unit only partly loaded on either
    /// side is never highlighted.
    pub fn unit_has_changed(&self, previous: &MemoryChunk, address: u64, unit_len: usize) -> (r:
        bool)
        requires
            address + unit_len <= u64::MAX,
        ensures
            r == (self.covers_range(address as int, unit_len as int) && previous.covers_range(
                address as int,
                unit_len as int,
            ) && exists|i: int|
                address <= i < address + unit_len && #[trigger] self.byte_at(i)
                    != previous.byte_at(i)),
    {
        let cur = self.copy_range(address, unit_len);
        let prev = previous.copy_range(address, unit_len);
        match (cur, prev) {
            (Some(c), Some(p)) => {
                let mut i: usize = 0;
                while i < unit_len
                    invariant
                        i <= unit_len,
                        self.covers_range(address as int, unit_len as int),
                        previous.covers_range(address as int, unit_len as int),
                        c@.len() == unit_len,
                        p@.len() == unit_len,
                        address + unit_len <= u64::MAX,
                        forall|j: int| 0 <= j < unit_len ==> c@[j] == self.byte_at(address + j),
                        forall|j: int|
                            0 <= j < unit_len ==> p@[j] == previous.byte_at(address + j),
                        forall|j: int|
                            address <= j < address + i ==> self.byte_at(j) == previous.byte_at(j),
                    decreases unit_len - i,
                {
                    if c[i] != p[i] {
                        proof {
                            let k: int = address + i;
                            assert(self.byte_at(k) != previous.byte_at(k));
                            assert(exists|j: int|
                                address <= j < address + unit_len && #[trigger] self.byte_at(j)
                                    != previous.byte_at(j));
                        }
                        return true;
                    }
                    i += 1;
                }
                false
            },
            _ => false,
        }
    }
}

/// Change highlighting needs data on both sides: an address the previous
/// snapshot does not cover is never marked, whatever the current chunk
/// holds there.
pub proof fn lemma_no_diff_without_previous(
    current: MemoryChunk,
    previous: MemoryChunk,
    address: u64,
)
    requires
        !previous.covers(address as int),
    ensures
        !(current.covers(address as int) && previous.covers(address as int) && current.byte_at(
            address as int,
        ) != previous.byte_at(address as int)),
{
}

} // verus!
