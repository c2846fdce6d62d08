//! The heap that the allocator is built on: a table of live allocations and
//! the bytes they hold, behind a small capability trait.

use vstd::prelude::*;

verus! {

/// What a backend heap looks like from outside.
pub struct HeapState {
    /// The live allocations: where each one starts, and how many bytes of it
    /// may be used.
    pub blocks: Map<usize, usize>,
    /// What each address holds. The map is total; only the bytes of live
    /// allocations matter.
    pub bytes: Map<int, u8>,
}

impl HeapState {
    /// `addr` is one of the bytes of the live allocation that starts at `base`.
    pub open spec fn in_block(self, base: usize, addr: int) -> bool {
        self.blocks.contains_key(base) && base <= addr < base + self.blocks[base]
    }

    /// `addr` is a byte of some live allocation.
    pub open spec fn live(self, addr: int) -> bool {
        exists|base: usize| self.in_block(base, addr)
    }

    /// No allocation starts at the null address, none runs past the end of
    /// the address space, no two of them share a byte, and every address has
    /// a content.
    pub open spec fn wf(self) -> bool {
        &&& forall|addr: int| #[trigger] self.bytes.contains_key(addr)
        &&& forall|b: usize| #[trigger]
            self.blocks.contains_key(b) ==> b != 0 && b + self.blocks[b] <= usize::MAX
        &&& forall|b1: usize, b2: usize|
            #![trigger self.blocks.contains_key(b1), self.blocks.contains_key(b2)]
            self.blocks.contains_key(b1) && self.blocks.contains_key(b2) && b1 != b2 ==> b1
                + self.blocks[b1] <= b2 || b2 + self.blocks[b2] <= b1
    }

    /// The heap with `value` at `addr` and all else as it is.
    pub open spec fn with_byte(self, addr: int, value: u8) -> HeapState {
        HeapState { blocks: self.blocks, bytes: self.bytes.insert(addr, value) }
    }

    /// Every byte that is live in `self` holds the same value in `other`.
    pub open spec fn live_bytes_kept(self, other: HeapState) -> bool {
        forall|base: usize, addr: int| #[trigger]
            self.in_block(base, addr) ==> other.bytes[addr] == self.bytes[addr]
    }
}

/// The primitive that the allocator consumes. It hands out, sizes and takes
/// back allocations with no promise about their alignment, and gives access
/// to the bytes of the live ones.
pub trait HeapBackend: Sized {
    /// The heap as the contracts speak of it.
    spec fn view(&self) -> HeapState;

    /// The backend's own consistency condition.
    spec fn wf(&self) -> bool;

    /// Where the backend would place an allocation of `size` bytes if asked
    /// now, or `None` if it would refuse.
    spec fn placement(&self, size: usize) -> Option<usize>;

    /// A consistent backend shows a consistent heap.
    proof fn lemma_wf_view(&self)
        requires
            self.wf(),
        ensures
            self@.wf(),
    ;

    /// Allocates `size` bytes. Returns the start of the new allocation, or
    /// the null address, with the heap as it was, when none can be had.
    fn raw_alloc(&mut self, size: usize) -> (base: usize)
        requires
            old(self).wf(),
        ensures
            final(self).wf(),
            match old(self).placement(size) {
                None => base == 0 && final(self)@ == old(self)@,
                Some(b) => {
                    &&& base == b
                    &&& b != 0
                    &&& !old(self)@.blocks.contains_key(b)
                    &&& final(self)@.blocks == old(self)@.blocks.insert(b, final(self)@.blocks[b])
                    &&& final(self)@.blocks[b] >= size
                    &&& old(self)@.live_bytes_kept(final(self)@)
                },
            },
    ;

    /// Gives the allocation that starts at `base` back to the heap.
    fn raw_free(&mut self, base: usize)
        requires
            old(self).wf(),
            old(self)@.blocks.contains_key(base),
        ensures
            final(self).wf(),
            final(self)@.blocks == old(self)@.blocks.remove(base),
            final(self)@.live_bytes_kept(old(self)@),
    ;

    /// The number of usable bytes of the allocation that starts at `base`.
    fn raw_size(&self, base: usize) -> (size: usize)
        requires
            self.wf(),
            self@.blocks.contains_key(base),
        ensures
            size == self@.blocks[base],
    ;

    /// Reads one byte of a live allocation.
    fn read_byte(&self, addr: usize) -> (value: u8)
        requires
            self.wf(),
            self@.live(addr as int),
        ensures
            value == self@.bytes[addr as int],
    ;

    /// Writes one byte of a live allocation, and nothing else.
    fn write_byte(&mut self, addr: usize, value: u8)
        requires
            old(self).wf(),
            old(self)@.live(addr as int),
        ensures
            final(self).wf(),
            final(self)@ == old(self)@.with_byte(addr as int, value),
    ;
}

} // verus!
