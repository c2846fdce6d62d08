//! A backend heap that lives in a vector: a fixed range of addresses that is
//! handed out front to back, and a table of the allocations that are live.
//!
//! It gives the allocator a heap that needs no operating system. Space that
//! is freed is not handed out again.

use crate::heap::{HeapBackend, HeapState};
use std::collections::HashMap;
use vstd::prelude::*;

verus! {

broadcast use vstd::std_specs::hash::group_hash_axioms;

/// Every allocation of an arena takes a whole number of granules.
pub const GRANULE: usize = 8;

/// What every byte of a new arena holds. It is not zero, so that a caller
/// who counts on fresh memory being clear is found out.
pub const POISON: u8 = 0xA5;

/// A backend heap over the addresses from `origin` up to `origin + capacity`.
pub struct Arena {
    origin: usize,
    memory: Vec<u8>,
    used: usize,
    table: HashMap<usize, usize>,
}

/// The bytes that an arena sets aside for an allocation of `size` bytes: the
/// next multiple of the granule above `size`.
pub open spec fn granted(size: usize) -> int {
    (size / GRANULE + 1) * GRANULE
}

impl Arena {
    /// The first address of the arena.
    pub closed spec fn origin(&self) -> usize {
        self.origin
    }

    /// The number of bytes in the arena.
    pub closed spec fn capacity(&self) -> usize {
        self.memory.len()
    }

    /// The number of bytes handed out so far, freed or not.
    pub closed spec fn used(&self) -> usize {
        self.used
    }

    /// An empty arena of `capacity` bytes whose first address is `origin`,
    /// if that range avoids the null address and fits the address space.
    pub fn new(origin: usize, capacity: usize) -> (arena: Option<Arena>)
        ensures
            arena is Some <==> origin != 0 && origin + capacity <= usize::MAX,
            arena matches Some(a) ==> {
                &&& a.wf()
                &&& a.origin() == origin
                &&& a.capacity() == capacity
                &&& a.used() == 0
                &&& a@.blocks == Map::<usize, usize>::empty()
                &&& forall|addr: int|
                    origin <= addr < origin + capacity ==> #[trigger] a@.bytes[addr] == POISON
            },
    {
        if origin == 0 || capacity > usize::MAX - origin {
            return None;
        }
        let arena = Arena {
            origin,
            memory: vec![POISON; capacity],
            used: 0,
            table: HashMap::new(),
        };
        Some(arena)
    }

    /// The number of bytes that can still be handed out.
    pub fn remaining(&self) -> (room: usize)
        requires
            self.wf(),
        ensures
            room == self.capacity() - self.used(),
    {
        self.memory.len() - self.used
    }

    /// The number of live allocations.
    pub fn live_count(&self) -> (count: usize)
        requires
            self.wf(),
        ensures
            count == self@.blocks.len(),
    {
        self.table.len()
    }
}

impl HeapBackend for Arena {
    closed spec fn view(&self) -> HeapState {
        HeapState {
            blocks: self.table@,
            bytes: Map::total(
                |addr: int|
                    if self.origin <= addr < self.origin + self.memory.len() {
                        self.memory@[addr - self.origin]
                    } else {
                        0u8
                    },
            ),
        }
    }

    closed spec fn wf(&self) -> bool {
        &&& self.origin != 0
        &&& self.origin + self.memory.len() <= usize::MAX
        &&& self.used <= self.memory.len()
        &&& forall|b: usize| #[trigger]
            self.table@.contains_key(b) ==> self.origin <= b < b + self.table@[b] <= self.origin
                + self.used
        &&& forall|b1: usize, b2: usize|
            #![trigger self.table@.contains_key(b1), self.table@.contains_key(b2)]
            self.table@.contains_key(b1) && self.table@.contains_key(b2) && b1 != b2 ==> b1
                + self.table@[b1] <= b2 || b2 + self.table@[b2] <= b1
    }

    /// An allocation goes to the first address not handed out yet, if what
    /// it takes still fits.
    open spec fn placement(&self, size: usize) -> Option<usize> {
        if granted(size) <= self.capacity() - self.used() {
            Some((self.origin() + self.used()) as usize)
        } else {
            None
        }
    }

    proof fn lemma_wf_view(&self) {
    }

    fn raw_alloc(&mut self, size: usize) -> (base: usize)
        ensures
            final(self).origin() == old(self).origin(),
            final(self).capacity() == old(self).capacity(),
            final(self).used() == old(self).used() + if base != 0 {
                granted(size)
            } else {
                0
            },
            base != 0 ==> final(self)@.blocks[base] == granted(size),
    {
        let room = self.memory.len() - self.used;
        let granules = size / GRANULE + 1;
        if granules > room / GRANULE {
            return 0;
        }
        let take = granules * GRANULE;
        let base = self.origin + self.used;
        assert(!self.table@.contains_key(base));
        self.table.insert(base, take);
        self.used = self.used + take;
        base
    }

    fn raw_free(&mut self, base: usize)
        ensures
            final(self).origin() == old(self).origin(),
            final(self).capacity() == old(self).capacity(),
            final(self).used() == old(self).used(),
    {
        self.table.remove(&base);
    }

    fn raw_size(&self, base: usize) -> (size: usize) {
        match self.table.get(&base) {
            Some(size) => *size,
            None => 0,
        }
    }

    fn read_byte(&self, addr: usize) -> (value: u8) {
        self.memory[addr - self.origin]
    }

    fn write_byte(&mut self, addr: usize, value: u8)
        ensures
            final(self).origin() == old(self).origin(),
            final(self).capacity() == old(self).capacity(),
            final(self).used() == old(self).used(),
    {
        let at = addr - self.origin;
        self.memory.set(at, value);
        assert(self@.bytes =~= old(self)@.bytes.insert(addr as int, value));
    }
}

} // verus!
