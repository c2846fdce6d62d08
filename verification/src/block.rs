//! Aligned blocks and their hidden header.
//!
//! A block is what the allocator hands out: an aligned address inside one
//! backend allocation. The pointer-sized word just below that address, the
//! header, records where the backend allocation starts. It is stored least
//! significant byte first.

use crate::heap::{HeapBackend, HeapState};
use vstd::arithmetic::div_mod::{lemma_basic_div, lemma_div_denominator, lemma_fundamental_div_mod};
use vstd::arithmetic::power::{lemma_pow0, lemma_pow_increases, lemma_pow_positive, pow};
use vstd::layout::{size_of, unsigned_int_max_values};
use vstd::prelude::*;

verus! {

/// The number of bytes in a header: the size of a pointer.
pub open spec fn spec_header_size() -> usize {
    size_of::<usize>() as usize
}

/// The number of bytes in a header: the size of a pointer.
#[verifier::when_used_as_spec(spec_header_size)]
pub fn header_size() -> (n: usize)
    ensures
        n == spec_header_size(),
        n == 4 || n == 8,
{
    core::mem::size_of::<usize>()
}

/// The number that the `len` bytes from `addr` on spell, least significant
/// byte first.
pub open spec fn word_at(bytes: Map<int, u8>, addr: int, len: nat) -> nat
    decreases len,
{
    if len == 0 {
        0
    } else {
        bytes[addr] as nat + 256 * word_at(bytes, addr + 1, (len - 1) as nat)
    }
}

/// The byte of `value` at position `index`, counted from the least
/// significant one.
pub open spec fn le_digit(value: nat, index: nat) -> u8 {
    ((value as int / pow(256, index)) % 256) as u8
}

/// The backend address that the header below `ptr` records.
pub open spec fn header_at(heap: HeapState, ptr: usize) -> usize {
    word_at(heap.bytes, ptr - header_size(), header_size() as nat) as usize
}

/// `ptr` is a block: its header names a live backend allocation, and `ptr`
/// lies in that allocation with room for the header below it.
pub open spec fn is_block(heap: HeapState, ptr: usize) -> bool {
    let base = header_at(heap, ptr);
    &&& heap.blocks.contains_key(base)
    &&& base + header_size() <= ptr <= base + heap.blocks[base]
}

/// The number of bytes from `ptr` to the end of its backend allocation: what
/// the owner of the block may read and write.
pub open spec fn block_len(heap: HeapState, ptr: usize) -> int {
    let base = header_at(heap, ptr);
    base + heap.blocks[base] - ptr
}

/// A header has four or eight bytes, and an address fills it exactly.
pub proof fn lemma_header_size()
    ensures
        header_size() == 4 || header_size() == 8,
        pow(256, header_size() as nat) == usize::MAX + 1,
{
    unsigned_int_max_values();
}

proof fn lemma_pow_step(index: nat)
    ensures
        pow(256, index + 1) == 256 * pow(256, index),
        pow(256, index) > 0,
{
    reveal(pow);
    lemma_pow_positive(256, index);
}

/// A word of `len` bytes is below `256` to the power `len`.
pub proof fn lemma_word_bound(bytes: Map<int, u8>, addr: int, len: nat)
    ensures
        word_at(bytes, addr, len) < pow(256, len),
    decreases len,
{
    if len == 0 {
        lemma_pow0(256);
    } else {
        lemma_word_bound(bytes, addr + 1, (len - 1) as nat);
        lemma_pow_step((len - 1) as nat);
    }
}

/// A word depends on its own bytes only.
pub proof fn lemma_word_frame(a: Map<int, u8>, b: Map<int, u8>, addr: int, len: nat)
    requires
        forall|at: int| addr <= at < addr + len ==> a[at] == b[at],
    ensures
        word_at(a, addr, len) == word_at(b, addr, len),
    decreases len,
{
    if len > 0 {
        lemma_word_frame(a, b, addr + 1, (len - 1) as nat);
    }
}

proof fn lemma_word_of_digits_from(
    bytes: Map<int, u8>,
    addr: int,
    len: nat,
    value: nat,
    done: nat,
)
    requires
        done <= len,
        value < pow(256, len),
        forall|at: int|
            addr <= at < addr + len ==> bytes[at] == le_digit(value, (at - addr) as nat),
    ensures
        word_at(bytes, addr + done, (len - done) as nat) == value as int / pow(256, done),
    decreases len - done,
{
    if done == len {
        lemma_basic_div(value as int, pow(256, len));
    } else {
        lemma_word_of_digits_from(bytes, addr, len, value, done + 1);
        lemma_pow_step(done);
        let scale = pow(256, done);
        let shifted = value as int / scale;
        assert(bytes[addr + done] == le_digit(value, done));
        lemma_div_denominator(value as int, scale, 256);
        assert(scale * 256 == 256 * scale) by (nonlinear_arith);
        lemma_fundamental_div_mod(shifted, 256);
        assert(0 <= shifted % 256 < 256) by (nonlinear_arith);
    }
}

/// Bytes that hold the digits of `value` spell `value`.
pub proof fn lemma_word_of_digits(bytes: Map<int, u8>, addr: int, len: nat, value: nat)
    requires
        value < pow(256, len),
        forall|at: int|
            addr <= at < addr + len ==> bytes[at] == le_digit(value, (at - addr) as nat),
    ensures
        word_at(bytes, addr, len) == value,
{
    lemma_word_of_digits_from(bytes, addr, len, value, 0);
    lemma_pow0(256);
}

/// Reads the header of a block: the start of its backend allocation.
pub fn read_header<H: HeapBackend>(heap: &H, ptr: usize) -> (base: usize)
    requires
        heap.wf(),
        is_block(heap@, ptr),
    ensures
        base == header_at(heap@, ptr),
{
    let width = header_size();
    let start = ptr - width;
    let ghost owner = header_at(heap@, ptr);
    let mut word: usize = 0;
    let mut i: usize = width;
    while i > 0
        invariant
            i <= width,
            width == header_size(),
            start + width == ptr,
            heap.wf(),
            heap@.blocks.contains_key(owner),
            owner <= start,
            ptr <= owner + heap@.blocks[owner],
            word == word_at(heap@.bytes, start + i, (width - i) as nat),
        decreases i,
    {
        i -= 1;
        proof {
            lemma_header_size();
            lemma_word_bound(heap@.bytes, start + i, (width - i) as nat);
            lemma_pow_increases(256, (width - i) as nat, width as nat);
            assert(heap@.in_block(owner, start + i));
        }
        let byte = heap.read_byte(start + i);
        word = word * 256 + byte as usize;
    }
    word
}

/// Writes the header of the block at `ptr`, which lies in the live backend
/// allocation that starts at `base`. No other byte changes.
pub fn write_header<H: HeapBackend>(heap: &mut H, ptr: usize, base: usize)
    requires
        old(heap).wf(),
        old(heap)@.blocks.contains_key(base),
        base + header_size() <= ptr <= base + old(heap)@.blocks[base],
    ensures
        final(heap).wf(),
        final(heap)@.blocks == old(heap)@.blocks,
        header_at(final(heap)@, ptr) == base,
        is_block(final(heap)@, ptr),
        forall|at: int|
            !(ptr - header_size() <= at < ptr) ==> final(heap)@.bytes[at] == old(heap)@.bytes[at],
{
    let width = header_size();
    let start = ptr - width;
    let mut rest: usize = base;
    let mut i: usize = 0;
    proof {
        lemma_pow0(256);
    }
    while i < width
        invariant
            i <= width,
            width == header_size(),
            start + width == ptr,
            heap.wf(),
            heap@.blocks == old(heap)@.blocks,
            heap@.blocks.contains_key(base),
            base <= start,
            ptr <= base + heap@.blocks[base],
            rest == base as int / pow(256, i as nat),
            forall|at: int|
                start <= at < start + i ==> heap@.bytes[at] == le_digit(
                    base as nat,
                    (at - start) as nat,
                ),
            forall|at: int|
                !(start <= at < start + i) ==> heap@.bytes[at] == old(heap)@.bytes[at],
        decreases width - i,
    {
        proof {
            assert(heap@.in_block(base, start + i));
            lemma_pow_step(i as nat);
            lemma_div_denominator(base as int, pow(256, i as nat), 256);
            assert(pow(256, i as nat) * 256 == 256 * pow(256, i as nat)) by (nonlinear_arith);
        }
        heap.write_byte(start + i, (rest % 256) as u8);
        rest = rest / 256;
        i += 1;
    }
    proof {
        lemma_header_size();
        lemma_word_of_digits(heap@.bytes, start as int, width as nat, base as nat);
    }
}

} // verus!
