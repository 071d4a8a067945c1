//! The guest's linear memory, as the host functions read and write it.
//!
//! A guest hands over addresses and sizes as `i32`. A negative address or size lies
//! outside every memory. Integers are stored in little-endian order, as WebAssembly
//! stores them.
use vstd::prelude::*;
use vstd::slice::{slice_subrange, slice_to_vec};

verus! {

/// Whether the `len` bytes that start at `addr` all lie in a memory of `size` bytes.
pub open spec fn in_bounds(size: nat, addr: i32, len: nat) -> bool {
    0 <= addr && addr + len <= size
}

/// The `size` bytes of `memory` that start at `addr`, or `None` where some of them lie
/// outside it.
pub open spec fn bytes_at(memory: Seq<u8>, addr: i32, size: i32) -> Option<Seq<u8>> {
    if 0 <= size && in_bounds(memory.len(), addr, size as nat) {
        Some(memory.subrange(addr as int, addr + size))
    } else {
        None
    }
}

/// `memory` with `bytes` stored from `addr` on, or `None` where they do not fit.
pub open spec fn stored(memory: Seq<u8>, addr: i32, bytes: Seq<u8>) -> Option<Seq<u8>> {
    if in_bounds(memory.len(), addr, bytes.len()) {
        Some(
            memory.subrange(0, addr as int) + bytes + memory.subrange(
                addr + bytes.len(),
                memory.len() as int,
            ),
        )
    } else {
        None
    }
}

/// The four bytes of `value`, least significant first.
pub open spec fn le_bytes(value: u32) -> Seq<u8> {
    seq![
        (value % 256) as u8,
        (value / 256 % 256) as u8,
        (value / 65536 % 256) as u8,
        (value / 16777216) as u8,
    ]
}

/// The integer stored at `addr`, read as unsigned, or `None` where it lies outside.
pub open spec fn word_at(memory: Seq<u8>, addr: i32) -> Option<int> {
    match bytes_at(memory, addr, 4) {
        Some(bytes) => Some(bytes[0] + 256 * bytes[1] + 65536 * bytes[2] + 16777216 * bytes[3]),
        None => None,
    }
}

/// Whether `len` bytes at `addr` and `other_len` bytes at `other` have no byte in common.
pub open spec fn apart(addr: i32, len: nat, other: i32, other_len: nat) -> bool {
    addr + len <= other || other + other_len <= addr
}

/// `memory` with two integers stored one after the other, or `None` where one of them
/// does not fit.
pub open spec fn stored_pair(
    memory: Seq<u8>,
    first_addr: i32,
    first: u32,
    second_addr: i32,
    second: u32,
) -> Option<Seq<u8>> {
    match stored(memory, first_addr, le_bytes(first)) {
        Some(after_first) => stored(after_first, second_addr, le_bytes(second)),
        None => None,
    }
}

/// Whether `len` bytes can be read or written at `addr`.
pub fn fits(memory: &[u8], addr: i32, len: usize) -> (r: bool)
    ensures
        r == in_bounds(memory@.len(), addr, len as nat),
{
    0 <= addr && addr as usize <= memory.len() && len <= memory.len() - addr as usize
}

/// Copies `size` bytes from `addr` out of the guest's memory.
pub fn read(memory: &[u8], addr: i32, size: i32) -> (r: Option<Vec<u8>>)
    ensures
        match r {
            Some(bytes) => bytes_at(memory@, addr, size) == Some(bytes@),
            None => bytes_at(memory@, addr, size) is None,
        },
{
    if size < 0 || !fits(memory, addr, size as usize) {
        return None;
    }
    let start: usize = addr as usize;
    let end: usize = start + size as usize;
    Some(slice_to_vec(slice_subrange(memory, start, end)))
}

/// Stores `bytes` at `addr` and tells how many were stored, or leaves the memory alone
/// where they do not all fit.
pub fn write(memory: &mut [u8], addr: i32, bytes: &[u8]) -> (r: Option<usize>)
    ensures
        match stored(old(memory)@, addr, bytes@) {
            Some(after) => r is Some && r->0 == bytes@.len() && final(memory)@ == after,
            None => r is None && final(memory)@ == old(memory)@,
        },
{
    if !fits(memory, addr, bytes.len()) {
        return None;
    }
    let size: usize = memory.len();
    let start: usize = addr as usize;
    let mut i: usize = 0;
    while i < bytes.len()
        invariant
            start == addr,
            0 <= i <= bytes@.len(),
            start + bytes@.len() <= size,
            memory@.len() == size,
            old(memory)@.len() == size,
            forall|k: int|
                0 <= k < memory@.len() ==> #[trigger] memory@[k] == (if start <= k < start + i {
                    bytes@[k - start]
                } else {
                    old(memory)@[k]
                }),
        decreases bytes@.len() - i,
    {
        memory[start + i] = bytes[i];
        i = i + 1;
    }
    proof {
        let after = stored(old(memory)@, addr, bytes@)->0;
        assert(memory@ =~= after);
    }
    Some(bytes.len())
}

/// Stores `value` at `addr`.
pub fn write_u32(memory: &mut [u8], addr: i32, value: u32)
    requires
        in_bounds(old(memory)@.len(), addr, 4),
    ensures
        stored(old(memory)@, addr, le_bytes(value)) == Some(final(memory)@),
{
    let bytes: [u8; 4] = [
        (value % 256) as u8,
        (value / 256 % 256) as u8,
        (value / 65536 % 256) as u8,
        (value / 16777216) as u8,
    ];
    assert(bytes@ =~= le_bytes(value));
    let _ = write(memory, addr, &bytes);
}

/// Stores `value`, in two's complement, at `addr`.
pub fn write_i32(memory: &mut [u8], addr: i32, value: i32)
    requires
        in_bounds(old(memory)@.len(), addr, 4),
    ensures
        stored(old(memory)@, addr, le_bytes(value as u32)) == Some(final(memory)@),
{
    write_u32(memory, addr, value as u32);
}

/// What was stored is read back, and storing does not change the size of a memory.
pub proof fn law_read_after_write(memory: Seq<u8>, addr: i32, bytes: Seq<u8>)
    requires
        stored(memory, addr, bytes) is Some,
        bytes.len() <= i32::MAX,
    ensures
        bytes_at(stored(memory, addr, bytes)->0, addr, bytes.len() as i32) == Some(bytes),
        stored(memory, addr, bytes)->0.len() == memory.len(),
{
    let after = stored(memory, addr, bytes)->0;
    assert(after.subrange(addr as int, addr + bytes.len()) =~= bytes);
}

/// Storing leaves every range of bytes alone that it does not reach.
pub proof fn law_write_elsewhere(
    memory: Seq<u8>,
    addr: i32,
    bytes: Seq<u8>,
    other: i32,
    size: i32,
)
    requires
        stored(memory, addr, bytes) is Some,
        0 <= size,
        apart(addr, bytes.len(), other, size as nat),
    ensures
        bytes_at(stored(memory, addr, bytes)->0, other, size) == bytes_at(memory, other, size),
{
    let after = stored(memory, addr, bytes)->0;
    if 0 <= size && in_bounds(memory.len(), other, size as nat) {
        assert(after.subrange(other as int, other + size) =~= memory.subrange(
            other as int,
            other + size,
        ));
    }
}

/// An integer that was stored is read back.
pub proof fn law_word_after_write(memory: Seq<u8>, addr: i32, value: u32)
    requires
        stored(memory, addr, le_bytes(value)) is Some,
    ensures
        word_at(stored(memory, addr, le_bytes(value))->0, addr) == Some(value as int),
{
    law_read_after_write(memory, addr, le_bytes(value));
}

/// Of two integers that were stored apart, both are read back.
pub proof fn law_words_after_write(
    memory: Seq<u8>,
    first_addr: i32,
    first: u32,
    second_addr: i32,
    second: u32,
)
    requires
        stored_pair(memory, first_addr, first, second_addr, second) is Some,
        apart(first_addr, 4, second_addr, 4),
    ensures
        ({
            let after = stored_pair(memory, first_addr, first, second_addr, second)->0;
            &&& word_at(after, first_addr) == Some(first as int)
            &&& word_at(after, second_addr) == Some(second as int)
            &&& after.len() == memory.len()
        }),
{
    let after_first = stored(memory, first_addr, le_bytes(first))->0;
    law_word_after_write(memory, first_addr, first);
    law_read_after_write(memory, first_addr, le_bytes(first));
    law_word_after_write(after_first, second_addr, second);
    law_read_after_write(after_first, second_addr, le_bytes(second));
    law_write_elsewhere(after_first, second_addr, le_bytes(second), first_addr, 4);
}

/// Bytes are read where they all lie in the memory, and as they stand there.
pub proof fn law_bytes_are_read_in_place(memory: Seq<u8>, addr: i32, size: i32)
    ensures
        bytes_at(memory, addr, size) is Some <==> 0 <= addr && 0 <= size && addr + size
            <= memory.len(),
        bytes_at(memory, addr, size) matches Some(bytes) ==> bytes.len() == size && forall|i: int|
            0 <= i < size ==> bytes[i] == memory[addr + i],
{
}

/// Bytes are stored where they all lie in the memory. Each then stands in its place, and every
/// other byte of the memory is what it was.
pub proof fn law_bytes_are_stored_in_place(memory: Seq<u8>, addr: i32, bytes: Seq<u8>)
    ensures
        stored(memory, addr, bytes) is Some <==> 0 <= addr && addr + bytes.len() <= memory.len(),
        stored(memory, addr, bytes) matches Some(after) ==> {
            &&& after.len() == memory.len()
            &&& forall|i: int| 0 <= i < bytes.len() ==> after[addr + i] == bytes[i]
            &&& forall|i: int|
                0 <= i < addr || addr + bytes.len() <= i < memory.len() ==> after[i] == memory[i]
        },
{
}

/// The four bytes of an integer are its digits to the base 256, the least significant first,
/// and so is an integer read.
pub proof fn law_integers_are_little_endian(value: u32, memory: Seq<u8>, addr: i32)
    ensures
        le_bytes(value).len() == 4,
        le_bytes(value)[0] + 256 * le_bytes(value)[1] + 65536 * le_bytes(value)[2] + 16777216
            * le_bytes(value)[3] == value,
        0 <= addr && addr + 4 <= memory.len() ==> word_at(memory, addr) == Some(
            memory[addr as int] + 256 * memory[addr + 1] + 65536 * memory[addr + 2] + 16777216
                * memory[addr + 3],
        ),
{
}

/// Ranges are apart exactly where no byte lies in both.
pub proof fn law_apart_is_disjoint(addr: i32, len: nat, other: i32, other_len: nat)
    requires
        len > 0,
        other_len > 0,
    ensures
        apart(addr, len, other, other_len) <==> forall|i: int|
            !(#[trigger] addr_in(i, addr, len) && addr_in(i, other, other_len)),
{
    if !apart(addr, len, other, other_len) {
        let i = if addr < other {
            other as int
        } else {
            addr as int
        };
        assert(addr_in(i, addr, len) && addr_in(i, other, other_len));
    }
}

/// Whether the byte `i` is one of the `len` bytes that start at `addr`.
pub open spec fn addr_in(i: int, addr: i32, len: nat) -> bool {
    addr <= i < addr + len
}

} // verus!
