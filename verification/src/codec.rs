//! Byte-level layout of memory map records.
//!
//! A map buffer is a run of records, each `stride` bytes wide, where the
//! stride is chosen by the firmware and may exceed the
//! [`MEMORY_DESCRIPTOR_SIZE`] bytes this library knows how to read.  The
//! known prefix holds, little-endian: the classification code at offset 0,
//! the physical start at 8, the virtual start at 16, the page count at 24 and
//! the attribute bits at 32.  Bytes 4 to 8 are padding and everything from
//! byte 40 up to the stride belongs to the firmware and is preserved
//! untouched.

use vstd::arithmetic::div_mod::{lemma_div_denominator, lemma_fundamental_div_mod};
use vstd::prelude::*;

use crate::memory::{
    MemoryAttributes, MemoryDescriptor, MemoryType, PhysicalAddress, VirtualAddress,
};

verus! {

/// The smallest record width any compliant firmware may report: the size of
/// the known descriptor prefix.
pub const MEMORY_DESCRIPTOR_SIZE: usize = 40;

/// The 32-bit value stored little-endian at byte offset `i`.
pub open spec fn le_u32_at(s: Seq<u8>, i: int) -> u32
    recommends
        0 <= i,
        i + 4 <= s.len(),
{
    (s[i] + s[i + 1] * 0x100 + s[i + 2] * 0x1_0000 + s[i + 3] * 0x100_0000) as u32
}

/// The 64-bit value stored little-endian at byte offset `i`.
pub open spec fn le_u64_at(s: Seq<u8>, i: int) -> u64
    recommends
        0 <= i,
        i + 8 <= s.len(),
{
    (s[i] + s[i + 1] * 0x100 + s[i + 2] * 0x1_0000 + s[i + 3] * 0x100_0000 + s[i + 4]
        * 0x1_0000_0000 + s[i + 5] * 0x100_0000_0000 + s[i + 6] * 0x1_0000_0000_0000 + s[i + 7]
        * 0x100_0000_0000_0000) as u64
}

/// The descriptor encoded in the known prefix of the record at byte offset
/// `off`.
pub open spec fn spec_decode_descriptor(s: Seq<u8>, off: int) -> MemoryDescriptor
    recommends
        0 <= off,
        off + MEMORY_DESCRIPTOR_SIZE <= s.len(),
{
    MemoryDescriptor {
        Type: MemoryType(le_u32_at(s, off)),
        PhysicalStart: PhysicalAddress(le_u64_at(s, off + 8)),
        VirtualStart: VirtualAddress(le_u64_at(s, off + 16)),
        NumberOfPages: le_u64_at(s, off + 24),
        Attribute: MemoryAttributes(le_u64_at(s, off + 32)),
    }
}

/// Reads the 32-bit little-endian value at byte offset `off`.
pub fn read_u32_le(buf: &Vec<u8>, off: usize) -> (r: u32)
    requires
        off + 4 <= buf.len(),
    ensures
        r == le_u32_at(buf@, off as int),
{
    (buf[off] as u32) + (buf[off + 1] as u32) * 0x100 + (buf[off + 2] as u32) * 0x1_0000 + (buf[off
        + 3] as u32) * 0x100_0000
}

/// Reads the 64-bit little-endian value at byte offset `off`.
pub fn read_u64_le(buf: &Vec<u8>, off: usize) -> (r: u64)
    requires
        off + 8 <= buf.len(),
    ensures
        r == le_u64_at(buf@, off as int),
{
    (buf[off] as u64) + (buf[off + 1] as u64) * 0x100 + (buf[off + 2] as u64) * 0x1_0000 + (buf[off
        + 3] as u64) * 0x100_0000 + (buf[off + 4] as u64) * 0x1_0000_0000 + (buf[off + 5] as u64)
        * 0x100_0000_0000 + (buf[off + 6] as u64) * 0x1_0000_0000_0000 + (buf[off + 7] as u64)
        * 0x100_0000_0000_0000
}

/// A 32-bit value equals the little-endian recombination of its four bytes.
proof fn lemma_u32_digits(v: u32)
    ensures
        v == (v as int % 0x100) + ((v as int / 0x100) % 0x100) * 0x100 + ((v as int / 0x1_0000)
            % 0x100) * 0x1_0000 + ((v as int / 0x100_0000) % 0x100) * 0x100_0000,
{
    let x = v as int;
    lemma_fundamental_div_mod(x, 0x100);
    lemma_div_denominator(x, 0x100, 0x100);
    lemma_fundamental_div_mod(x / 0x100, 0x100);
    lemma_div_denominator(x, 0x1_0000, 0x100);
    lemma_fundamental_div_mod(x / 0x1_0000, 0x100);
    assert(x / 0x100_0000 < 0x100);
    assert(x / 0x100_0000 >= 0) by {
        assert(x >= 0);
    }
    assert((x / 0x100_0000) % 0x100 == x / 0x100_0000);
}

/// A 64-bit value equals the little-endian recombination of its eight bytes.
proof fn lemma_u64_digits(v: u64)
    ensures
        v == (v as int % 0x100) + ((v as int / 0x100) % 0x100) * 0x100 + ((v as int / 0x1_0000)
            % 0x100) * 0x1_0000 + ((v as int / 0x100_0000) % 0x100) * 0x100_0000 + ((v as int
            / 0x1_0000_0000) % 0x100) * 0x1_0000_0000 + ((v as int / 0x100_0000_0000) % 0x100)
            * 0x100_0000_0000 + ((v as int / 0x1_0000_0000_0000) % 0x100) * 0x1_0000_0000_0000 + ((
        v as int / 0x100_0000_0000_0000) % 0x100) * 0x100_0000_0000_0000,
{
    let x = v as int;
    lemma_fundamental_div_mod(x, 0x100);
    lemma_div_denominator(x, 0x100, 0x100);
    lemma_fundamental_div_mod(x / 0x100, 0x100);
    lemma_div_denominator(x, 0x1_0000, 0x100);
    lemma_fundamental_div_mod(x / 0x1_0000, 0x100);
    lemma_div_denominator(x, 0x100_0000, 0x100);
    lemma_fundamental_div_mod(x / 0x100_0000, 0x100);
    lemma_div_denominator(x, 0x1_0000_0000, 0x100);
    lemma_fundamental_div_mod(x / 0x1_0000_0000, 0x100);
    lemma_div_denominator(x, 0x100_0000_0000, 0x100);
    lemma_fundamental_div_mod(x / 0x100_0000_0000, 0x100);
    lemma_div_denominator(x, 0x1_0000_0000_0000, 0x100);
    lemma_fundamental_div_mod(x / 0x1_0000_0000_0000, 0x100);
    assert(x / 0x100_0000_0000_0000 < 0x100);
    assert(x / 0x100_0000_0000_0000 >= 0) by {
        assert(x >= 0);
    }
    assert((x / 0x100_0000_0000_0000) % 0x100 == x / 0x100_0000_0000_0000);
}

/// Overwrites the four bytes at `off` with `v`, little-endian.  Every other
/// byte keeps its value.
pub fn write_u32_le(buf: &mut Vec<u8>, off: usize, v: u32)
    requires
        off + 4 <= old(buf).len(),
    ensures
        final(buf)@.len() == old(buf)@.len(),
        le_u32_at(final(buf)@, off as int) == v,
        forall|j: int|
            0 <= j < old(buf)@.len() && !(off <= j < off + 4) ==> final(buf)@[j] == old(buf)@[j],
{
    buf.set(off, (v % 0x100) as u8);
    buf.set(off + 1, ((v / 0x100) % 0x100) as u8);
    buf.set(off + 2, ((v / 0x1_0000) % 0x100) as u8);
    buf.set(off + 3, ((v / 0x100_0000) % 0x100) as u8);
    proof {
        lemma_u32_digits(v);
    }
}

/// Appends the four bytes of `v`, little-endian.
pub fn push_u32_le(buf: &mut Vec<u8>, v: u32)
    requires
        old(buf).len() + 4 <= usize::MAX,
    ensures
        final(buf)@.len() == old(buf)@.len() + 4,
        le_u32_at(final(buf)@, old(buf)@.len() as int) == v,
        forall|j: int| 0 <= j < old(buf)@.len() ==> final(buf)@[j] == old(buf)@[j],
{
    buf.push((v % 0x100) as u8);
    buf.push(((v / 0x100) % 0x100) as u8);
    buf.push(((v / 0x1_0000) % 0x100) as u8);
    buf.push(((v / 0x100_0000) % 0x100) as u8);
    proof {
        lemma_u32_digits(v);
    }
}

/// Appends the eight bytes of `v`, little-endian.
pub fn push_u64_le(buf: &mut Vec<u8>, v: u64)
    requires
        old(buf).len() + 8 <= usize::MAX,
    ensures
        final(buf)@.len() == old(buf)@.len() + 8,
        le_u64_at(final(buf)@, old(buf)@.len() as int) == v,
        forall|j: int| 0 <= j < old(buf)@.len() ==> final(buf)@[j] == old(buf)@[j],
{
    buf.push((v % 0x100) as u8);
    buf.push(((v / 0x100) % 0x100) as u8);
    buf.push(((v / 0x1_0000) % 0x100) as u8);
    buf.push(((v / 0x100_0000) % 0x100) as u8);
    buf.push(((v / 0x1_0000_0000) % 0x100) as u8);
    buf.push(((v / 0x100_0000_0000) % 0x100) as u8);
    buf.push(((v / 0x1_0000_0000_0000) % 0x100) as u8);
    buf.push(((v / 0x100_0000_0000_0000) % 0x100) as u8);
    proof {
        lemma_u64_digits(v);
    }
}

/// Decodes the known prefix of the record at byte offset `off`.
pub fn decode_descriptor(buf: &Vec<u8>, off: usize) -> (d: MemoryDescriptor)
    requires
        off + MEMORY_DESCRIPTOR_SIZE <= buf.len(),
    ensures
        d == spec_decode_descriptor(buf@, off as int),
{
    MemoryDescriptor {
        Type: MemoryType(read_u32_le(buf, off)),
        PhysicalStart: PhysicalAddress(read_u64_le(buf, off + 8)),
        VirtualStart: VirtualAddress(read_u64_le(buf, off + 16)),
        NumberOfPages: read_u64_le(buf, off + 24),
        Attribute: MemoryAttributes(read_u64_le(buf, off + 32)),
    }
}

/// Appends one record of width `stride` holding `d`.
///
/// Law (codec round trip): decoding the appended record returns exactly `d`;
/// padding and the trailing bytes beyond the known prefix are zero, and the
/// bytes already in the buffer keep their values.
pub fn append_descriptor(buf: &mut Vec<u8>, d: &MemoryDescriptor, stride: usize)
    requires
        stride >= MEMORY_DESCRIPTOR_SIZE,
        old(buf).len() + stride <= usize::MAX,
    ensures
        final(buf)@.len() == old(buf)@.len() + stride,
        forall|j: int| 0 <= j < old(buf)@.len() ==> final(buf)@[j] == old(buf)@[j],
        spec_decode_descriptor(final(buf)@, old(buf)@.len() as int) == *d,
        forall|j: int|
            old(buf)@.len() + MEMORY_DESCRIPTOR_SIZE <= j < final(buf)@.len() ==> final(buf)@[j]
                == 0u8,
{
    let ghost start = buf@.len() as int;
    push_u32_le(buf, d.Type.0);
    push_u32_le(buf, 0);
    push_u64_le(buf, d.PhysicalStart.0);
    push_u64_le(buf, d.VirtualStart.0);
    push_u64_le(buf, d.NumberOfPages);
    push_u64_le(buf, d.Attribute.0);
    let ghost prefix_done = buf@;
    proof {
        assert(prefix_done.len() == start + MEMORY_DESCRIPTOR_SIZE);
    }
    let mut written: usize = MEMORY_DESCRIPTOR_SIZE;
    while written < stride
        invariant
            0 <= start,
            MEMORY_DESCRIPTOR_SIZE <= written <= stride,
            buf@.len() == start + written,
            start + stride <= usize::MAX,
            forall|j: int|
                0 <= j < start + MEMORY_DESCRIPTOR_SIZE ==> buf@[j] == prefix_done[j],
            forall|j: int| start + MEMORY_DESCRIPTOR_SIZE <= j < buf@.len() ==> buf@[j] == 0u8,
        decreases stride - written,
    {
        let ghost before = buf@;
        buf.push(0);
        written = written + 1;
        proof {
            assert(buf@ == before.push(0u8));
            assert forall|j: int|
                start + MEMORY_DESCRIPTOR_SIZE <= j < buf@.len() implies buf@[j] == 0u8 by {
                if j < before.len() {
                    assert(buf@[j] == before[j]);
                } else {
                    assert(buf@[j] == 0u8);
                }
            }
        }
    }
}

} // verus!
