//! Record layout: little-endian fields, encode/decode round trips.

use uefi_boot::codec::{
    append_descriptor, decode_descriptor, push_u32_le, push_u64_le, read_u32_le, read_u64_le,
    write_u32_le, MEMORY_DESCRIPTOR_SIZE,
};
use uefi_boot::memory::{
    MemoryAttributes, MemoryDescriptor, MemoryType, PhysicalAddress, VirtualAddress,
};

fn sample_descriptor() -> MemoryDescriptor {
    MemoryDescriptor {
        Type: MemoryType(7),
        PhysicalStart: PhysicalAddress(0x0000_1234_5678_9000),
        VirtualStart: VirtualAddress(0xffff_8000_0000_0000),
        NumberOfPages: 0x42,
        Attribute: MemoryAttributes(0x8000_0000_0000_000f),
    }
}

#[test]
fn little_endian_round_trip_u32() {
    let mut buf: Vec<u8> = Vec::new();
    push_u32_le(&mut buf, 0xdead_beef);
    assert_eq!(buf, vec![0xef, 0xbe, 0xad, 0xde]);
    assert_eq!(read_u32_le(&buf, 0), 0xdead_beef);
}

#[test]
fn little_endian_round_trip_u64() {
    let mut buf: Vec<u8> = Vec::new();
    push_u64_le(&mut buf, 0x0102_0304_0506_0708);
    assert_eq!(buf, vec![8, 7, 6, 5, 4, 3, 2, 1]);
    assert_eq!(read_u64_le(&buf, 0), 0x0102_0304_0506_0708);
}

#[test]
fn write_u32_changes_only_its_four_bytes() {
    let mut buf = vec![0xaa_u8; 12];
    write_u32_le(&mut buf, 4, 0x0403_0201);
    assert_eq!(
        buf,
        vec![0xaa, 0xaa, 0xaa, 0xaa, 1, 2, 3, 4, 0xaa, 0xaa, 0xaa, 0xaa]
    );
}

#[test]
fn descriptor_round_trip_at_minimum_stride() {
    let d = sample_descriptor();
    let mut buf: Vec<u8> = Vec::new();
    append_descriptor(&mut buf, &d, MEMORY_DESCRIPTOR_SIZE);
    assert_eq!(buf.len(), MEMORY_DESCRIPTOR_SIZE);
    assert_eq!(decode_descriptor(&buf, 0), d);
}

#[test]
fn descriptor_round_trip_with_wide_stride() {
    let d = sample_descriptor();
    let mut buf: Vec<u8> = Vec::new();
    append_descriptor(&mut buf, &d, 48);
    assert_eq!(buf.len(), 48);
    assert_eq!(decode_descriptor(&buf, 0), d);
    // the bytes past the known prefix are zero padding
    assert_eq!(&buf[MEMORY_DESCRIPTOR_SIZE..], &[0u8; 8]);
}

#[test]
fn descriptors_append_in_sequence() {
    let d = sample_descriptor();
    let mut other = d;
    other.Type = MemoryType(3);
    other.NumberOfPages = 9;
    let mut buf: Vec<u8> = Vec::new();
    append_descriptor(&mut buf, &d, 40);
    append_descriptor(&mut buf, &other, 40);
    assert_eq!(buf.len(), 80);
    assert_eq!(decode_descriptor(&buf, 0), d);
    assert_eq!(decode_descriptor(&buf, 40), other);
}

#[test]
fn field_offsets_follow_the_layout() {
    let d = sample_descriptor();
    let mut buf: Vec<u8> = Vec::new();
    append_descriptor(&mut buf, &d, 40);
    assert_eq!(read_u32_le(&buf, 0), 7); // classification
    assert_eq!(read_u32_le(&buf, 4), 0); // padding
    assert_eq!(read_u64_le(&buf, 8), 0x0000_1234_5678_9000);
    assert_eq!(read_u64_le(&buf, 16), 0xffff_8000_0000_0000);
    assert_eq!(read_u64_le(&buf, 24), 0x42);
    assert_eq!(read_u64_le(&buf, 32), 0x8000_0000_0000_000f);
}
