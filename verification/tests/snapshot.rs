//! The owned memory map snapshot: validation, iteration, in-place rewrites.

use uefi_boot::boot::MapReport;
use uefi_boot::codec::append_descriptor;
use uefi_boot::memory::{
    MemoryAttributes, MemoryDescriptor, MemoryMap, MemoryType, PhysicalAddress, VirtualAddress,
    PAGE_SIZE,
};
use uefi_boot::status::Error;

fn region(t: u32, base: u64, pages: u64) -> MemoryDescriptor {
    MemoryDescriptor {
        Type: MemoryType(t),
        PhysicalStart: PhysicalAddress(base),
        VirtualStart: VirtualAddress(0),
        NumberOfPages: pages,
        Attribute: MemoryAttributes(0),
    }
}

/// A one-page buffer holding `records` records of width `stride`, zero
/// padded to the page.
fn page_buffer(records: &[MemoryDescriptor], stride: usize) -> Vec<u8> {
    let mut buf: Vec<u8> = Vec::new();
    for r in records {
        append_descriptor(&mut buf, r, stride);
    }
    while buf.len() < PAGE_SIZE {
        buf.push(0);
    }
    buf
}

#[test]
fn from_parts_rejects_small_stride() {
    let buf = vec![0u8; PAGE_SIZE];
    let r = MemoryMap::from_parts(buf, 0x1000, 1, 0, 1, 24, 1);
    assert_eq!(r.err(), Some(Error::Noncompliant));
}

#[test]
fn from_parts_rejects_inconsistent_sizes() {
    let buf = vec![0u8; PAGE_SIZE];
    let r = MemoryMap::from_parts(buf, 0x1000, 1, PAGE_SIZE + 1, 1, 40, 1);
    assert_eq!(r.err(), Some(Error::InvalidParameter));
    let buf = vec![0u8; PAGE_SIZE - 1];
    let r = MemoryMap::from_parts(buf, 0x1000, 1, 0, 1, 40, 1);
    assert_eq!(r.err(), Some(Error::InvalidParameter));
}

#[test]
fn from_parts_accepts_a_valid_snapshot() {
    let buf = vec![0u8; 2 * PAGE_SIZE];
    let m = MemoryMap::from_parts(buf, 0x1000, 2, 120, 17, 40, 1).unwrap();
    assert_eq!(m.size(), 120);
    assert_eq!(m.key(), 17);
    assert_eq!(m.descriptor_size(), 40);
    assert_eq!(m.version(), 1);
    assert_eq!(m.address(), 0x1000);
    assert_eq!(m.buffer().len(), 2 * PAGE_SIZE);
}

#[test]
fn iteration_yields_length_over_stride_items() {
    let records = [region(7, 0, 1), region(3, 0x1000, 2), region(2, 0x3000, 1)];
    let buf = page_buffer(&records, 48);
    // 144 bytes is a multiple of the 48-byte stride: exactly 3 items
    let m = MemoryMap::from_parts(buf, 0x1000, 1, 144, 1, 48, 1).unwrap();
    assert_eq!(m.len(), 3);
    assert!(!m.is_empty());
    let mut it = m.iter();
    assert_eq!(it.size_hint(), (3, Some(3)));
    assert_eq!(it.next(), Some(records[0]));
    assert_eq!(it.next(), Some(records[1]));
    assert_eq!(it.next(), Some(records[2]));
    assert_eq!(it.size_hint(), (0, Some(0)));
    assert_eq!(it.next(), None);
    assert_eq!(it.next(), None);
}

#[test]
fn iteration_drops_a_trailing_partial_record() {
    let records = [region(7, 0, 1), region(3, 0x1000, 2), region(2, 0x3000, 1)];
    let buf = page_buffer(&records, 48);
    // 150 bytes of 48-byte records: 3 whole records, 6 bytes dropped
    let m = MemoryMap::from_parts(buf.clone(), 0x1000, 1, 150, 1, 48, 1).unwrap();
    assert_eq!(m.len(), 3);
    // 100 bytes: only 2 whole records
    let m = MemoryMap::from_parts(buf, 0x1000, 1, 100, 1, 48, 1).unwrap();
    assert_eq!(m.len(), 2);
    let mut it = m.iter();
    assert_eq!(it.next(), Some(records[0]));
    assert_eq!(it.next(), Some(records[1]));
    assert_eq!(it.next(), None);
}

#[test]
fn empty_snapshot_has_no_items() {
    let buf = vec![0u8; PAGE_SIZE];
    let m = MemoryMap::from_parts(buf, 0x1000, 1, 0, 1, 40, 1).unwrap();
    assert_eq!(m.len(), 0);
    assert!(m.is_empty());
    let mut it = m.iter();
    assert_eq!(it.next(), None);
}

#[test]
fn set_type_at_rewrites_only_the_classification() {
    let records = [region(3, 0, 1), region(4, 0x1000, 2)];
    let mut buf: Vec<u8> = Vec::new();
    append_descriptor(&mut buf, &records[0], 48);
    append_descriptor(&mut buf, &records[1], 48);
    // mark the trailing bytes of the first record so preservation shows
    buf[44] = 0xaa;
    while buf.len() < PAGE_SIZE {
        buf.push(0);
    }
    let mut m = MemoryMap::from_parts(buf, 0x1000, 1, 96, 1, 48, 1).unwrap();
    m.set_type_at(0, MemoryType(7));
    let d0 = m.descriptor_at(0);
    assert_eq!(d0.Type, MemoryType(7));
    assert_eq!(d0.PhysicalStart, records[0].PhysicalStart);
    assert_eq!(d0.NumberOfPages, records[0].NumberOfPages);
    assert_eq!(m.descriptor_at(1), records[1]);
    // the marked trailing byte survived
    assert_eq!(m.buffer()[44], 0xaa);
}

#[test]
fn mutable_cursor_yields_every_index_once() {
    let records = [region(7, 0, 1), region(3, 0x1000, 2)];
    let buf = page_buffer(&records, 40);
    let mut m = MemoryMap::from_parts(buf, 0x1000, 1, 80, 1, 40, 1).unwrap();
    let mut cursor = m.iter_mut();
    assert_eq!(cursor.size_hint(), (2, Some(2)));
    let mut seen = Vec::new();
    while let Some(i) = cursor.next() {
        seen.push(i);
        m.set_type_at(i, MemoryType(8));
    }
    assert_eq!(seen, vec![0, 1]);
    assert_eq!(m.descriptor_at(0).Type, MemoryType(8));
    assert_eq!(m.descriptor_at(1).Type, MemoryType(8));
}

#[test]
fn install_report_pins_the_metadata_to_the_report() {
    let buf = vec![0u8; 2 * PAGE_SIZE];
    let mut m = MemoryMap::from_parts(buf, 0x1000, 2, 120, 17, 40, 1).unwrap();
    let report = MapReport { map_size: 200, key: 23, descriptor_size: 48, version: 2 };
    m.install_report(report).unwrap();
    assert_eq!(m.size(), 200);
    assert_eq!(m.key(), 23);
    assert_eq!(m.descriptor_size(), 48);
    assert_eq!(m.version(), 2);
    // the buffer and its allocation are untouched
    assert_eq!(m.buffer().len(), 2 * PAGE_SIZE);
    assert_eq!(m.address(), 0x1000);
}

#[test]
fn install_report_rejects_a_short_stride_unchanged() {
    let buf = vec![0u8; PAGE_SIZE];
    let mut m = MemoryMap::from_parts(buf, 0x1000, 1, 120, 17, 40, 1).unwrap();
    let report = MapReport { map_size: 96, key: 99, descriptor_size: 24, version: 2 };
    assert_eq!(m.install_report(report).err(), Some(Error::Noncompliant));
    // nothing was installed
    assert_eq!(m.size(), 120);
    assert_eq!(m.key(), 17);
    assert_eq!(m.descriptor_size(), 40);
    assert_eq!(m.version(), 1);
}
