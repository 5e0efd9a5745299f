//! The memory map negotiator: buffer-size negotiation against the double.

use uefi_boot::boot::BootServices;
use uefi_boot::memory::{
    MemoryAttributes, MemoryDescriptor, MemoryType, NamedMemoryType, PhysicalAddress,
    VirtualAddress, PAGE_SIZE,
};
use uefi_boot::sim::SimFirmware;
use uefi_boot::status::Error;

fn loader_data() -> MemoryType {
    MemoryType::from(NamedMemoryType::LoaderData)
}

fn region(t: u32, base: u64) -> MemoryDescriptor {
    MemoryDescriptor {
        Type: MemoryType(t),
        PhysicalStart: PhysicalAddress(base),
        VirtualStart: VirtualAddress(0),
        NumberOfPages: 1,
        Attribute: MemoryAttributes(0),
    }
}

#[test]
fn small_map_fits_the_first_guess() {
    let mut fw = SimFirmware::new(40, 1);
    for i in 0..10u64 {
        fw.push_region(&region(7, i * 0x1000)).unwrap();
    }
    let mut boot = BootServices::new(fw);
    let map = boot.get_memory_map(loader_data()).unwrap();
    assert_eq!(boot.firmware.alloc_log, vec![1]);
    assert_eq!(boot.firmware.free_log, Vec::<usize>::new());
    assert_eq!(boot.firmware.query_count, 1);
    assert_eq!(map.len(), 10);
    assert_eq!(map.descriptor_size(), 40);
    assert_eq!(map.version(), 1);
    assert_eq!(map.key(), boot.firmware.map_key);
    // the snapshot owns whole pages
    assert_eq!(map.buffer().len(), PAGE_SIZE);
    // release the snapshot: accounting returns to zero
    map.drop(&mut boot).unwrap();
    assert_eq!(boot.firmware.allocated_pages, 0);
}

#[test]
fn large_map_regrows_once_with_a_spare_page() {
    // 300 records of 40 bytes: the map needs 12000 bytes, three pages
    let mut fw = SimFirmware::new(40, 1);
    for i in 0..300u64 {
        fw.push_region(&region(7, i * 0x1000)).unwrap();
    }
    let mut boot = BootServices::new(fw);
    let map = boot.get_memory_map(loader_data()).unwrap();
    // guessed one page, released it, allocated ceil(12000 / 4096) + 1 = 4
    assert_eq!(boot.firmware.alloc_log, vec![1, 4]);
    assert_eq!(boot.firmware.free_log, vec![1]);
    // the second fill succeeded
    assert_eq!(boot.firmware.query_count, 2);
    assert_eq!(map.len(), 300);
    assert_eq!(map.size(), 12000);
    assert_eq!(map.buffer().len(), 4 * PAGE_SIZE);
    // exactly one live allocation remains: the snapshot's
    assert_eq!(boot.firmware.allocated_pages, 4);
}

#[test]
fn growing_map_still_converges() {
    // the map gains one record at every query: a deterministic double
    // that grows monotonically must not make the negotiator loop forever
    let mut fw = SimFirmware::new(40, 1);
    for i in 0..150u64 {
        fw.push_region(&region(7, i * 0x1000)).unwrap();
    }
    fw.growth = vec![region(7, 0x200_0000), region(7, 0x201_0000)];
    let mut boot = BootServices::new(fw);
    let map = boot.get_memory_map(loader_data()).unwrap();
    // first query: 151 records (6040 bytes) > one page, too small;
    // second query: 152 records (6080 bytes) fit the regrown buffer
    assert_eq!(boot.firmware.query_count, 2);
    assert_eq!(map.len(), 152);
}

#[test]
fn noncompliant_stride_fails_fast() {
    // a firmware reporting records narrower than the smallest valid
    // descriptor is broken; no malformed item may come out
    let fw = SimFirmware::new(24, 1);
    let mut boot = BootServices::new(fw);
    assert_eq!(
        boot.get_memory_map(loader_data()).err(),
        Some(Error::Noncompliant)
    );
}

#[test]
fn staging_a_region_needs_a_valid_stride_and_room() {
    // a short stride cannot stage records at all
    let mut fw = SimFirmware::new(24, 1);
    assert_eq!(
        fw.push_region(&region(7, 0)).err(),
        Some(Error::Noncompliant)
    );
    assert_eq!(fw.map_bytes.len(), 0);
    // a valid stride stages exactly one record per call
    let mut fw = SimFirmware::new(40, 1);
    fw.push_region(&region(7, 0)).unwrap();
    assert_eq!(fw.map_bytes.len(), 40);
}

#[test]
fn allocation_failure_surfaces() {
    let mut fw = SimFirmware::new(40, 1);
    fw.fail_allocations = 1;
    let mut boot = BootServices::new(fw);
    assert_eq!(
        boot.get_memory_map(loader_data()).err(),
        Some(Error::OutOfResources)
    );
}

#[test]
fn regrowth_allocation_failure_surfaces() {
    let mut fw = SimFirmware::new(40, 1);
    for i in 0..300u64 {
        fw.push_region(&region(7, i * 0x1000)).unwrap();
    }
    // leave address space for the one-page guess but not for the regrown
    // buffer: the regrowth allocation fails and the error surfaces
    fw.next_address = u64::MAX - 2 * (PAGE_SIZE as u64);
    let mut boot = BootServices::new(fw);
    assert_eq!(
        boot.get_memory_map(loader_data()).err(),
        Some(Error::OutOfResources)
    );
    assert_eq!(boot.firmware.alloc_log, vec![1, 4]);
    assert_eq!(boot.firmware.free_log, vec![1]);
}
