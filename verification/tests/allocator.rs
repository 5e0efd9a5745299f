//! The page allocator over the firmware double: accounting and errors.

use uefi_boot::boot::BootServices;
use uefi_boot::memory::{MemoryType, NamedMemoryType};
use uefi_boot::sim::SimFirmware;
use uefi_boot::status::Error;

fn loader_data() -> MemoryType {
    MemoryType::from(NamedMemoryType::LoaderData)
}

#[test]
fn allocate_then_release_restores_accounting() {
    let mut boot = BootServices::new(SimFirmware::new(40, 1));
    for pages in [1usize, 2, 7, 64] {
        let before = boot.firmware.allocated_pages;
        let address = boot.allocate_pages(loader_data(), pages).unwrap();
        assert_eq!(boot.firmware.allocated_pages, before + pages);
        boot.free_pages(address, pages).unwrap();
        assert_eq!(boot.firmware.allocated_pages, before);
    }
    assert_eq!(boot.firmware.alloc_log, vec![1, 2, 7, 64]);
    assert_eq!(boot.firmware.free_log, vec![1, 2, 7, 64]);
}

#[test]
fn zero_pages_is_a_parameter_error() {
    let mut boot = BootServices::new(SimFirmware::new(40, 1));
    assert_eq!(
        boot.allocate_pages(loader_data(), 0).err(),
        Some(Error::InvalidParameter)
    );
    assert_eq!(boot.firmware.allocated_pages, 0);
}

#[test]
fn exhaustion_is_surfaced_not_retried() {
    let mut fw = SimFirmware::new(40, 1);
    fw.fail_allocations = 1;
    let mut boot = BootServices::new(fw);
    assert_eq!(
        boot.allocate_pages(loader_data(), 1).err(),
        Some(Error::OutOfResources)
    );
    // exactly one attempt was made
    assert_eq!(boot.firmware.alloc_log, vec![1]);
    // the next attempt succeeds
    assert!(boot.allocate_pages(loader_data(), 1).is_ok());
}

#[test]
fn releasing_an_unknown_allocation_fails() {
    let mut boot = BootServices::new(SimFirmware::new(40, 1));
    let address = boot.allocate_pages(loader_data(), 2).unwrap();
    // wrong page count
    assert_eq!(
        boot.free_pages(address, 3).err(),
        Some(Error::InvalidParameter)
    );
    // wrong address
    assert_eq!(
        boot.free_pages(address + 1, 2).err(),
        Some(Error::InvalidParameter)
    );
    assert_eq!(boot.firmware.allocated_pages, 2);
    boot.free_pages(address, 2).unwrap();
    // releasing twice fails
    assert_eq!(
        boot.free_pages(address, 2).err(),
        Some(Error::InvalidParameter)
    );
    assert_eq!(boot.firmware.allocated_pages, 0);
}

#[test]
fn pool_allocation_round_trip() {
    let mut boot = BootServices::new(SimFirmware::new(40, 1));
    let address = boot.allocate_pool(loader_data(), 100).unwrap();
    assert!(boot.free_pool(address).is_ok());
}
