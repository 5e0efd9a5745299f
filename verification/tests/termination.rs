//! The boot-service termination state machine against the double.

use uefi_boot::boot::{termination_step, BootServices, TerminationEvent, TerminationState};
use uefi_boot::memory::{
    MemoryAttributes, MemoryDescriptor, MemoryMap, MemoryType, PhysicalAddress, VirtualAddress,
};
use uefi_boot::sim::SimFirmware;
use uefi_boot::status::Error;
use uefi_boot::Handle;

fn region(t: u32, base: u64, pages: u64) -> MemoryDescriptor {
    MemoryDescriptor {
        Type: MemoryType(t),
        PhysicalStart: PhysicalAddress(base),
        VirtualStart: VirtualAddress(0),
        NumberOfPages: pages,
        Attribute: MemoryAttributes(0x8),
    }
}

/// A firmware whose map holds boot-service code, boot-service data, and
/// ordinary regions.
fn staged_firmware() -> SimFirmware {
    let mut fw = SimFirmware::new(40, 1);
    fw.push_region(&region(7, 0x0000, 16)).unwrap();
    fw.push_region(&region(3, 0x1_0000, 4)).unwrap();
    fw.push_region(&region(2, 0x2_0000, 8)).unwrap();
    fw.push_region(&region(4, 0x3_0000, 2)).unwrap();
    fw.push_region(&region(5, 0x4_0000, 1)).unwrap();
    fw
}

fn assert_reclassified(map: &MemoryMap) {
    assert_eq!(map.len(), 5);
    // no boot-service tag survives
    for i in 0..map.len() {
        let d = map.descriptor_at(i);
        assert_ne!(d.Type, MemoryType(3));
        assert_ne!(d.Type, MemoryType(4));
    }
    // boot-service regions became conventional, others kept their tag,
    // and every other field is untouched
    assert_eq!(map.descriptor_at(0), region(7, 0x0000, 16));
    assert_eq!(map.descriptor_at(1), region(7, 0x1_0000, 4));
    assert_eq!(map.descriptor_at(2), region(2, 0x2_0000, 8));
    assert_eq!(map.descriptor_at(3), region(7, 0x3_0000, 2));
    assert_eq!(map.descriptor_at(4), region(5, 0x4_0000, 1));
}

#[test]
fn first_attempt_succeeds_without_recovery() {
    let mut boot = BootServices::new(staged_firmware());
    let map = boot.exit_boot_services(Handle(1)).unwrap();
    assert!(boot.firmware.terminated);
    assert_eq!(boot.firmware.terminate_count, 1);
    assert_eq!(boot.firmware.query_count, 1);
    assert_reclassified(&map);
}

#[test]
fn one_stale_key_recovers_exactly_once() {
    let mut fw = staged_firmware();
    // the key goes stale exactly once between snapshot and termination
    fw.pending_map_changes = 1;
    let mut boot = BootServices::new(fw);
    let map = boot.exit_boot_services(Handle(1)).unwrap();
    assert!(boot.firmware.terminated);
    // one rejected attempt, one recovery attempt that was accepted
    assert_eq!(boot.firmware.terminate_count, 2);
    // one snapshot query, one allocation-free re-query
    assert_eq!(boot.firmware.query_count, 2);
    // the recovery reused the buffer: no allocation beyond the snapshot's
    assert_eq!(boot.firmware.alloc_log, vec![1]);
    assert_reclassified(&map);
}

#[test]
fn twice_rejected_key_aborts_after_one_recovery() {
    let mut fw = staged_firmware();
    // the key is stale at the first attempt and again at the recovery
    fw.pending_map_changes = 2;
    let mut boot = BootServices::new(fw);
    let r = boot.exit_boot_services(Handle(1));
    assert_eq!(r.err(), Some(Error::Aborted));
    assert!(!boot.firmware.terminated);
    // exactly two attempts: the first and one recovery — never a third
    assert_eq!(boot.firmware.terminate_count, 2);
    assert_eq!(boot.firmware.query_count, 2);
    // no allocation happened after the first attempt
    assert_eq!(boot.firmware.alloc_log, vec![1]);
}

#[test]
fn failed_requery_aborts() {
    let mut fw = staged_firmware();
    fw.pending_map_changes = 1;
    // the allocation-free re-query — the second query overall — fails
    fw.fail_query_at = 2;
    let mut boot = BootServices::new(fw);
    let r = boot.exit_boot_services(Handle(1));
    assert_eq!(r.err(), Some(Error::Aborted));
    assert!(!boot.firmware.terminated);
    // the first attempt was rejected and the recovery never reached a
    // second attempt
    assert_eq!(boot.firmware.terminate_count, 1);
    assert_eq!(boot.firmware.query_count, 2);
}

#[test]
fn explicit_handoff_with_map_key() {
    let mut boot = BootServices::new(staged_firmware());
    let map = boot
        .get_memory_map(MemoryType::from(
            uefi_boot::memory::NamedMemoryType::LoaderData,
        ))
        .unwrap();
    assert!(boot
        .exit_boot_services_with_map(Handle(1), map.key())
        .is_ok());
    assert!(boot.firmware.terminated);
}

#[test]
fn stale_key_is_rejected_by_the_raw_handoff() {
    let mut boot = BootServices::new(staged_firmware());
    let map = boot
        .get_memory_map(MemoryType::from(
            uefi_boot::memory::NamedMemoryType::LoaderData,
        ))
        .unwrap();
    assert_eq!(
        boot.exit_boot_services_with_map(Handle(1), map.key() + 1).err(),
        Some(Error::InvalidParameter)
    );
    assert!(!boot.firmware.terminated);
}

#[test]
fn termination_machine_single_recovery() {
    // from Recovering, every event lands in a terminal state
    assert_eq!(
        termination_step(TerminationState::Recovering, TerminationEvent::KeyAccepted),
        TerminationState::Terminated
    );
    assert_eq!(
        termination_step(TerminationState::Recovering, TerminationEvent::KeyRejected),
        TerminationState::Aborted
    );
    assert_eq!(
        termination_step(TerminationState::Recovering, TerminationEvent::RequeryFailed),
        TerminationState::Aborted
    );
    assert_eq!(
        termination_step(TerminationState::Ready, TerminationEvent::Start),
        TerminationState::Attempting
    );
    assert_eq!(
        termination_step(TerminationState::Attempting, TerminationEvent::KeyRejected),
        TerminationState::Recovering
    );
    assert_eq!(
        termination_step(TerminationState::Attempting, TerminationEvent::KeyAccepted),
        TerminationState::Terminated
    );
}
