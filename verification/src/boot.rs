//! Boot services: the firmware calls available before the one-way handoff.
//!
//! The firmware's call table is an opaque service; [`FirmwareServices`] gives
//! it a shape, one method per logical call, with only the guarantees the
//! platform contract makes about every compliant firmware.  [`BootServices`]
//! wraps such a service and builds the library's core on top of it: the page
//! allocator wrappers, the memory map negotiator, and the boot-service
//! termination state machine.

use vstd::prelude::*;

use crate::codec::MEMORY_DESCRIPTOR_SIZE;
use crate::memory::{MemoryMap, MemoryType, NamedMemoryType, PAGE_SIZE};
use crate::status::{Error, Status, STATUS_BUFFER_TOO_SMALL};
use vstd::arithmetic::div_mod::lemma_fundamental_div_mod;
use vstd::arithmetic::mul::lemma_mul_inequality;
use crate::{Event, Handle};

verus! {

/// Indicates whether an interface is supplied in native form.
pub enum InterfaceType {
    /// The interface is supplied in native form.
    Native,
}

/// Specifies which handles a handle-database search returns.
pub enum LocateSearchType {
    /// Every handle in the handle database.
    AllHandles,
    /// The next handle that is new for a notification registration.
    ByRegisterNotify,
    /// Every handle that supports a given protocol.
    ByProtocol,
}

/// What the firmware reports about the memory map when asked to fill a
/// buffer: the bytes actually required, the reclamation key that ties a
/// termination request to this exact snapshot, the record stride, and the
/// record format version.
#[derive(Clone, Copy, Debug, PartialEq, Eq, Structural)]
pub struct MapReport {
    /// Bytes the whole map occupies; on a too-small answer, the size needed.
    pub map_size: usize,
    /// The reclamation key of this snapshot.
    pub key: usize,
    /// The byte width of one record; may exceed the known prefix.
    pub descriptor_size: usize,
    /// The record format version.
    pub version: u32,
}

/// The firmware's boot-time call table, as a capability interface.
///
/// Each method stands for one raw firmware call and promises no more than
/// the platform contract does of every compliant firmware; all outcomes a
/// firmware may produce are left open.  The production binding would
/// dispatch through the real call table; [`crate::sim::SimFirmware`] is the
/// verified in-memory implementation.
pub trait FirmwareServices: Sized {
    /// Blocks until one of `events` fires and reports which.  The platform
    /// contract promises a valid index on success.
    fn wait_for_event(&mut self, events: &[Event]) -> (r: (Status, usize))
        ensures
            !r.0.is_error() ==> r.1 < events@.len(),
    ;

    /// Asks for `pages` whole pages of memory of class `memory_type`;
    /// returns the physical address on success.
    fn allocate_pages(&mut self, alloc_type: usize, memory_type: MemoryType, pages: usize) -> (r: (
        Status,
        u64,
    ));

    /// Gives `pages` pages starting at `memory` back to the firmware.
    fn free_pages(&mut self, memory: u64, pages: usize) -> (r: Status);

    /// Asks the firmware to fill `buffer` (of which `map_size` bytes may be
    /// used) with the current memory map.  On success the report's size is
    /// what was written; on a too-small answer it is the size required,
    /// which is strictly more than was offered.  The buffer keeps its
    /// length either way.
    fn get_memory_map(&mut self, map_size: usize, buffer: &mut Vec<u8>) -> (r: (Status, MapReport))
        requires
            map_size <= old(buffer).len(),
        ensures
            final(buffer)@.len() == old(buffer)@.len(),
            r.0.is_success() ==> r.1.map_size <= map_size,
            r.0.0 == STATUS_BUFFER_TOO_SMALL ==> r.1.map_size > map_size,
    ;

    /// Asks for `size` bytes of pool memory of class `memory_type`.
    fn allocate_pool(&mut self, memory_type: MemoryType, size: usize) -> (r: (Status, u64));

    /// Gives pool memory back to the firmware.
    fn free_pool(&mut self, buffer: u64) -> (r: Status);

    /// Requests the one-way handoff: accepted only if `map_key` matches the
    /// firmware's current map generation.
    fn exit_boot_services(&mut self, image_handle: Handle, map_key: usize) -> (r: Status);
}

/// The states of the boot-service termination machine.
#[derive(Clone, Copy, Debug, PartialEq, Eq, Structural)]
pub enum TerminationState {
    /// A snapshot and its key are in hand; nothing attempted yet.
    Ready,
    /// The first handoff request is in flight.
    Attempting,
    /// The key was stale; the single allocation-free recovery is in flight.
    Recovering,
    /// The firmware has relinquished the platform.
    Terminated,
    /// The recovery path is exhausted; the platform state is indeterminate.
    Aborted,
}

/// The events that drive the termination machine.
#[derive(Clone, Copy, Debug, PartialEq, Eq, Structural)]
pub enum TerminationEvent {
    /// The caller requests termination.
    Start,
    /// The firmware accepted the reclamation key.
    KeyAccepted,
    /// The firmware rejected the reclamation key.
    KeyRejected,
    /// The allocation-free re-query of the map failed.
    RequeryFailed,
}

/// Which events may arrive in which states.
pub open spec fn spec_termination_step_allowed(
    state: TerminationState,
    event: TerminationEvent,
) -> bool {
    match (state, event) {
        (TerminationState::Ready, TerminationEvent::Start) => true,
        (TerminationState::Attempting, TerminationEvent::KeyAccepted) => true,
        (TerminationState::Attempting, TerminationEvent::KeyRejected) => true,
        (TerminationState::Recovering, TerminationEvent::KeyAccepted) => true,
        (TerminationState::Recovering, TerminationEvent::KeyRejected) => true,
        (TerminationState::Recovering, TerminationEvent::RequeryFailed) => true,
        _ => false,
    }
}

/// The transition function of the termination machine.
///
/// A rejected key moves the machine from `Attempting` into `Recovering`,
/// and from `Recovering` every failure lands in `Aborted`: the recovery
/// path exists exactly once.
pub open spec fn spec_termination_step(
    state: TerminationState,
    event: TerminationEvent,
) -> TerminationState {
    match (state, event) {
        (TerminationState::Ready, TerminationEvent::Start) => TerminationState::Attempting,
        (TerminationState::Attempting, TerminationEvent::KeyAccepted) => TerminationState::Terminated,
        (TerminationState::Attempting, TerminationEvent::KeyRejected) => TerminationState::Recovering,
        (TerminationState::Recovering, TerminationEvent::KeyAccepted) => TerminationState::Terminated,
        (TerminationState::Recovering, TerminationEvent::KeyRejected) => TerminationState::Aborted,
        (TerminationState::Recovering, TerminationEvent::RequeryFailed) => TerminationState::Aborted,
        (s, _) => s,
    }
}

/// Advances the termination machine by one event.
pub fn termination_step(state: TerminationState, event: TerminationEvent) -> (r: TerminationState)
    requires
        spec_termination_step_allowed(state, event),
    ensures
        r == spec_termination_step(state, event),
{
    match (state, event) {
        (TerminationState::Ready, TerminationEvent::Start) => TerminationState::Attempting,
        (TerminationState::Attempting, TerminationEvent::KeyAccepted) => TerminationState::Terminated,
        (TerminationState::Attempting, TerminationEvent::KeyRejected) => TerminationState::Recovering,
        (TerminationState::Recovering, TerminationEvent::KeyAccepted) => TerminationState::Terminated,
        (TerminationState::Recovering, TerminationEvent::KeyRejected) => TerminationState::Aborted,
        (TerminationState::Recovering, TerminationEvent::RequeryFailed) => TerminationState::Aborted,
        (s, _) => s,
    }
}

/// Law: recovery happens at most once.  Whatever event arrives while the
/// machine is `Recovering`, the next state is terminal — `Terminated` or
/// `Aborted` — never a second attempt or a second recovery.
pub proof fn lemma_single_recovery(event: TerminationEvent)
    requires
        spec_termination_step_allowed(TerminationState::Recovering, event),
    ensures
        spec_termination_step(TerminationState::Recovering, event) == TerminationState::Terminated
            || spec_termination_step(TerminationState::Recovering, event)
            == TerminationState::Aborted,
{
}

/// Law: the terminal states absorb every event.
pub proof fn lemma_terminal_states_absorb(event: TerminationEvent)
    ensures
        spec_termination_step(TerminationState::Terminated, event) == TerminationState::Terminated,
        spec_termination_step(TerminationState::Aborted, event) == TerminationState::Aborted,
{
}

/// The boot services, built over an opaque firmware call table.
pub struct BootServices<S: FirmwareServices> {
    /// The underlying firmware service.
    pub firmware: S,
}

impl<S: FirmwareServices> BootServices<S> {
    /// Wraps a firmware service.
    pub fn new(firmware: S) -> (r: BootServices<S>) {
        BootServices { firmware }
    }

    /// Stops execution until one of `events` is signaled; returns the one
    /// that fired.
    pub fn wait_for_events<'a>(&mut self, events: &'a [Event]) -> (r: Result<&'a Event, Error>)
        ensures
            r matches Ok(e) ==> events@.contains(*e),
    {
        let (status, index) = self.firmware.wait_for_event(events);
        match status.into_result() {
            Err(e) => Err(e),
            Ok(_) => Ok(&events[index]),
        }
    }

    /// Stops execution until `event` is signaled.
    pub fn wait_for_event(&mut self, event: &Event) -> (r: Result<(), Error>) {
        let events = [*event];
        let (status, _index) = self.firmware.wait_for_event(events.as_slice());
        match status.into_result() {
            Err(e) => Err(e),
            Ok(_) => Ok(()),
        }
    }

    /// Allocates `pages` whole pages of memory of class `memory_type` and
    /// returns the physical address.  Errors are surfaced, never retried
    /// here; retry policy belongs to the callers.
    pub fn allocate_pages(&mut self, memory_type: MemoryType, pages: usize) -> (r: Result<
        u64,
        Error,
    >) {
        let (status, address) = self.firmware.allocate_pages(0, memory_type, pages);
        match status.into_result() {
            Err(e) => Err(e),
            Ok(_) => Ok(address),
        }
    }

    /// Gives `pages` pages starting at `memory` back to the firmware.
    pub fn free_pages(&mut self, memory: u64, pages: usize) -> (r: Result<(), Error>) {
        let status = self.firmware.free_pages(memory, pages);
        match status.into_result() {
            Err(e) => Err(e),
            Ok(_) => Ok(()),
        }
    }

    /// Allocates `size` bytes of pool memory of class `memory_type`.
    pub fn allocate_pool(&mut self, memory_type: MemoryType, size: usize) -> (r: Result<
        u64,
        Error,
    >) {
        let (status, address) = self.firmware.allocate_pool(memory_type, size);
        match status.into_result() {
            Err(e) => Err(e),
            Ok(_) => Ok(address),
        }
    }

    /// Gives pool memory back to the firmware.
    pub fn free_pool(&mut self, buffer: u64) -> (r: Result<(), Error>) {
        let status = self.firmware.free_pool(buffer);
        match status.into_result() {
            Err(e) => Err(e),
            Ok(_) => Ok(()),
        }
    }

    /// Requests the one-way handoff with a key already in hand.
    pub fn exit_boot_services_with_map(&mut self, image_handle: Handle, map_key: usize) -> (r:
        Result<(), Error>) {
        let status = self.firmware.exit_boot_services(image_handle, map_key);
        match status.into_result() {
            Err(e) => Err(e),
            Ok(_) => Ok(()),
        }
    }

    /// Acquires the current memory map: the buffer-size negotiation.
    ///
    /// Starts from a one-page guess and, for as long as the firmware
    /// answers that the buffer is too small, releases the buffer and
    /// allocates the pages its report calls for plus one spare, then asks
    /// again.  The loop provably terminates against any firmware that
    /// honours the platform contract, because every too-small answer
    /// reports strictly more than was offered.  On success the reported
    /// stride is checked against the smallest valid descriptor: a smaller
    /// stride is the firmware breaking its own contract, answered with
    /// [`Error::Noncompliant`] rather than with malformed records.
    pub fn get_memory_map(&mut self, memory_type: MemoryType) -> (r: Result<MemoryMap, Error>)
        ensures
            r matches Ok(m) ==> m.wf(),
    {
        let (status, first_address) = self.firmware.allocate_pages(0, memory_type, 1);
        if status.is_error() {
            return Err(failure_of(status));
        }
        let mut address = first_address;
        let mut pages: usize = 1;
        let mut buffer = zeroed_bytes(PAGE_SIZE);
        let mut in_size: usize = PAGE_SIZE;
        loop
            invariant
                pages >= 1,
                in_size == buffer@.len(),
                buffer@.len() == pages * PAGE_SIZE,
            decreases usize::MAX - in_size,
        {
            let (status, report) = self.firmware.get_memory_map(in_size, &mut buffer);
            if status.is_success() {
                if report.descriptor_size < MEMORY_DESCRIPTOR_SIZE {
                    return Err(Error::Noncompliant);
                }
                return MemoryMap::from_parts(
                    buffer,
                    address,
                    pages,
                    report.map_size,
                    report.key,
                    report.descriptor_size,
                    report.version,
                );
            } else if status.0 == STATUS_BUFFER_TOO_SMALL {
                let needed = match pages_for_map(report.map_size) {
                    Some(p) => p,
                    None => {
                        return Err(Error::OutOfResources);
                    },
                };
                proof {
                    lemma_regrowth_covers_report(report.map_size as int);
                }
                let status = self.firmware.free_pages(address, pages);
                if status.is_error() {
                    return Err(failure_of(status));
                }
                let (status, new_address) = self.firmware.allocate_pages(0, memory_type, needed);
                if status.is_error() {
                    return Err(failure_of(status));
                }
                address = new_address;
                pages = needed;
                buffer = zeroed_bytes(needed * PAGE_SIZE);
                in_size = needed * PAGE_SIZE;
            } else {
                return Err(failure_of(status));
            }
        }
    }

    /// Terminates boot services and returns the final memory map.
    ///
    /// Drives the termination machine: acquire a snapshot, attempt the
    /// handoff with its key, and if the key has gone stale run the single
    /// allocation-free recovery — re-query the map into the existing
    /// buffer and attempt the handoff once more.  A second rejection, or a
    /// failed re-query, aborts: after a first handoff attempt no further
    /// allocation is possible, so there is nothing more to try.  Once
    /// terminated, every record tagged as boot-service code or data is
    /// rewritten in place to the conventional classification: the returned
    /// map carries no boot-service-tagged region.
    pub fn exit_boot_services(&mut self, image_handle: Handle) -> (r: Result<MemoryMap, Error>)
        ensures
            r matches Ok(m) ==> m.wf() && forall|i: int|
                0 <= i < m.spec_len() ==> !spec_is_boot_services_type(
                    #[trigger] m.spec_descriptor_at(i).Type,
                ),
    {
        let mut map = match self.get_memory_map(MemoryType::from(NamedMemoryType::LoaderData)) {
            Ok(m) => m,
            Err(e) => {
                return Err(e);
            },
        };
        let mut state = termination_step(TerminationState::Ready, TerminationEvent::Start);
        let status = self.firmware.exit_boot_services(image_handle, map.key());
        state = if status.is_success() {
            termination_step(state, TerminationEvent::KeyAccepted)
        } else {
            termination_step(state, TerminationEvent::KeyRejected)
        };
        if state == TerminationState::Recovering {
            // The map changed between snapshot and handoff; the single
            // allocation-free recovery.
            match map.refresh(&mut self.firmware) {
                Err(_) => {
                    state = termination_step(state, TerminationEvent::RequeryFailed);
                },
                Ok(_) => {
                    let status = self.firmware.exit_boot_services(image_handle, map.key());
                    state = if status.is_success() {
                        termination_step(state, TerminationEvent::KeyAccepted)
                    } else {
                        termination_step(state, TerminationEvent::KeyRejected)
                    };
                },
            }
        }
        if state == TerminationState::Terminated {
            map.reclassify_boot_regions();
            proof {
                assert forall|i: int|
                    0 <= i < map.spec_len() implies !spec_is_boot_services_type(
                    #[trigger] map.spec_descriptor_at(i).Type,
                ) by {}
            }
            Ok(map)
        } else {
            Err(Error::Aborted)
        }
    }
}


/// The error a status stands for when a call did not plainly succeed: the
/// decoded error, or the raw word where the firmware answered with a
/// warning in a place none is meaningful.
fn failure_of(status: Status) -> (r: Error)
    ensures
        status.is_error() ==> r == crate::status::spec_error_of(status.0),
{
    match status.into_result() {
        Err(e) => e,
        Ok(_) => Error::Unknown(status.0),
    }
}

/// A classification that denotes boot-service code or data: memory that
/// becomes ordinary usable memory once the firmware has relinquished the
/// platform.
pub open spec fn spec_is_boot_services_type(t: MemoryType) -> bool {
    t.0 == crate::memory::MEMORY_TYPE_BOOT_SERVICES_CODE || t.0
        == crate::memory::MEMORY_TYPE_BOOT_SERVICES_DATA
}

/// The page count the negotiator asks for after the firmware reported that
/// the map needs `reported` bytes: enough whole pages for the report, plus
/// one spare page for regions that may appear between the size query and
/// the next fill.
pub open spec fn spec_pages_for_map(reported: int) -> int {
    reported / (PAGE_SIZE as int) + (if reported % (PAGE_SIZE as int) != 0 {
        1int
    } else {
        0int
    }) + 1
}

/// Law (negotiation progress): the regrown buffer holds at least one page
/// more than the firmware reported.  So against a firmware whose
/// requirement never grows by more than the spare page between probes —
/// any deterministic double in particular — the probe after a regrowth
/// succeeds, and the retry loop cannot run forever.
pub proof fn lemma_regrowth_covers_report(reported: int)
    requires
        reported >= 0,
    ensures
        spec_pages_for_map(reported) >= 1,
        spec_pages_for_map(reported) * (PAGE_SIZE as int) >= reported + PAGE_SIZE,
{
    let p = PAGE_SIZE as int;
    let q = reported / p;
    lemma_fundamental_div_mod(reported, p);
    if reported % p != 0 {
        assert(spec_pages_for_map(reported) == q + 2);
        assert((q + 2) * p == q * p + 2 * p) by (nonlinear_arith);
        assert(q * p == p * q) by (nonlinear_arith);
    } else {
        assert(spec_pages_for_map(reported) == q + 1);
        assert((q + 1) * p == q * p + p) by (nonlinear_arith);
        assert(q * p == p * q) by (nonlinear_arith);
    }
}

/// Law (negotiation convergence): the probe after a regrowth succeeds
/// whenever the firmware's requirement has not grown past the spare page
/// since the report that drove the regrowth.  A firmware whose map is
/// stable between probes — any deterministic double — is therefore
/// answered by the second fill.
pub proof fn lemma_next_probe_covered(reported: int, requirement: int)
    requires
        0 <= reported,
        0 <= requirement <= reported + PAGE_SIZE,
    ensures
        requirement <= spec_pages_for_map(reported) * (PAGE_SIZE as int),
{
    lemma_regrowth_covers_report(reported);
}

/// A zero-filled byte buffer of the given length.
fn zeroed_bytes(len: usize) -> (r: Vec<u8>)
    ensures
        r@.len() == len,
{
    let mut v: Vec<u8> = Vec::new();
    while v.len() < len
        invariant
            v@.len() <= len,
        decreases len - v@.len(),
    {
        v.push(0);
    }
    v
}

/// The page count for a reported map size, or nothing when that many pages
/// cannot even be addressed.
fn pages_for_map(reported: usize) -> (r: Option<usize>)
    ensures
        r matches Some(p) ==> p == spec_pages_for_map(reported as int) && p * PAGE_SIZE
            <= usize::MAX,
        r is None ==> spec_pages_for_map(reported as int) > usize::MAX as int / (PAGE_SIZE as int),
{
    let whole = reported / PAGE_SIZE;
    let extra: usize = if reported % PAGE_SIZE != 0 {
        1
    } else {
        0
    };
    // whole is at most usize::MAX / PAGE_SIZE, so the additions cannot wrap
    assert(whole + 2 <= usize::MAX) by {
        lemma_fundamental_div_mod(reported as int, PAGE_SIZE as int);
        assert(whole <= usize::MAX / PAGE_SIZE);
    };
    let pages = whole + extra + 1;
    if pages > usize::MAX / PAGE_SIZE {
        proof {
            lemma_fundamental_div_mod(usize::MAX as int, PAGE_SIZE as int);
        }
        None
    } else {
        proof {
            lemma_fundamental_div_mod(usize::MAX as int, PAGE_SIZE as int);
            lemma_mul_inequality(
                pages as int,
                usize::MAX as int / (PAGE_SIZE as int),
                PAGE_SIZE as int,
            );
        }
        Some(pages)
    }
}

} // verus!
