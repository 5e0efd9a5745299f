//! In-memory firmware: the test double behind the capability traits.
//!
//! [`SimFirmware`] implements [`FirmwareServices`] entirely in memory with
//! verified bookkeeping: page accounting, a live-allocation ledger, a map
//! image served through the same too-small/success protocol as real
//! firmware, a reclamation key that can go stale on demand, and call
//! counters that let a test observe exactly how the library drove it.
//! [`SimTextInput`] and [`SimTextOutput`] do the same for the console
//! protocols.

use vstd::arithmetic::div_mod::lemma_fundamental_div_mod;
use vstd::arithmetic::mul::lemma_mul_inequality;
use vstd::prelude::*;

use crate::boot::{FirmwareServices, MapReport};
use crate::codec::{append_descriptor, spec_decode_descriptor, MEMORY_DESCRIPTOR_SIZE};
use crate::memory::{MemoryDescriptor, MemoryType, PAGE_SIZE};
use crate::status::{
    Error, Status, STATUS_ABORTED, STATUS_BUFFER_TOO_SMALL, STATUS_DEVICE_ERROR,
    STATUS_INVALID_PARAMETER, STATUS_NOT_READY, STATUS_OUT_OF_RESOURCES, STATUS_SUCCESS,
    STATUS_UNSUPPORTED, STATUS_WARN_UNKNOWN_GLYPH,
};
use crate::text::{TextInputDevice, TextInputKey, TextOutputDevice};
use crate::Event;

verus! {

/// An in-memory firmware double.
///
/// Every field is public so that a test can stage a scenario — the map
/// image, how often the reclamation key goes stale, forced allocation
/// failures — and inspect afterwards how the library behaved.
pub struct SimFirmware {
    /// The current memory map image, as raw record bytes.
    pub map_bytes: Vec<u8>,
    /// The record stride this firmware reports.
    pub descriptor_size: usize,
    /// The record format version this firmware reports.
    pub version: u32,
    /// The current reclamation key; changes whenever the map changes.
    pub map_key: usize,
    /// How many times the key will still go stale: each termination
    /// attempt consumes one pending change and is rejected.
    pub pending_map_changes: usize,
    /// Records appended to the map, one per map query, simulating a map
    /// that grows between probes; served last first.
    pub growth: Vec<MemoryDescriptor>,
    /// Pages currently allocated: the allocator-visible accounting.
    pub allocated_pages: usize,
    /// The live allocations, as address and page count.
    pub live_allocations: Vec<(u64, usize)>,
    /// Where the next allocation will be placed.
    pub next_address: u64,
    /// How many upcoming page allocations fail with out-of-resources.
    pub fail_allocations: usize,
    /// Whether boot services have been terminated.
    pub terminated: bool,
    /// Page counts of every allocation call, in order.
    pub alloc_log: Vec<usize>,
    /// Page counts of every release call, in order.
    pub free_log: Vec<usize>,
    /// When nonzero, the map query with this ordinal fails with a device
    /// error: a way to stage a failing allocation-free re-query.
    pub fail_query_at: usize,
    /// How many map queries were made; saturates.
    pub query_count: usize,
    /// How many termination attempts were made; saturates.
    pub terminate_count: usize,
}

/// What a successful allocation does to the accounting.
pub open spec fn spec_alloc_account(pre: SimFirmware, post: SimFirmware, pages: usize) -> bool {
    post.allocated_pages == pre.allocated_pages + pages
}

/// What a successful release does to the accounting.
pub open spec fn spec_free_account(pre: SimFirmware, post: SimFirmware, pages: usize) -> bool {
    post.allocated_pages == if pre.allocated_pages >= pages {
        (pre.allocated_pages - pages) as int
    } else {
        0int
    }
}

/// Law: allocating pages and then releasing the same count leaves the
/// allocator-visible accounting exactly where it started.  The premises
/// are what [`SimFirmware::sim_allocate_pages`] and
/// [`SimFirmware::sim_free_pages`] ensure of their successful calls.
pub proof fn lemma_allocate_release_round_trip(
    pre: SimFirmware,
    mid: SimFirmware,
    post: SimFirmware,
    pages: usize,
)
    requires
        spec_alloc_account(pre, mid, pages),
        spec_free_account(mid, post, pages),
    ensures
        post.allocated_pages == pre.allocated_pages,
{
}

impl SimFirmware {
    /// Whether an allocation of `pages` pages can succeed in this state.
    pub open spec fn spec_can_allocate(&self, pages: usize) -> bool {
        &&& !self.terminated
        &&& self.fail_allocations == 0
        &&& pages >= 1
        &&& self.allocated_pages + pages <= usize::MAX
        &&& pages as int * (PAGE_SIZE as int) <= u64::MAX - self.next_address
    }

    /// Whether `(memory, pages)` is a live allocation.
    pub open spec fn spec_has_allocation(&self, memory: u64, pages: usize) -> bool {
        exists|i: int|
            0 <= i < self.live_allocations@.len() && self.live_allocations@[i] == (memory, pages)
    }

    /// A fresh firmware with an empty map and nothing allocated.
    pub fn new(descriptor_size: usize, version: u32) -> (r: SimFirmware)
        ensures
            r.map_bytes@.len() == 0,
            r.descriptor_size == descriptor_size,
            r.version == version,
            r.map_key == 1,
            r.pending_map_changes == 0,
            r.growth@.len() == 0,
            r.allocated_pages == 0,
            r.live_allocations@.len() == 0,
            r.fail_allocations == 0,
            !r.terminated,
            r.alloc_log@.len() == 0,
            r.free_log@.len() == 0,
            r.fail_query_at == 0,
            r.query_count == 0,
            r.terminate_count == 0,
    {
        SimFirmware {
            map_bytes: Vec::new(),
            descriptor_size,
            version,
            map_key: 1,
            pending_map_changes: 0,
            growth: Vec::new(),
            allocated_pages: 0,
            live_allocations: Vec::new(),
            next_address: 0x10_0000,
            fail_allocations: 0,
            terminated: false,
            alloc_log: Vec::new(),
            free_log: Vec::new(),
            fail_query_at: 0,
            query_count: 0,
            terminate_count: 0,
        }
    }

    /// Appends one record to the map image.  Staging succeeds exactly
    /// when the stride is at least the smallest valid descriptor and the
    /// image has room for one more record; a short stride is the
    /// noncompliance error, a full image is out of resources, and either
    /// failure leaves the firmware untouched.
    pub fn push_region(&mut self, d: &MemoryDescriptor) -> (r: Result<(), Error>)
        ensures
            (r matches Ok(_)) <==> (old(self).descriptor_size >= MEMORY_DESCRIPTOR_SIZE && old(self).map_bytes@.len() + old(self).descriptor_size <= usize::MAX),
            old(self).descriptor_size < MEMORY_DESCRIPTOR_SIZE ==> r == Err::<(), Error>(
                Error::Noncompliant,
            ),
            old(self).descriptor_size >= MEMORY_DESCRIPTOR_SIZE && old(self).map_bytes@.len()
                + old(self).descriptor_size > usize::MAX ==> r == Err::<(), Error>(
                Error::OutOfResources,
            ),
            r matches Err(_) ==> *final(self) == *old(self),
            r matches Ok(_) ==> (*final(self) == (SimFirmware {
                map_bytes: final(self).map_bytes,
                ..*old(self)
            })) && final(self).map_bytes@.len() == old(self).map_bytes@.len() + old(self).descriptor_size && spec_decode_descriptor(
                final(self).map_bytes@,
                old(self).map_bytes@.len() as int,
            ) == *d && (forall|j: int|
                0 <= j < old(self).map_bytes@.len() ==> final(self).map_bytes@[j] == old(self).map_bytes@[j]),
    {
        if self.descriptor_size < MEMORY_DESCRIPTOR_SIZE {
            return Err(Error::Noncompliant);
        }
        if self.map_bytes.len() > usize::MAX - self.descriptor_size {
            return Err(Error::OutOfResources);
        }
        append_descriptor(&mut self.map_bytes, d, self.descriptor_size);
        Ok(())
    }

    /// Allocates pages: bumps the accounting and the ledger, or fails
    /// exactly when the state does not allow the allocation.
    pub fn sim_allocate_pages(&mut self, pages: usize) -> (r: (Status, u64))
        ensures
            final(self).alloc_log@ == old(self).alloc_log@.push(pages),
            r.0.is_success() <==> old(self).spec_can_allocate(pages),
            r.0.is_success() ==> spec_alloc_account(*old(self), *final(self), pages) && r.1 == old(self).next_address && final(self).live_allocations@ == old(self).live_allocations@.push((r.1, pages)),
            !r.0.is_success() ==> final(self).allocated_pages == old(self).allocated_pages
                && final(self).live_allocations@ == old(self).live_allocations@,
            final(self).map_bytes@ == old(self).map_bytes@,
            final(self).map_key == old(self).map_key,
            final(self).terminated == old(self).terminated,
    {
        self.alloc_log.push(pages);
        if self.terminated {
            return (Status(STATUS_ABORTED), 0);
        }
        if self.fail_allocations > 0 {
            self.fail_allocations = self.fail_allocations - 1;
            return (Status(STATUS_OUT_OF_RESOURCES), 0);
        }
        if pages < 1 {
            return (Status(STATUS_INVALID_PARAMETER), 0);
        }
        if pages > usize::MAX - self.allocated_pages {
            return (Status(STATUS_OUT_OF_RESOURCES), 0);
        }
        if self.next_address > u64::MAX - (PAGE_SIZE as u64) {
            return (Status(STATUS_OUT_OF_RESOURCES), 0);
        }
        if pages as u64 > (u64::MAX - self.next_address) / (PAGE_SIZE as u64) {
            proof {
                lemma_fundamental_div_mod(
                    (u64::MAX - self.next_address) as int,
                    PAGE_SIZE as int,
                );
                lemma_mul_inequality(
                    ((u64::MAX - self.next_address) as int / (PAGE_SIZE as int)) + 1,
                    pages as int,
                    PAGE_SIZE as int,
                );
            }
            return (Status(STATUS_OUT_OF_RESOURCES), 0);
        }
        proof {
            lemma_fundamental_div_mod((u64::MAX - self.next_address) as int, PAGE_SIZE as int);
            lemma_mul_inequality(
                pages as int,
                (u64::MAX - self.next_address) as int / (PAGE_SIZE as int),
                PAGE_SIZE as int,
            );
        }
        let address = self.next_address;
        self.next_address = self.next_address + (pages as u64) * (PAGE_SIZE as u64);
        self.allocated_pages = self.allocated_pages + pages;
        self.live_allocations.push((address, pages));
        (Status(STATUS_SUCCESS), address)
    }

    /// Releases pages: succeeds exactly when the given address and count
    /// are a live allocation, and then removes it from the ledger and the
    /// accounting.
    pub fn sim_free_pages(&mut self, memory: u64, pages: usize) -> (r: Status)
        ensures
            final(self).free_log@ == old(self).free_log@.push(pages),
            r.is_success() <==> (!old(self).terminated && old(self).spec_has_allocation(
                memory,
                pages,
            )),
            r.is_success() ==> spec_free_account(*old(self), *final(self), pages) && final(self).live_allocations@.len() == old(self).live_allocations@.len() - 1,
            !r.is_success() ==> final(self).allocated_pages == old(self).allocated_pages
                && final(self).live_allocations@ == old(self).live_allocations@,
            final(self).map_bytes@ == old(self).map_bytes@,
            final(self).map_key == old(self).map_key,
            final(self).terminated == old(self).terminated,
    {
        self.free_log.push(pages);
        if self.terminated {
            return Status(STATUS_ABORTED);
        }
        let mut i: usize = 0;
        while i < self.live_allocations.len()
            invariant
                i <= self.live_allocations@.len(),
                forall|j: int| 0 <= j < i ==> self.live_allocations@[j] != (memory, pages),
                !old(self).terminated,
                self.free_log@ == old(self).free_log@.push(pages),
                self.live_allocations@ == old(self).live_allocations@,
                self.allocated_pages == old(self).allocated_pages,
                self.map_bytes@ == old(self).map_bytes@,
                self.map_key == old(self).map_key,
                self.terminated == old(self).terminated,
            decreases self.live_allocations@.len() - i,
        {
            let (a, p) = self.live_allocations[i];
            if a == memory && p == pages {
                self.live_allocations.remove(i);
                if self.allocated_pages >= pages {
                    self.allocated_pages = self.allocated_pages - pages;
                } else {
                    self.allocated_pages = 0;
                }
                return Status(STATUS_SUCCESS);
            }
            i = i + 1;
        }
        Status(STATUS_INVALID_PARAMETER)
    }

    /// Serves a map query: applies one pending growth record, then either
    /// reports the required size or fills the buffer's prefix with the
    /// map image.
    pub fn sim_get_memory_map(&mut self, map_size: usize, buffer: &mut Vec<u8>) -> (r: (
        Status,
        MapReport,
    ))
        requires
            map_size <= old(buffer).len(),
        ensures
            final(buffer)@.len() == old(buffer)@.len(),
            r.0.is_success() ==> r.1.map_size <= map_size,
            r.0.0 == STATUS_BUFFER_TOO_SMALL ==> r.1.map_size > map_size,
            r.0.is_success() ==> r.1.map_size == final(self).map_bytes@.len() && r.1.key == final(self).map_key && r.1.descriptor_size == old(self).descriptor_size && r.1.version == old(self).version && forall|j: int|
                0 <= j < final(self).map_bytes@.len() ==> final(buffer)@[j] == final(self).map_bytes@[j],
    {
        if self.query_count < usize::MAX {
            self.query_count = self.query_count + 1;
        }
        if self.fail_query_at != 0 && self.query_count == self.fail_query_at {
            return (
                Status(STATUS_DEVICE_ERROR),
                MapReport { map_size: 0, key: 0, descriptor_size: 0, version: 0 },
            );
        }
        if self.terminated {
            return (
                Status(STATUS_ABORTED),
                MapReport { map_size: 0, key: 0, descriptor_size: 0, version: 0 },
            );
        }
        if self.growth.len() > 0 {
            let grown = self.growth.pop();
            match grown {
                None => {},
                Some(d) => {
                    if self.descriptor_size >= MEMORY_DESCRIPTOR_SIZE && self.map_bytes.len()
                        <= usize::MAX - self.descriptor_size {
                        append_descriptor(&mut self.map_bytes, &d, self.descriptor_size);
                        if self.map_key < usize::MAX {
                            self.map_key = self.map_key + 1;
                        }
                    }
                },
            }
        }
        let total = self.map_bytes.len();
        let report = MapReport {
            map_size: total,
            key: self.map_key,
            descriptor_size: self.descriptor_size,
            version: self.version,
        };
        if total > map_size {
            return (Status(STATUS_BUFFER_TOO_SMALL), report);
        }
        let mut i: usize = 0;
        while i < total
            invariant
                i <= total,
                total == self.map_bytes@.len(),
                total <= buffer@.len(),
                buffer@.len() == old(buffer)@.len(),
                forall|j: int| 0 <= j < i ==> buffer@[j] == self.map_bytes@[j],
            decreases total - i,
        {
            let b = self.map_bytes[i];
            buffer.set(i, b);
            i = i + 1;
        }
        (Status(STATUS_SUCCESS), report)
    }

    /// Attempts the one-way handoff.  A pending map change makes the key
    /// stale: the attempt consumes the change, moves the key on, and is
    /// rejected.  Otherwise the handoff succeeds exactly when the key
    /// matches.
    pub fn sim_exit_boot_services(&mut self, map_key: usize) -> (r: Status)
        ensures
            r.is_success() <==> (!old(self).terminated && old(self).pending_map_changes == 0
                && map_key == old(self).map_key),
            r.is_success() ==> final(self).terminated,
            !r.is_success() ==> final(self).terminated == old(self).terminated,
    {
        if self.terminate_count < usize::MAX {
            self.terminate_count = self.terminate_count + 1;
        }
        if self.terminated {
            return Status(STATUS_INVALID_PARAMETER);
        }
        if self.pending_map_changes > 0 {
            self.pending_map_changes = self.pending_map_changes - 1;
            if self.map_key < usize::MAX {
                self.map_key = self.map_key + 1;
            }
            return Status(STATUS_INVALID_PARAMETER);
        }
        if map_key == self.map_key {
            self.terminated = true;
            Status(STATUS_SUCCESS)
        } else {
            Status(STATUS_INVALID_PARAMETER)
        }
    }
}

impl FirmwareServices for SimFirmware {
    fn wait_for_event(&mut self, events: &[Event]) -> (r: (Status, usize)) {
        if events.len() == 0 {
            (Status(STATUS_INVALID_PARAMETER), 0)
        } else {
            (Status(STATUS_SUCCESS), 0)
        }
    }

    fn allocate_pages(&mut self, alloc_type: usize, memory_type: MemoryType, pages: usize) -> (r: (
        Status,
        u64,
    )) {
        let _ = alloc_type;
        let _ = memory_type;
        self.sim_allocate_pages(pages)
    }

    fn free_pages(&mut self, memory: u64, pages: usize) -> (r: Status) {
        self.sim_free_pages(memory, pages)
    }

    fn get_memory_map(&mut self, map_size: usize, buffer: &mut Vec<u8>) -> (r: (Status, MapReport)) {
        self.sim_get_memory_map(map_size, buffer)
    }

    fn allocate_pool(&mut self, memory_type: MemoryType, size: usize) -> (r: (Status, u64)) {
        let _ = memory_type;
        if self.terminated {
            return (Status(STATUS_ABORTED), 0);
        }
        if size as u64 > u64::MAX - self.next_address {
            return (Status(STATUS_OUT_OF_RESOURCES), 0);
        }
        let address = self.next_address;
        self.next_address = self.next_address + size as u64;
        (Status(STATUS_SUCCESS), address)
    }

    fn free_pool(&mut self, buffer: u64) -> (r: Status) {
        let _ = buffer;
        if self.terminated {
            Status(STATUS_ABORTED)
        } else {
            Status(STATUS_SUCCESS)
        }
    }

    fn exit_boot_services(&mut self, image_handle: crate::Handle, map_key: usize) -> (r: Status) {
        let _ = image_handle;
        self.sim_exit_boot_services(map_key)
    }
}

/// An in-memory keyboard: a queue of keystrokes.
pub struct SimTextInput {
    /// Keystrokes still to be delivered, first first.
    pub keys: Vec<TextInputKey>,
    /// How many times the device was reset; saturates.
    pub reset_count: usize,
}

impl SimTextInput {
    /// A fresh keyboard with the given queued keystrokes.
    pub fn new(keys: Vec<TextInputKey>) -> (r: SimTextInput)
        ensures
            r.keys == keys,
            r.reset_count == 0,
    {
        SimTextInput { keys, reset_count: 0 }
    }
}

impl TextInputDevice for SimTextInput {
    fn reset(&mut self, extended_verification: bool) -> (r: Status) {
        let _ = extended_verification;
        if self.reset_count < usize::MAX {
            self.reset_count = self.reset_count + 1;
        }
        Status(STATUS_SUCCESS)
    }

    fn read_key_stroke(&mut self) -> (r: (Status, TextInputKey)) {
        if self.keys.len() == 0 {
            (Status(STATUS_NOT_READY), TextInputKey { ScanCode: 0, UnicodeChar: 0 })
        } else {
            let key = self.keys.remove(0);
            (Status(STATUS_SUCCESS), key)
        }
    }
}

/// An in-memory console: records everything written to it.
pub struct SimTextOutput {
    /// Every unit delivered, terminators excluded, in order.
    pub written: Vec<u16>,
    /// How many output calls were made; saturates.
    pub call_count: usize,
    /// Whether units outside the printable seven-bit range raise the
    /// unknown-glyph warning (or fail a support test).
    pub warn_unsupported: bool,
    /// How many times the screen was cleared; saturates.
    pub clear_count: usize,
    /// How many times the device was reset; saturates.
    pub reset_count: usize,
    /// The current text mode.
    pub mode: usize,
    /// The current output attribute.
    pub attribute: usize,
    /// The cursor's column.
    pub cursor_column: usize,
    /// The cursor's row.
    pub cursor_row: usize,
    /// Whether the cursor is visible.
    pub cursor_visible: bool,
}

impl SimTextOutput {
    /// A fresh console with nothing written.
    pub fn new() -> (r: SimTextOutput)
        ensures
            r.written@.len() == 0,
            r.call_count == 0,
            !r.warn_unsupported,
    {
        SimTextOutput {
            written: Vec::new(),
            call_count: 0,
            warn_unsupported: false,
            clear_count: 0,
            reset_count: 0,
            mode: 0,
            attribute: 0,
            cursor_column: 0,
            cursor_row: 0,
            cursor_visible: true,
        }
    }
}

impl TextOutputDevice for SimTextOutput {
    fn reset(&mut self, extended_verification: bool) -> (r: Status) {
        let _ = extended_verification;
        if self.reset_count < usize::MAX {
            self.reset_count = self.reset_count + 1;
        }
        self.written = Vec::new();
        Status(STATUS_SUCCESS)
    }

    fn output_string(&mut self, utf16: &Vec<u16>) -> (r: Status) {
        if self.call_count < usize::MAX {
            self.call_count = self.call_count + 1;
        }
        let mut missing_glyph = false;
        let mut i: usize = 0;
        while i < utf16.len()
            invariant
                i <= utf16@.len(),
            decreases utf16@.len() - i,
        {
            let u = utf16[i];
            if u == 0 {
                break ;
            }
            self.written.push(u);
            if u >= 0x80 {
                missing_glyph = true;
            }
            i = i + 1;
        }
        if missing_glyph && self.warn_unsupported {
            Status(STATUS_WARN_UNKNOWN_GLYPH)
        } else {
            Status(STATUS_SUCCESS)
        }
    }

    fn test_string(&mut self, utf16: &Vec<u16>) -> (r: Status) {
        let mut unsupported = false;
        let mut i: usize = 0;
        while i < utf16.len()
            invariant
                i <= utf16@.len(),
            decreases utf16@.len() - i,
        {
            let u = utf16[i];
            if u == 0 {
                break ;
            }
            if u >= 0x80 {
                unsupported = true;
            }
            i = i + 1;
        }
        if unsupported && self.warn_unsupported {
            Status(STATUS_UNSUPPORTED)
        } else {
            Status(STATUS_SUCCESS)
        }
    }

    fn query_mode(&mut self, mode_number: usize) -> (r: (Status, usize, usize)) {
        if mode_number == 0 {
            (Status(STATUS_SUCCESS), 80, 25)
        } else {
            (Status(STATUS_UNSUPPORTED), 0, 0)
        }
    }

    fn set_mode(&mut self, mode: usize) -> (r: Status) {
        if mode == 0 {
            self.mode = mode;
            Status(STATUS_SUCCESS)
        } else {
            Status(STATUS_UNSUPPORTED)
        }
    }

    fn set_attribute(&mut self, attribute: usize) -> (r: Status) {
        self.attribute = attribute;
        Status(STATUS_SUCCESS)
    }

    fn clear_screen(&mut self) -> (r: Status) {
        if self.clear_count < usize::MAX {
            self.clear_count = self.clear_count + 1;
        }
        self.written = Vec::new();
        Status(STATUS_SUCCESS)
    }

    fn set_cursor_position(&mut self, column: usize, row: usize) -> (r: Status) {
        self.cursor_column = column;
        self.cursor_row = row;
        Status(STATUS_SUCCESS)
    }

    fn enable_cursor(&mut self, enable: bool) -> (r: Status) {
        self.cursor_visible = enable;
        Status(STATUS_SUCCESS)
    }
}

} // verus!
