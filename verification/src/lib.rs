//! Pre-OS firmware interface library.
//!
//! The firmware owns the machine before the operating system takes over.  This
//! crate exposes the firmware's boot-time services through a small, fully
//! specified core: acquiring the firmware's memory map (a negotiation against a
//! buffer of unknown size), decoding its variable-width descriptor records, and
//! executing the one-way termination of boot services with its single,
//! allocation-free recovery attempt.
//!
//! The firmware itself is reached through capability traits with one method per
//! logical firmware call; an in-memory simulator implementing those traits
//! lives in [`sim`] so that every path can be exercised without real firmware.

use vstd::prelude::*;

pub mod boot;
pub mod codec;
pub mod memory;
pub mod sim;
pub mod status;
pub mod text;

verus! {

/// An opaque reference to a firmware object, such as a loaded image.
///
/// The firmware hands these out and expects them back unchanged; the library
/// never interprets the value.
#[derive(Clone, Copy, Debug, PartialEq, Eq, Structural)]
pub struct Handle(pub usize);

/// An opaque token for a firmware event that can be waited on.
#[derive(Clone, Copy, Debug, PartialEq, Eq, Structural)]
pub struct Event(pub usize);

} // verus!
