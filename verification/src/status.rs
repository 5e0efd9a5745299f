//! Raw firmware status codes and their decoded form.
//!
//! Every firmware call answers with a [`Status`]: zero for success, a value
//! with the top bit set for an error, anything else for a warning.  Decoding a
//! status into success, warning or failure is the one primitive the rest of
//! the library builds its error handling on.

use vstd::prelude::*;

verus! {

/// The top bit of a status word marks an error.
pub const STATUS_ERROR_BIT: u64 = 0x8000_0000_0000_0000;

/// The call completed without incident.
pub const STATUS_SUCCESS: u64 = 0;

/// A parameter was outside the range the firmware accepts.
pub const STATUS_INVALID_PARAMETER: u64 = 0x8000_0000_0000_0002;

/// The operation is not supported on this platform.
pub const STATUS_UNSUPPORTED: u64 = 0x8000_0000_0000_0003;

/// The supplied buffer cannot hold the answer; the required size is reported
/// back.  The memory map negotiator handles this code internally.
pub const STATUS_BUFFER_TOO_SMALL: u64 = 0x8000_0000_0000_0005;

/// There is no pending data; for a console, no keystroke is waiting.
pub const STATUS_NOT_READY: u64 = 0x8000_0000_0000_0006;

/// The device reported a hardware fault.
pub const STATUS_DEVICE_ERROR: u64 = 0x8000_0000_0000_0007;

/// The firmware could not allocate the requested resource.
pub const STATUS_OUT_OF_RESOURCES: u64 = 0x8000_0000_0000_0009;

/// The operation was aborted and the platform state is indeterminate.
pub const STATUS_ABORTED: u64 = 0x8000_0000_0000_0015;

/// Warning: a character had no glyph on the output device.
pub const STATUS_WARN_UNKNOWN_GLYPH: u64 = 1;

/// A raw status word as the firmware returns it.
#[derive(Clone, Copy, Debug, PartialEq, Eq, Structural)]
pub struct Status(pub u64);

impl Status {
    /// True when the status word carries the error bit.
    pub open spec fn spec_is_error(self) -> bool {
        self.0 >= STATUS_ERROR_BIT
    }

    /// True when the status word is exactly success.
    pub open spec fn spec_is_success(self) -> bool {
        self.0 == STATUS_SUCCESS
    }

    /// True when the status word is a warning: neither success nor an error.
    pub open spec fn spec_is_warning(self) -> bool {
        STATUS_SUCCESS < self.0 < STATUS_ERROR_BIT
    }

    /// Whether the call succeeded (possibly with a warning, which is not
    /// success).
    #[verifier::when_used_as_spec(spec_is_success)]
    pub fn is_success(self) -> (r: bool)
        ensures
            r == self.spec_is_success(),
    {
        self.0 == STATUS_SUCCESS
    }

    /// Whether the call failed.
    #[verifier::when_used_as_spec(spec_is_error)]
    pub fn is_error(self) -> (r: bool)
        ensures
            r == self.spec_is_error(),
    {
        self.0 >= STATUS_ERROR_BIT
    }

    /// Turns the raw word into the library's decoded form.
    pub fn into_result(self) -> (r: Result<Warning, Error>)
        ensures
            r == spec_decode_status(self),
    {
        if self.0 >= STATUS_ERROR_BIT {
            if self.0 == STATUS_INVALID_PARAMETER {
                Err(Error::InvalidParameter)
            } else if self.0 == STATUS_UNSUPPORTED {
                Err(Error::Unsupported)
            } else if self.0 == STATUS_BUFFER_TOO_SMALL {
                Err(Error::BufferTooSmall)
            } else if self.0 == STATUS_NOT_READY {
                Err(Error::NotReady)
            } else if self.0 == STATUS_DEVICE_ERROR {
                Err(Error::DeviceError)
            } else if self.0 == STATUS_OUT_OF_RESOURCES {
                Err(Error::OutOfResources)
            } else if self.0 == STATUS_ABORTED {
                Err(Error::Aborted)
            } else {
                Err(Error::Unknown(self.0))
            }
        } else if self.0 == STATUS_SUCCESS {
            Ok(Warning::Success)
        } else if self.0 == STATUS_WARN_UNKNOWN_GLYPH {
            Ok(Warning::UnknownGlyph)
        } else {
            Ok(Warning::Unknown(self.0))
        }
    }
}

/// A failed firmware call, or a contract violation the library itself found.
#[derive(Clone, Copy, Debug, PartialEq, Eq, Structural)]
pub enum Error {
    /// A parameter was outside the range the firmware accepts.
    InvalidParameter,
    /// The operation is not supported on this platform.
    Unsupported,
    /// The supplied buffer cannot hold the answer.
    BufferTooSmall,
    /// There is no pending data.
    NotReady,
    /// The device reported a hardware fault.
    DeviceError,
    /// The firmware could not allocate the requested resource.
    OutOfResources,
    /// The one-shot recovery during boot-service termination was exhausted;
    /// the platform is in an indeterminate state and no further boot-service
    /// call should be attempted.
    Aborted,
    /// The firmware broke its own interface contract, for example by
    /// reporting a descriptor stride smaller than the smallest valid
    /// descriptor.  Fatal: there is no recovery from a non-compliant
    /// platform.
    Noncompliant,
    /// An error status this library does not give a name.
    Unknown(u64),
}

/// A firmware call that succeeded, possibly with a caveat.
#[derive(Clone, Copy, Debug, PartialEq, Eq, Structural)]
pub enum Warning {
    /// Plain success.
    Success,
    /// A character had no glyph on the output device.
    UnknownGlyph,
    /// A warning status this library does not give a name.
    Unknown(u64),
}

/// The decoded meaning of an error status word.
pub open spec fn spec_error_of(code: u64) -> Error {
    if code == STATUS_INVALID_PARAMETER {
        Error::InvalidParameter
    } else if code == STATUS_UNSUPPORTED {
        Error::Unsupported
    } else if code == STATUS_BUFFER_TOO_SMALL {
        Error::BufferTooSmall
    } else if code == STATUS_NOT_READY {
        Error::NotReady
    } else if code == STATUS_DEVICE_ERROR {
        Error::DeviceError
    } else if code == STATUS_OUT_OF_RESOURCES {
        Error::OutOfResources
    } else if code == STATUS_ABORTED {
        Error::Aborted
    } else {
        Error::Unknown(code)
    }
}

/// The decoded meaning of a warning status word.
pub open spec fn spec_warning_of(code: u64) -> Warning {
    if code == STATUS_WARN_UNKNOWN_GLYPH {
        Warning::UnknownGlyph
    } else {
        Warning::Unknown(code)
    }
}

/// The decoded meaning of any status word: failure, success, or warning.
pub open spec fn spec_decode_status(s: Status) -> Result<Warning, Error> {
    if s.spec_is_error() {
        Err(spec_error_of(s.0))
    } else if s.spec_is_success() {
        Ok(Warning::Success)
    } else {
        Ok(spec_warning_of(s.0))
    }
}

} // verus!
