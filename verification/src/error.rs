//! Error codes, as the kernel hands them back.

use vstd::prelude::*;

verus! {

/// Invalid argument.
pub const EINVAL: i32 = -22;

/// Out of memory.
pub const ENOMEM: i32 = -12;

/// Device or resource busy.
pub const EBUSY: i32 = -16;

/// Address family not supported by the platform.
pub const EAFNOSUPPORT: i32 = -97;

/// A failure, identified by the status that the failing call returned.
#[derive(Clone, Copy, Debug, PartialEq, Eq, Structural)]
pub struct Error {
    /// The status as returned: negative for the kernel's error numbers.
    pub errno: i32,
}

impl Error {
    /// Wraps a raw status. The value is kept as it is.
    pub fn from_kernel_errno(errno: i32) -> (e: Error)
        ensures
            e == (Error { errno }),
    {
        Error { errno }
    }

    /// The raw status this error was made from.
    pub fn to_kernel_errno(self) -> (errno: i32)
        ensures
            errno == self.errno,
    {
        self.errno
    }
}

} // verus!
