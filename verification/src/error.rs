//! Failure kinds surfaced by the library.

use vstd::prelude::*;

verus! {

/// Why a backlight operation failed. Every failure is surfaced to the caller
/// as one of these kinds, never retried and never masked.
#[derive(Clone, Copy, Debug, PartialEq, Eq, Structural)]
pub enum Error {
    /// The device directory was absent when the handle was opened.
    NotFound,
    /// A sysfs file could not be read or written for lack of privilege.
    PermissionDenied,
    /// A sysfs file could not be read or written for another reason.
    IoError,
    /// A sysfs file did not hold a clean decimal integer.
    InvalidData,
    /// The change-notification backend is unavailable on this host.
    Unsupported,
}

} // verus!
