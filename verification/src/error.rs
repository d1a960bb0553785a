//! The kinds of failure that the registry reports.

use vstd::prelude::*;

verus! {

/// What went wrong, by kind. Callers format their own messages.
#[derive(Clone, Copy, Debug, PartialEq, Eq, Structural)]
pub enum RegistryError {
    /// A path did not resolve to anything on the file system.
    NotFound,
    /// The registry root could not be read or created.
    Io,
    /// A new entry could not be persisted.
    Registration,
    /// A stored record or a descriptor file was malformed.
    Decode,
}

} // verus!
