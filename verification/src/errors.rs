//! The error kinds the cache reports.

use vstd::prelude::*;

verus! {

/// Everything that can go wrong inside the cache.
///
/// "Not found" on a content or metadata read is never an error: it is folded
/// into the normal result space (`CacheFile::None`, `CacheExpiry::Never`).
#[derive(Clone, Copy, Debug, PartialEq, Eq, Structural)]
pub enum CacheError {
    /// The provider claimed "unchanged" while nothing was cached to return.
    NoContent,
    /// An underlying content or metadata write failed.
    WriteError,
    /// An underlying read failed for a reason other than not-found.
    ReadError,
    /// A delete during pattern maintenance failed.
    RemoveError,
    /// Stored metadata does not decode: the record is shorter than the fixed
    /// instant field, or the token bytes are not valid text.
    ConversionError,
}

} // verus!
