use vstd::prelude::*;

verus! {

/// The ways an operation of the store can fail; each carries the text that
/// caused it, for display.
#[derive(Debug, Clone, PartialEq, Eq)]
pub enum SnipError {
    /// A string that is not an identifier in canonical form.
    MalformedIdentifier(String),
    /// No entity matches an identifier or a partial identifier.
    NotFound(String),
    /// A partial identifier that matches more than one entity.
    MultipleMatches(String),
    /// A file could not be read.
    IoError(String),
    /// The storage backend failed or reported an unexpected outcome.
    StorageError(String),
}

} // verus!
