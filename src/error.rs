use vstd::prelude::*;

verus! {

/// Errors surfaced by the library.
#[derive(Debug, Clone, PartialEq, Eq)]
pub enum Error {
    /// A restriction was built without any alternative.
    EmptyRestriction,
    /// A unique-id alternative was combined with others.
    IdNotAlone,
    /// An alternative's field name is empty or holds punctuation.
    InvalidField,
    /// The context's timestamp lies before the Unix epoch.
    Clock,
    /// The alternative is not met by the context.
    Mismatch,
    /// The restriction at this index of the list is not met.
    Unmet(usize),
    /// The operation was invoked on the wrong identity kind.
    IsIdentity(String),
    /// The upgrade round trip failed; the message is passed on verbatim.
    Protocol(String),
    /// Serialized credentials could not be decoded.
    Decode,
}

} // verus!
