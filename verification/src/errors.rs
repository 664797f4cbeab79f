use vstd::prelude::*;

verus! {

/// The closed set of failures an operation can end in. Each variant carries
/// the text the caller may show: the offending input, or a context message.
#[derive(Debug)]
pub enum RtcError {
    /// Persisting a freshly created record failed.
    Creation(String),
    /// The backend failed while removing a record.
    Deletion(String),
    /// The backend failed while re-persisting a changed record.
    Update(String),
    /// The referenced id names no record; carries the id as the caller gave it.
    ItemNotFound(String),
    /// The store holds no real records; carries the guard's context message.
    NoItems(String),
    /// A status, date or filter argument could not be read; carries the
    /// offending text.
    Parse(String),
}

/// Outcome of an operation: a value, or one of the errors above.
pub type RtcResult<T> = Result<T, RtcError>;

} // verus!
