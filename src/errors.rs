use vstd::prelude::*;

verus! {

/// Errors that cross the boundary of the mapping service.
#[derive(Debug, Clone, Copy, PartialEq, Eq, Structural)]
pub enum DomainError {
    /// No mapping exists for a well-formed key.
    UrlNotFound,
    /// The key is shorter than six characters or holds a character that is
    /// not an ASCII letter or digit.
    InvalidShortKey,
    /// The store failed, or the key space gave no free key within the
    /// allowed number of draws.
    StorageFailure,
}

/// Why the store refused an insert.
#[derive(Debug, Clone, Copy, PartialEq, Eq, Structural)]
pub enum InsertError {
    /// A mapping with the same key is already stored.
    DuplicateKey,
    /// A mapping with the same original URL is already stored.
    DuplicateUrl,
    /// Any other fault of the store.
    Failure,
}

impl DomainError {
    /// A short human-readable description of the error.
    pub fn message(&self) -> (r: String)
        ensures
            r@ == self.message_spec(),
    {
        match self {
            DomainError::UrlNotFound => String::from_str("URL not found"),
            DomainError::InvalidShortKey => String::from_str("Invalid short key"),
            DomainError::StorageFailure => String::from_str("Storage failure"),
        }
    }

    pub open spec fn message_spec(&self) -> Seq<char> {
        match self {
            DomainError::UrlNotFound => "URL not found"@,
            DomainError::InvalidShortKey => "Invalid short key"@,
            DomainError::StorageFailure => "Storage failure"@,
        }
    }
}

} // verus!
