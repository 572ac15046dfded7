pub mod doc;
pub mod engine;
pub mod json;
pub mod oid;
pub mod pagination;
pub mod params;
pub mod query;
pub mod response;
pub mod strutil;

use vstd::prelude::*;

verus! {

/// The failure taxonomy of the engine.
///
/// `Validation` covers forbidden characters in a field or sort name and
/// operator/value type mismatches; `NotFound` is a by-id lookup that matched
/// no row; `Serialization` is a stored payload that does not convert into the
/// caller's shape; `Storage` carries a backend failure unchanged.
#[derive(Debug)]
pub enum Error {
    Validation(String),
    NotFound,
    Serialization(String),
    Storage(String),
}

impl Error {
    /// A human-readable description of the error.
    pub fn message(&self) -> (r: String)
        ensures
            self is NotFound ==> r@ == "Document not found"@,
    {
        match self {
            Error::Validation(m) => m.clone(),
            Error::NotFound => String::from_str("Document not found"),
            Error::Serialization(m) => m.clone(),
            Error::Storage(m) => m.clone(),
        }
    }
}

} // verus!
