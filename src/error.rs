use vstd::prelude::*;

verus! {

/// Why an operation could not be described.
#[derive(Debug, Clone, Copy, PartialEq, Eq, Structural)]
pub enum SchemaError {
    /// A request or response body is not valid JSON.
    MalformedJson,
    /// A header cannot be split into a valid name and value.
    InvalidHeader,
    /// The method is not one of GET, POST, PUT, DELETE and PATCH.
    UnsupportedMethod,
    /// Fetching the sample response failed.
    NetworkFailure,
}

} // verus!
