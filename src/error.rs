//! Error kinds of the library.
use vstd::prelude::*;

verus! {

/// A request that cannot be turned into rows.
#[derive(Debug, Clone, PartialEq, Eq)]
pub enum InvalidRequestError {
    /// A timestamp outside the representable range.
    InvalidTime,
    /// A JSON column or field that does not encode or decode.
    DeserializationError,
    /// A required field that the request left out.
    MissingField { field: String },
}

/// A failure of the relational store.
#[derive(Debug, Clone, PartialEq, Eq)]
pub enum DatastoreError {
    /// The store refused the operation.
    DatabaseError,
    /// An entity could not be serialized for the change log.
    JsonError,
}

/// What a client is told, mirroring the gRPC status codes.
#[derive(Debug, Clone, PartialEq, Eq)]
pub enum Status {
    InvalidArgument { message: String },
    NotFound { message: String },
    Internal { message: String },
    Unimplemented,
}

} // verus!
