//! The error taxonomy shared by the gallery store and the service catalog,
//! and its mapping to user-facing response classes.

use vstd::prelude::*;

verus! {

/// Everything that can go wrong in either store.
#[derive(Clone, Copy, PartialEq, Eq, Structural, Debug)]
pub enum StoreError {
    /// The resource is absent: missing gallery, image, or highlight.
    NotFound,
    /// A malformed identifier, e.g. an encoding that fails to decode.
    InvalidInput,
    /// A resolved path would escape the configured root.
    PathViolation,
    /// The connection pool is exhausted or unreachable.
    StoreUnavailable,
    /// Statement preparation or execution failed.
    QueryFailed,
    /// A row was present but did not map to the expected shape.
    DecodeFailed,
    /// An unclassified I/O fault.
    Internal,
}

/// The class of response a failure maps to at the API boundary.
#[derive(Clone, Copy, PartialEq, Eq, Structural, Debug)]
pub enum ResponseClass {
    /// The caller's fault: a malformed or forbidden request.
    ClientError,
    /// The resource does not exist.
    MissingResource,
    /// A generic server-side failure, with no internal detail leaked.
    ServerError,
}

impl StoreError {
    /// Maps each failure to its response class: `PathViolation` and
    /// `InvalidInput` are the caller's fault, `NotFound` is a missing
    /// resource, and everything else is a server-side failure.
    pub fn response_class(&self) -> (r: ResponseClass)
        ensures
            r == ResponseClass::ClientError <==> (*self == StoreError::PathViolation
                || *self == StoreError::InvalidInput),
            r == ResponseClass::MissingResource <==> *self == StoreError::NotFound,
            r == ResponseClass::ServerError <==> (*self == StoreError::StoreUnavailable
                || *self == StoreError::QueryFailed || *self == StoreError::DecodeFailed
                || *self == StoreError::Internal),
    {
        match self {
            StoreError::PathViolation => ResponseClass::ClientError,
            StoreError::InvalidInput => ResponseClass::ClientError,
            StoreError::NotFound => ResponseClass::MissingResource,
            StoreError::StoreUnavailable => ResponseClass::ServerError,
            StoreError::QueryFailed => ResponseClass::ServerError,
            StoreError::DecodeFailed => ResponseClass::ServerError,
            StoreError::Internal => ResponseClass::ServerError,
        }
    }
}

} // verus!
