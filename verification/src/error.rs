//! Positioned GraphQL errors: every field-level failure carries the syntax
//! position of the field and the path of response keys leading to it.

use vstd::prelude::*;

verus! {

/// A position in the query document.
#[derive(PartialEq, Eq, Structural, Clone, Copy, Debug)]
pub struct Pos {
    pub line: u32,
    pub column: u32,
}

/// Why a field-level operation failed. These are delivered as ordinary
/// result payloads, never as transport-level failures.
#[derive(Debug)]
pub enum ErrorKind {
    /// A required argument had neither a supplied value nor a default.
    MissingArgument { name: String },
    /// A supplied argument value had the wrong shape or failed its validator.
    InvalidArgument { name: String, reason: String },
    /// An authorization check rejected the operation.
    GuardRejected { reason: String },
    /// The domain handler itself failed before or while producing its sequence.
    HandlerFailure { message: String },
    /// The selected field does not exist on the object type.
    FieldNotFound { field_name: String, object: String },
}

/// A positioned GraphQL error: the kind of failure, the originating syntax
/// location, and the selection path (response keys from the root).
#[derive(Debug)]
pub struct GqlError {
    pub kind: ErrorKind,
    pub pos: Pos,
    pub path: Vec<String>,
}

} // verus!
