//! What can go wrong while a connection is served.

use vstd::prelude::*;

verus! {

/// The kinds of failure of one connection.
#[derive(Clone, Copy, Debug, PartialEq, Eq, Structural)]
pub enum ErrorKind {
    /// The request line is missing, a line is not UTF-8, or `Content-Length`
    /// names no length.
    MalformedRequest,
    /// The stream ended before the announced body was read.
    TruncatedBody,
    /// The body is not UTF-8, not JSON, or lacks a text `username` or an
    /// integer `score`.
    MalformedBody,
    /// The request carries no token that the store knows.
    Unauthorized,
    /// The store could not be reached or failed.
    StorageFailure,
    /// Admission control denied the request.
    Throttled,
}

/// A failure reported by the store, or on its behalf.
#[derive(Debug, PartialEq, Eq)]
pub struct StorageError {
    /// `Unauthorized` or `StorageFailure`.
    pub kind: ErrorKind,
    /// The text an operator reads.
    pub message: String,
}

impl View for StorageError {
    type V = (ErrorKind, Seq<char>);

    open spec fn view(&self) -> (ErrorKind, Seq<char>) {
        (self.kind, self.message@)
    }
}

/// The text of the failure that stands for a missing or unknown token.
pub open spec fn unauthorized_message() -> Seq<char> {
    "MySqlError { ERROR 400 (HY000): Bad Request }"@
}

impl StorageError {
    /// The failure that stands for a missing or unknown token. The store
    /// itself did not fail; the text is that of a failed statement with
    /// code 400.
    pub fn unauthorized() -> (e: StorageError)
        ensures
            e@ == (ErrorKind::Unauthorized, unauthorized_message()),
    {
        StorageError {
            kind: ErrorKind::Unauthorized,
            message: "MySqlError { ERROR 400 (HY000): Bad Request }".to_owned(),
        }
    }

    /// A failure of the store with the given text.
    pub fn failure(message: String) -> (e: StorageError)
        ensures
            e@ == (ErrorKind::StorageFailure, message@),
    {
        StorageError { kind: ErrorKind::StorageFailure, message }
    }
}

} // verus!
