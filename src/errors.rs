use vstd::prelude::*;
use vstd::string::*;

verus! {

/// What kind of failure the store reported for one operation.
#[derive(Debug, Clone, Copy, PartialEq, Eq)]
pub enum FailureKind {
    /// No document exists under the key.
    NotFound,
    /// A conditional write found a revision other than the one it was given.
    CasMismatch,
    /// Any other failure: timeout, network, an existing key on insert, ...
    Other,
}

/// A failure reported by the store for a single operation, with its text.
#[derive(Debug, Clone, PartialEq, Eq)]
pub struct StoreFailure {
    pub kind: FailureKind,
    pub message: String,
}

/// Errors of this layer.
#[derive(Debug, Clone, PartialEq, Eq)]
pub enum DbError {
    /// A batch read was asked for no keys at all.
    EmptyKeys,
    /// The cluster or the bucket could not be reached.
    Connection(String),
    /// A single read or delete failed; these are not retried.
    Store(StoreFailure),
    /// A write failed on every attempt; this is the last failure.
    RetryLimitReached(StoreFailure),
    /// A counter document held neither a number nor a numeric string.
    Format,
    /// Incrementing the counter would leave the range of `i64`.
    Overflow,
    /// A strict batch read had failures: every failing key with its failure,
    /// and the text that lists them.
    Batch { failures: Vec<(String, StoreFailure)>, message: String },
}

/// An error as the calling layer receives it: a descriptive text.
#[derive(Debug)]
pub struct ReturnError {
    pub error: String,
}

/// The text of an error as the calling layer receives it.
pub open spec fn error_text(e: DbError) -> Seq<char> {
    match e {
        DbError::EmptyKeys => "Array of Keys need to be on length>0"@,
        DbError::Connection(m) => "Error in getting bucket connection : "@ + m@,
        DbError::Store(f) => f.message@,
        DbError::RetryLimitReached(f) => f.message@ + "... retry limit reached"@,
        DbError::Format => "Invalid counter format"@,
        DbError::Overflow => "Counter value out of range"@,
        DbError::Batch { failures, message } => message@,
    }
}

impl DbError {
    /// This error as a descriptive text.
    pub fn message(&self) -> (r: String)
        ensures
            r@ == error_text(*self),
    {
        match self {
            DbError::EmptyKeys => String::from_str("Array of Keys need to be on length>0"),
            DbError::Connection(m) => {
                let mut s = String::from_str("Error in getting bucket connection : ");
                s.append(m.as_str());
                s
            },
            DbError::Store(f) => f.message.clone(),
            DbError::RetryLimitReached(f) => {
                let mut s = f.message.clone();
                s.append("... retry limit reached");
                s
            },
            DbError::Format => String::from_str("Invalid counter format"),
            DbError::Overflow => String::from_str("Counter value out of range"),
            DbError::Batch { message, .. } => message.clone(),
        }
    }
}

} // verus!
