//! Errors that the hash table reports to its caller.

use vstd::prelude::*;

verus! {

/// An error that the caller can catch and act on.
#[derive(Debug)]
pub enum LimboError {
    /// The engine cannot go on with the operation; the text says why.
    InternalError(String),
}

/// The outcome of an operation that may have to wait for I/O.
#[derive(Debug)]
pub enum IOResult<T> {
    /// The operation is complete.
    Done(T),
    /// The operation has started I/O and has to be taken up again when that
    /// is over. Reserved: nothing returns it yet.
    IO,
}

/// What an insert says when the entry does not fit in the memory budget.
pub open spec fn budget_exceeded_message() -> Seq<char> {
    "Hash table memory budget exceeded. Grace hash join not yet implemented."@
}

impl LimboError {
    /// Whether this error says that the memory budget is exceeded.
    pub open spec fn is_budget_exceeded(self) -> bool {
        match self {
            LimboError::InternalError(text) => text@ == budget_exceeded_message(),
        }
    }

    /// The error of an insert that does not fit in the memory budget.
    pub fn budget_exceeded() -> (e: LimboError)
        ensures
            e.is_budget_exceeded(),
    {
        LimboError::InternalError(
            "Hash table memory budget exceeded. Grace hash join not yet implemented.".to_string(),
        )
    }

    /// The text of this error.
    pub fn message(&self) -> (text: &String)
        ensures
            self == LimboError::InternalError(*text),
    {
        match self {
            LimboError::InternalError(text) => text,
        }
    }
}

} // verus!
