//! The errors that the operations of the store report.

use vstd::prelude::*;

verus! {

/// The reasons for which an operation is abandoned without effect.
#[derive(Clone, Copy, Debug, PartialEq, Eq, Structural)]
pub enum Fault {
    /// The record does not fit into the bytes reserved for one record.
    RecordTooLarge,
    /// Stored bytes are not the encoding of any record.
    CorruptRecord,
    /// Every identifier has been issued.
    IdsExhausted,
    /// The advanced identifier counter could not be written to stable memory.
    CounterNotSaved,
    /// The identifier counter could not be opened.
    CounterUnreadable,
}

/// What an operation returns when it does not succeed.
#[derive(Clone, Debug, PartialEq, Eq)]
pub enum Error {
    /// Nothing is stored under the identifier asked for, or there is nothing to list.
    NotFound { msg: String },
    /// The operation was abandoned; the store is as it was before the call.
    Internal { fault: Fault },
}

/// An [`Error`] with its message as a sequence of characters.
pub enum ErrorView {
    NotFound { msg: Seq<char> },
    Internal { fault: Fault },
}

impl View for Error {
    type V = ErrorView;

    open spec fn view(&self) -> ErrorView {
        match self {
            Error::NotFound { msg } => ErrorView::NotFound { msg: msg@ },
            Error::Internal { fault } => ErrorView::Internal { fault: *fault },
        }
    }
}

/// Whether `r` is the error for something that is not there, with the message `msg`.
pub open spec fn is_not_found<T>(r: Result<T, Error>, msg: Seq<char>) -> bool {
    r matches Err(e) && e@ == (ErrorView::NotFound { msg })
}

/// Whether `r` is the error for an operation abandoned because of `fault`.
pub open spec fn is_fault<T>(r: Result<T, Error>, fault: Fault) -> bool {
    r matches Err(e) && e@ == (ErrorView::Internal { fault })
}

impl Error {
    /// The error for an abandoned operation.
    pub fn internal(fault: Fault) -> (e: Error)
        ensures
            e@ == (ErrorView::Internal { fault }),
    {
        Error::Internal { fault }
    }

    /// The error for something that is not there, with the given message.
    pub fn not_found(msg: String) -> (e: Error)
        ensures
            e@ == (ErrorView::NotFound { msg: msg@ }),
    {
        Error::NotFound { msg }
    }
}

} // verus!
