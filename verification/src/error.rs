//! Errors of the coordination services.
use vstd::prelude::*;

use crate::env::concat;

verus! {

/// Failures a coordination service reports to its caller.
#[derive(Debug)]
pub enum Error {
    LeaseNotFound(String),
    LeaseExpired(String),
    ResourceNotFound(String),
    NoMatch,
    Storage(String),
    SubscriptionNotFound(String),
    SubscriptionExpired(String),
    TransactionNotFound(String),
    TransactionTerminal(String),
    TransactionAborted(String),
    TupleNotFound(String),
    Unavailable(String),
    Internal(String),
}

/// The text an error is reported with.
pub open spec fn error_text(e: Error) -> Seq<char> {
    match e {
        Error::LeaseNotFound(s) => "lease not found: "@ + s@,
        Error::LeaseExpired(s) => "lease expired: "@ + s@,
        Error::ResourceNotFound(s) => "resource not found: "@ + s@,
        Error::NoMatch => "no match found for template"@,
        Error::Storage(s) => "storage error: "@ + s@,
        Error::SubscriptionNotFound(s) => "subscription not found: "@ + s@,
        Error::SubscriptionExpired(s) => "subscription expired: "@ + s@,
        Error::TransactionNotFound(s) => "transaction not found: "@ + s@,
        Error::TransactionTerminal(s) => "transaction already finished: "@ + s@,
        Error::TransactionAborted(s) => "transaction aborted: "@ + s@,
        Error::TupleNotFound(s) => "tuple not found: "@ + s@,
        Error::Unavailable(s) => "unavailable: "@ + s@,
        Error::Internal(s) => "internal error: "@ + s@,
    }
}

impl Error {
    /// The text this error is reported with.
    pub fn message(&self) -> (m: String)
        ensures
            m@ == error_text(*self),
    {
        match self {
            Error::LeaseNotFound(s) => concat("lease not found: ", s.as_str()),
            Error::LeaseExpired(s) => concat("lease expired: ", s.as_str()),
            Error::ResourceNotFound(s) => concat("resource not found: ", s.as_str()),
            Error::NoMatch => "no match found for template".to_owned(),
            Error::Storage(s) => concat("storage error: ", s.as_str()),
            Error::SubscriptionNotFound(s) => concat("subscription not found: ", s.as_str()),
            Error::SubscriptionExpired(s) => concat("subscription expired: ", s.as_str()),
            Error::TransactionNotFound(s) => concat("transaction not found: ", s.as_str()),
            Error::TransactionTerminal(s) => concat("transaction already finished: ", s.as_str()),
            Error::TransactionAborted(s) => concat("transaction aborted: ", s.as_str()),
            Error::TupleNotFound(s) => concat("tuple not found: ", s.as_str()),
            Error::Unavailable(s) => concat("unavailable: ", s.as_str()),
            Error::Internal(s) => concat("internal error: ", s.as_str()),
        }
    }
}

/// The class of an RPC failure, as a service answers it.
#[derive(Debug, Clone, Copy, PartialEq, Eq, Structural)]
pub enum StatusKind {
    NotFound,
    FailedPrecondition,
    Aborted,
    Unavailable,
    Internal,
}

/// How a failed lease renewal is answered: an unknown lease is not found,
/// an expired one fails its precondition, anything else is internal.
pub fn renew_status(e: &Error) -> (k: StatusKind)
    ensures
        k == match *e {
            Error::LeaseNotFound(_) => StatusKind::NotFound,
            Error::LeaseExpired(_) => StatusKind::FailedPrecondition,
            _ => StatusKind::Internal,
        },
{
    match e {
        Error::LeaseNotFound(_) => StatusKind::NotFound,
        Error::LeaseExpired(_) => StatusKind::FailedPrecondition,
        _ => StatusKind::Internal,
    }
}

/// How a failed transaction request is answered: a dependency not ready
/// yet is unavailable (safe to retry), anything else is internal.
pub fn txn_status(e: &Error) -> (k: StatusKind)
    ensures
        k == (if e is Unavailable {
            StatusKind::Unavailable
        } else {
            StatusKind::Internal
        }),
{
    match e {
        Error::Unavailable(_) => StatusKind::Unavailable,
        _ => StatusKind::Internal,
    }
}

} // verus!
