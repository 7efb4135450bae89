//! The ways in which an operation on reports can fail.

use vstd::prelude::*;

verus! {

/// Why an operation on the report store did not succeed.
#[derive(Clone, Copy, Debug, PartialEq, Eq, Structural)]
pub enum ReportError {
    /// No report has the identifier that was asked for.
    NotFound,
    /// The page or the page size is outside what pagination accepts.
    InvalidPagination,
    /// A record with the same key is already there.
    UniqueViolation,
    /// A record refers to another one that is not there.
    ForeignKeyViolation,
    /// A record holds a value that its table does not admit.
    CheckViolation,
    /// The store could not carry the operation out.
    StoreUnavailable,
}

/// What a failure reported by a relational store amounts to, as far as the
/// callers of this library tell failures apart.
#[derive(Clone, Copy, Debug, PartialEq, Eq, Structural)]
pub enum StoreFault {
    /// A query that must return a row returned none.
    NoRow,
    /// The query could not be built from its parameters.
    QueryBuilder,
    /// A unique constraint was violated.
    Unique,
    /// A foreign key constraint was violated.
    ForeignKey,
    /// A check constraint was violated.
    Check,
    /// Anything else: the connection, the transport, the transaction.
    Other,
}

impl ReportError {
    /// The error that stands for a fault of the store: a missing row is
    /// `NotFound`, a query that could not be built is `InvalidPagination`
    /// (the page and the page size are the only parameters that can make a
    /// query unbuildable), a constraint violation keeps its kind, and
    /// everything else is `StoreUnavailable`.
    pub open spec fn of_fault(fault: StoreFault) -> ReportError {
        match fault {
            StoreFault::NoRow => ReportError::NotFound,
            StoreFault::QueryBuilder => ReportError::InvalidPagination,
            StoreFault::Unique => ReportError::UniqueViolation,
            StoreFault::ForeignKey => ReportError::ForeignKeyViolation,
            StoreFault::Check => ReportError::CheckViolation,
            StoreFault::Other => ReportError::StoreUnavailable,
        }
    }

    /// Maps a fault of the store to the error that callers see.
    pub fn from_fault(fault: StoreFault) -> (error: ReportError)
        ensures
            error == Self::of_fault(fault),
    {
        match fault {
            StoreFault::NoRow => ReportError::NotFound,
            StoreFault::QueryBuilder => ReportError::InvalidPagination,
            StoreFault::Unique => ReportError::UniqueViolation,
            StoreFault::ForeignKey => ReportError::ForeignKeyViolation,
            StoreFault::Check => ReportError::CheckViolation,
            StoreFault::Other => ReportError::StoreUnavailable,
        }
    }
}

} // verus!
