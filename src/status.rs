//! Status values returned by the operations of this crate.
use vstd::prelude::*;

verus! {

/// Why an operation did not succeed.
#[derive(Debug, Clone, Copy, PartialEq, Eq, Structural)]
pub enum StatusCode {
    /// The target object no longer exists.
    DeadObject,
    /// A handle's class cannot be reconciled with the requested interface.
    BadType,
    /// The operation is not valid on this object.
    InvalidOperation,
    /// A value that must be present was missing.
    UnexpectedNull,
    /// The transaction code names no operation of the target.
    UnknownTransaction,
    /// The transport could not carry the transaction.
    FailedTransaction,
}

/// The outcome of an operation: a value, or the status that stopped it.
pub type BinderResult<T> = core::result::Result<T, StatusCode>;

/// Exception code written into a reply when a handler met an unexpected null.
pub const EX_NULL_POINTER: i32 = -4;

/// Marker written in place of an exception message when there is none.
pub const NO_MESSAGE: i32 = -1;

} // verus!
