//! Object identity and transaction dispatch for an object-capability IPC layer.
//!
//! The crate models one process's view of the IPC runtime: the interface
//! classes it has defined, the objects (local services and remote handles) it
//! can reach, and the decisions made on them: how a handle is resolved into
//! an owning reference, how transactions are submitted and completed, how a
//! local service dispatches a request, and how death notifications are linked.
use vstd::prelude::*;

pub mod status;
pub mod parcel;
pub mod class;
pub mod runtime;
pub mod reference;
pub mod transaction;
pub mod laws;
