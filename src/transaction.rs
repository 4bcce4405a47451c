//! Transactions: how a call is submitted to an object and completed, and how
//! a local service dispatches the calls it receives.
use vstd::prelude::*;
use crate::parcel::{null_pointer_payload, Parcel};
use crate::runtime::{Runtime, SpIBinder};
use crate::status::{BinderResult, StatusCode, EX_NULL_POINTER};

verus! {

/// Selects the operation a transaction performs.
pub type TransactionCode = u32;

/// Modifiers of a transaction, as a set of bits.
pub type TransactionFlags = u32;

/// First transaction code available for user operations (inclusive).
pub const FIRST_CALL_TRANSACTION: TransactionCode = 0x00000001;

/// Last transaction code available for user operations (inclusive).
pub const LAST_CALL_TRANSACTION: TransactionCode = 0x00ffffff;

/// The reserved code that checks whether an object still answers.
pub const PING_TRANSACTION: TransactionCode = 0x5f504e47;

/// The call returns once it is accepted for delivery, with no reply.
pub const FLAG_ONEWAY: TransactionFlags = 0x01;

/// The transaction buffers are cleared once the call is made.
pub const FLAG_CLEAR_BUF: TransactionFlags = 0x20;

/// Whether `code` selects a user operation rather than a reserved one.
pub open spec fn is_user_code(code: TransactionCode) -> bool {
    FIRST_CALL_TRANSACTION <= code <= LAST_CALL_TRANSACTION
}

/// Whether `flags` mark a one-way call.
pub open spec fn is_one_way(flags: TransactionFlags) -> bool {
    flags & FLAG_ONEWAY != 0
}

/// Whether `code` selects a user operation rather than a reserved one.
pub fn user_code(code: TransactionCode) -> (r: bool)
    ensures
        r == is_user_code(code),
{
    FIRST_CALL_TRANSACTION <= code && code <= LAST_CALL_TRANSACTION
}

/// Whether `flags` mark a one-way call.
pub fn one_way(flags: TransactionFlags) -> (r: bool)
    ensures
        r == is_one_way(flags),
{
    flags & FLAG_ONEWAY != 0
}

/// A call accepted for sending: what the transport is to carry.
#[derive(Debug)]
pub struct Transaction {
    /// The identity of the target object.
    pub target: usize,
    pub code: TransactionCode,
    pub flags: TransactionFlags,
    pub data: Parcel,
}

impl SpIBinder {
    /// An empty payload for a call on this object, for the caller to fill.
    pub fn prepare_transact(&self) -> (r: Parcel)
        ensures
            r@ == Seq::<i32>::empty(),
    {
        Parcel::new()
    }

    /// Submits a call on this object. A call on an object that is gone gives
    /// `DeadObject` and changes nothing; otherwise the call is handed on as
    /// given.
    pub fn submit_transact(
        &self,
        rt: &Runtime,
        code: TransactionCode,
        flags: TransactionFlags,
        data: Parcel,
    ) -> (r: BinderResult<Transaction>)
        requires
            rt.wf(),
            rt@.contains(self@),
        ensures
            !rt@.object(self@).alive ==> r == Err::<Transaction, StatusCode>(StatusCode::DeadObject),
            rt@.object(self@).alive ==> r == Ok::<Transaction, StatusCode>(
                Transaction { target: self@ as usize, code, flags, data },
            ),
    {
        if self.is_binder_alive(rt) {
            Ok(Transaction { target: self.id(), code, flags, data })
        } else {
            Err(StatusCode::DeadObject)
        }
    }
}

/// What the transport reports of a submitted call.
#[derive(Debug)]
pub enum Delivery {
    /// The call was accepted for delivery.
    Accepted,
    /// The target replied.
    Reply(Parcel),
    /// The call failed in transport, or its target died meanwhile.
    Failed(StatusCode),
}

/// Where a call stands after a report of the transport.
#[derive(Debug)]
pub enum Completion {
    /// The call is over, with this result.
    Done(BinderResult<Parcel>),
    /// The caller keeps waiting for the reply.
    Waiting,
}

/// Decides how a call with flags `flags` stands after the transport reported
/// `event`. A one-way call is over once accepted, with an empty reply, and
/// never waits for the receiver; a two-way call waits until a reply or a
/// failure comes.
pub fn complete_transact(flags: TransactionFlags, event: Delivery) -> (r: Completion)
    ensures
        match event {
            Delivery::Failed(s) => r == Completion::Done(Err(s)),
            Delivery::Accepted => if is_one_way(flags) {
                r is Done && r->Done_0 is Ok && r->Done_0->Ok_0@.len() == 0
            } else {
                r is Waiting
            },
            Delivery::Reply(p) => if is_one_way(flags) {
                r is Done && r->Done_0 is Ok && r->Done_0->Ok_0@.len() == 0
            } else {
                r == Completion::Done(Ok(p))
            },
        },
{
    match event {
        Delivery::Failed(s) => Completion::Done(Err(s)),
        Delivery::Accepted => {
            if one_way(flags) {
                Completion::Done(Ok(Parcel::new()))
            } else {
                Completion::Waiting
            }
        },
        Delivery::Reply(p) => {
            if one_way(flags) {
                Completion::Done(Ok(Parcel::new()))
            } else {
                Completion::Done(Ok(p))
            }
        },
    }
}

/// A service that can be exposed through a local adapter.
pub trait Remotable {
    /// Handles a call with user operation `code` and payload `data`, writing
    /// any reply into `reply`.
    fn on_transact(&self, code: TransactionCode, data: &Parcel, reply: &mut Parcel) -> BinderResult<()>;
}

/// The result of a reserved operation, which no user handler sees.
pub open spec fn reserved_outcome(code: TransactionCode) -> BinderResult<()> {
    if code == PING_TRANSACTION {
        Ok(())
    } else {
        Err(StatusCode::UnknownTransaction)
    }
}

/// Turns a handler's result into the result of the call: an unexpected null
/// becomes a null-pointer exception written into the reply, and anything
/// else passes through with the reply untouched.
pub fn map_handler_result(result: BinderResult<()>, reply: &mut Parcel) -> (r: BinderResult<()>)
    ensures
        result == Err::<(), StatusCode>(StatusCode::UnexpectedNull) ==> r == Ok::<(), StatusCode>(())
            && final(reply)@ == old(reply)@ + null_pointer_payload(),
        result != Err::<(), StatusCode>(StatusCode::UnexpectedNull) ==> r == result && final(reply)@
            == old(reply)@,
{
    match result {
        Err(StatusCode::UnexpectedNull) => {
            reply.write_exception(EX_NULL_POINTER);
            Ok(())
        },
        other => other,
    }
}

/// Dispatches a call received by the local adapter of `service`. Reserved
/// codes are answered here and never reach the service; a user code goes to
/// the service, whose unexpected null is reported as an exception.
pub fn dispatch<S: Remotable>(service: &S, code: TransactionCode, data: &Parcel, reply: &mut Parcel) -> (r:
    BinderResult<()>)
    ensures
        !is_user_code(code) ==> r == reserved_outcome(code) && final(reply)@ == old(reply)@,
        is_user_code(code) ==> r != Err::<(), StatusCode>(StatusCode::UnexpectedNull),
{
    if user_code(code) {
        let handled = service.on_transact(code, data, reply);
        map_handler_result(handled, reply)
    } else if code == PING_TRANSACTION {
        Ok(())
    } else {
        Err(StatusCode::UnknownTransaction)
    }
}

} // verus!
