use std::cell::Cell;

use binder::parcel::Parcel;
use binder::runtime::Runtime;
use binder::status::{BinderResult, StatusCode, EX_NULL_POINTER, NO_MESSAGE};
use binder::transaction::{
    complete_transact, dispatch, one_way, map_handler_result, user_code, Completion, Delivery,
    Remotable, TransactionCode, FIRST_CALL_TRANSACTION, FLAG_CLEAR_BUF, FLAG_ONEWAY,
    LAST_CALL_TRANSACTION, PING_TRANSACTION,
};

struct Echo {
    calls: Cell<u32>,
    outcome: BinderResult<()>,
}

impl Remotable for Echo {
    fn on_transact(&self, code: TransactionCode, data: &Parcel, reply: &mut Parcel) -> BinderResult<()> {
        self.calls.set(self.calls.get() + 1);
        reply.write_i32(code as i32);
        if let Some(w) = data.read_i32(0) {
            reply.write_i32(w);
        }
        self.outcome
    }
}

fn echo(outcome: BinderResult<()>) -> Echo {
    Echo { calls: Cell::new(0), outcome }
}

#[test]
fn submit_on_dead_remote_is_dead_object() {
    let mut rt = Runtime::new();
    let h = rt.new_remote();
    let w = rt.downgrade(&h);
    let mut data = h.prepare_transact();
    data.write_i32(5);
    assert!(h.submit_transact(&rt, 1, 0, data).is_ok());
    rt.remote_died(&w);
    let mut data = h.prepare_transact();
    data.write_i32(5);
    assert!(matches!(h.submit_transact(&rt, 1, 0, data), Err(StatusCode::DeadObject)));
    let data = h.prepare_transact();
    assert!(matches!(h.submit_transact(&rt, 1, FLAG_ONEWAY, data), Err(StatusCode::DeadObject)));
}

#[test]
fn submit_on_live_object_hands_call_on() {
    let mut rt = Runtime::new();
    let h = rt.new_remote();
    let mut data = h.prepare_transact();
    assert!(data.is_empty());
    data.write_i32(42);
    let t = h.submit_transact(&rt, 3, FLAG_CLEAR_BUF, data).unwrap();
    assert_eq!(t.target, h.id());
    assert_eq!(t.code, 3);
    assert_eq!(t.flags, FLAG_CLEAR_BUF);
    assert_eq!(t.data.len(), 1);
    assert_eq!(t.data.read_i32(0), Some(42));
}

#[test]
fn one_way_completes_on_acceptance_with_empty_reply() {
    match complete_transact(FLAG_ONEWAY, Delivery::Accepted) {
        Completion::Done(Ok(p)) => assert!(p.is_empty()),
        _ => panic!("one-way call did not complete on acceptance"),
    }
    let mut reply = Parcel::new();
    reply.write_i32(9);
    match complete_transact(FLAG_ONEWAY | FLAG_CLEAR_BUF, Delivery::Reply(reply)) {
        Completion::Done(Ok(p)) => assert_eq!(p.len(), 0),
        _ => panic!("one-way call carried a reply"),
    }
    assert!(matches!(
        complete_transact(FLAG_ONEWAY, Delivery::Failed(StatusCode::DeadObject)),
        Completion::Done(Err(StatusCode::DeadObject))
    ));
}

#[test]
fn two_way_waits_for_reply() {
    assert!(matches!(complete_transact(0, Delivery::Accepted), Completion::Waiting));
    let mut reply = Parcel::new();
    reply.write_i32(9);
    reply.write_i32(-2);
    match complete_transact(FLAG_CLEAR_BUF, Delivery::Reply(reply)) {
        Completion::Done(Ok(p)) => {
            assert_eq!(p.len(), 2);
            assert_eq!(p.read_i32(0), Some(9));
            assert_eq!(p.read_i32(1), Some(-2));
            assert_eq!(p.read_i32(2), None);
        }
        _ => panic!("two-way call lost its reply"),
    }
    assert!(matches!(
        complete_transact(0, Delivery::Failed(StatusCode::FailedTransaction)),
        Completion::Done(Err(StatusCode::FailedTransaction))
    ));
}

#[test]
fn flags_and_codes() {
    assert!(one_way(FLAG_ONEWAY));
    assert!(one_way(FLAG_ONEWAY | FLAG_CLEAR_BUF));
    assert!(!one_way(FLAG_CLEAR_BUF));
    assert!(!one_way(0));
    assert!(user_code(FIRST_CALL_TRANSACTION));
    assert!(user_code(LAST_CALL_TRANSACTION));
    assert!(!user_code(0));
    assert!(!user_code(LAST_CALL_TRANSACTION + 1));
    assert!(!user_code(PING_TRANSACTION));
}

#[test]
fn unexpected_null_becomes_exception() {
    let mut reply = Parcel::new();
    let r = map_handler_result(Err(StatusCode::UnexpectedNull), &mut reply);
    assert_eq!(r, Ok(()));
    assert_eq!(reply.len(), 2);
    assert_eq!(reply.read_i32(0), Some(EX_NULL_POINTER));
    assert_eq!(reply.read_i32(1), Some(NO_MESSAGE));
    assert_eq!(EX_NULL_POINTER, -4);
}

#[test]
fn other_handler_results_pass_through() {
    let mut reply = Parcel::new();
    reply.write_i32(1);
    assert_eq!(map_handler_result(Err(StatusCode::BadType), &mut reply), Err(StatusCode::BadType));
    assert_eq!(map_handler_result(Ok(()), &mut reply), Ok(()));
    assert_eq!(reply.len(), 1);
}

#[test]
fn dispatch_user_code_reaches_service() {
    let service = echo(Ok(()));
    let mut data = Parcel::new();
    data.write_i32(77);
    let mut reply = Parcel::new();
    assert_eq!(dispatch(&service, 5, &data, &mut reply), Ok(()));
    assert_eq!(service.calls.get(), 1);
    assert_eq!(reply.read_i32(0), Some(5));
    assert_eq!(reply.read_i32(1), Some(77));
}

#[test]
fn dispatch_reports_unexpected_null_as_exception() {
    let service = echo(Err(StatusCode::UnexpectedNull));
    let data = Parcel::new();
    let mut reply = Parcel::new();
    assert_eq!(dispatch(&service, 5, &data, &mut reply), Ok(()));
    assert_eq!(reply.len(), 3);
    assert_eq!(reply.read_i32(1), Some(EX_NULL_POINTER));
    assert_eq!(reply.read_i32(2), Some(NO_MESSAGE));
}

#[test]
fn dispatch_passes_other_errors() {
    let service = echo(Err(StatusCode::InvalidOperation));
    let data = Parcel::new();
    let mut reply = Parcel::new();
    assert_eq!(dispatch(&service, 5, &data, &mut reply), Err(StatusCode::InvalidOperation));
}

#[test]
fn reserved_codes_never_reach_service() {
    let service = echo(Ok(()));
    let data = Parcel::new();
    let mut reply = Parcel::new();
    assert_eq!(dispatch(&service, PING_TRANSACTION, &data, &mut reply), Ok(()));
    assert_eq!(dispatch(&service, 0, &data, &mut reply), Err(StatusCode::UnknownTransaction));
    assert_eq!(
        dispatch(&service, LAST_CALL_TRANSACTION + 1, &data, &mut reply),
        Err(StatusCode::UnknownTransaction)
    );
    assert_eq!(service.calls.get(), 0);
    assert!(reply.is_empty());
}
