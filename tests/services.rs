use ksupport::exception::{Exception, FatalCause, Fault};
use ksupport::mailbox::{Reply, SubkernelStatus};
use ksupport::rpc::{cache_get, cache_put, rpc_recv, rpc_send_async, AsyncDelivery, EnqueueError};
use ksupport::subkernel::{
    rtio_now, subkernel_await_finish, subkernel_await_message, subkernel_load_run,
    subkernel_message_destination,
};

fn host_exception() -> Exception {
    Exception {
        id: 9,
        file: String::from("host.py"),
        line: 12,
        column: 3,
        function: String::from("f"),
        message: String::from("boom"),
        param: [1, 2, 3],
    }
}

#[test]
fn receive_loop_ends_at_zero() {
    let replies = vec![
        Reply::RpcRecvReply(Ok(16)),
        Reply::RpcRecvReply(Ok(8)),
        Reply::RpcRecvReply(Ok(0)),
    ];
    let mut calls = 0;
    for r in replies {
        calls += 1;
        if rpc_recv(r).unwrap() == 0 {
            break;
        }
    }
    assert_eq!(calls, 3);
}

#[test]
fn receive_exception_short_circuits() {
    let e = rpc_recv(Reply::RpcRecvReply(Err(host_exception()))).unwrap_err();
    assert!(e.is_recoverable());
    assert_eq!(e.message(), "boom");
    assert_eq!(e.params(), [1, 2, 3]);
    let f = rpc_recv(Reply::Other).unwrap_err();
    assert!(matches!(f, Fault::Fatal(FatalCause::UnexpectedReply)));
}

#[test]
fn cache_put_busy_row() {
    assert!(cache_put(Reply::CachePutReply { succeeded: true }).is_ok());
    let e = cache_put(Reply::CachePutReply { succeeded: false }).unwrap_err();
    assert_eq!(e.name(), "CacheError");
    assert_eq!(e.message(), "cannot put into a busy cache row");
}

#[test]
fn cache_get_values() {
    let v = cache_get(Reply::CacheGetReply { value: vec![1, 2, 3] }).unwrap();
    assert_eq!(v, vec![1, 2, 3]);
    assert!(cache_get(Reply::CachePutReply { succeeded: true }).is_err());
}

#[test]
fn async_delivery() {
    assert_eq!(rpc_send_async(Ok(())).unwrap(), AsyncDelivery::Queued);
    assert_eq!(
        rpc_send_async(Err(EnqueueError::UnexpectedEnd)).unwrap(),
        AsyncDelivery::Mailbox
    );
    assert!(rpc_send_async(Err(EnqueueError::Other)).is_err());
}

#[test]
fn await_finish_timeout() {
    let e = subkernel_await_finish(Reply::SubkernelError(SubkernelStatus::Timeout)).unwrap_err();
    assert_eq!(e.name(), "SubkernelError");
    assert_eq!(e.message(), "Subkernel timed out");
}

#[test]
fn await_finish_statuses() {
    assert!(subkernel_await_finish(Reply::SubkernelAwaitFinishReply).is_ok());
    let cases = [
        (SubkernelStatus::IncorrectState, "Subkernel not running"),
        (SubkernelStatus::CommLost, "Lost communication with satellite"),
        (SubkernelStatus::OtherError, "An error occurred during subkernel operation"),
    ];
    for (status, text) in cases {
        let e = subkernel_await_finish(Reply::SubkernelError(status)).unwrap_err();
        assert_eq!(e.message(), text);
    }
    let e = subkernel_await_finish(Reply::SubkernelError(SubkernelStatus::Exception(
        host_exception(),
    )))
    .unwrap_err();
    assert!(matches!(e, Fault::Remote(ref x) if x.id == 9 && x.line == 12));
}

#[test]
fn await_message_count_bounds() {
    assert_eq!(subkernel_await_message(Reply::SubkernelMsgRecvReply { count: 2 }, 1, 3).unwrap(), 2);
    assert_eq!(subkernel_await_message(Reply::SubkernelMsgRecvReply { count: 1 }, 1, 1).unwrap(), 1);
    for count in [0u8, 4, 255] {
        let e = subkernel_await_message(Reply::SubkernelMsgRecvReply { count }, 1, 3).unwrap_err();
        assert_eq!(e.name(), "SubkernelError");
        assert_eq!(e.message(), "Received less or more arguments than expected");
    }
}

#[test]
fn load_run_failure() {
    assert!(subkernel_load_run(Reply::SubkernelLoadRunReply { succeeded: true }).is_ok());
    let e = subkernel_load_run(Reply::SubkernelLoadRunReply { succeeded: false }).unwrap_err();
    assert_eq!(e.message(), "Error loading or running the subkernel");
}

#[test]
fn message_destination() {
    assert_eq!(subkernel_message_destination(true, 4), None);
    assert_eq!(subkernel_message_destination(false, 4), Some(4));
}

#[test]
fn clock_halves() {
    assert_eq!(rtio_now(1, 2), 0x1_0000_0002);
    assert_eq!(rtio_now(0xffff_ffff, 0xffff_ffff), u64::MAX);
}

#[test]
fn second_cache_put_on_busy_row() {
    // first put of [1, 2, 3] under "k" is accepted, the second (of [4]) finds the row busy
    assert!(cache_put(Reply::CachePutReply { succeeded: true }).is_ok());
    let e = cache_put(Reply::CachePutReply { succeeded: false }).unwrap_err();
    assert_eq!(e.name(), "CacheError");
    assert!(e.is_recoverable());
}
