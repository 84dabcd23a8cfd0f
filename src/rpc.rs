//! Remote procedure calls to the host and the host-backed cache.
use vstd::prelude::*;
use crate::exception::{Fault, FatalCause};
use crate::mailbox::Reply;

verus! {

/// What one step of receiving an RPC result yields for a reply: the
/// number of bytes the next step needs (zero once the value is complete),
/// the host's exception, or a fatal protocol error for any other message.
pub open spec fn rpc_recv_outcome(reply: Reply) -> Result<usize, Fault> {
    match reply {
        Reply::RpcRecvReply(Ok(n)) => Ok(n),
        Reply::RpcRecvReply(Err(e)) => Err(Fault::Remote(e)),
        _ => Err(Fault::Fatal(FatalCause::UnexpectedReply)),
    }
}

/// One step of receiving an RPC result (see `rpc_recv_outcome`).
pub fn rpc_recv(reply: Reply) -> (r: Result<usize, Fault>)
    ensures
        r == rpc_recv_outcome(reply),
{
    match reply {
        Reply::RpcRecvReply(Ok(n)) => Ok(n),
        Reply::RpcRecvReply(Err(e)) => Err(Fault::Remote(e)),
        _ => Err(Fault::Fatal(FatalCause::UnexpectedReply)),
    }
}

/// The number of steps a receive loop takes over the host's replies, and
/// how it ends: it stops at the first reply that completes the value or
/// fails; `None` when the replies run out first.
pub open spec fn receive_loop(replies: Seq<Reply>) -> (nat, Option<Result<(), Fault>>)
    decreases replies.len(),
{
    if replies.len() == 0 {
        (0, None)
    } else {
        match rpc_recv_outcome(replies[0]) {
            Ok(n) => if n == 0 {
                (1, Some(Ok(())))
            } else {
                let (k, end) = receive_loop(replies.drop_first());
                (k + 1, end)
            },
            Err(f) => (1, Some(Err(f))),
        }
    }
}

/// A receive loop whose replies ask for the allocations `sizes`, each
/// positive, and then for nothing more, ends after exactly one step per
/// allocation plus one, and completes. Where the reply after those
/// allocations carries an exception instead, the loop ends at that step
/// with the exception and never completes.
pub proof fn lemma_receive_terminates(sizes: Seq<usize>, last: Reply, rest: Seq<Reply>)
    requires
        forall|i: int| 0 <= i < sizes.len() ==> #[trigger] sizes[i] > 0,
        last matches Reply::RpcRecvReply(Ok(n)) ==> n == 0,
        last is RpcRecvReply,
    ensures
        ({
            let replies = sizes.map_values(|n: usize| Reply::RpcRecvReply(Ok(n))).push(last) + rest;
            &&& receive_loop(replies).0 == sizes.len() + 1
            &&& last matches Reply::RpcRecvReply(Ok(_)) ==> receive_loop(replies).1 == Some(Ok::<(), Fault>(()))
            &&& last matches Reply::RpcRecvReply(Err(e)) ==> receive_loop(replies).1 == Some(Err::<(), Fault>(Fault::Remote(e)))
        }),
    decreases sizes.len(),
{
    let replies = sizes.map_values(|n: usize| Reply::RpcRecvReply(Ok(n))).push(last) + rest;
    if sizes.len() == 0 {
        assert(replies[0] == last);
    } else {
        let tail = sizes.drop_first();
        assert forall|i: int| 0 <= i < tail.len() implies #[trigger] tail[i] > 0 by {
            assert(tail[i] == sizes[i + 1]);
        }
        lemma_receive_terminates(tail, last, rest);
        assert(replies.drop_first() =~= tail.map_values(|n: usize| Reply::RpcRecvReply(Ok(n))).push(last) + rest);
        assert(replies[0] == Reply::RpcRecvReply(Ok(sizes[0])));
    }
}

/// The values of a cache row, from the host's reply to a lookup.
pub fn cache_get(reply: Reply) -> (r: Result<Vec<i32>, Fault>)
    ensures
        reply matches Reply::CacheGetReply { value } ==> (r matches Ok(v) && v@ == value@),
        !(reply is CacheGetReply) ==> r == Err::<Vec<i32>, Fault>(Fault::Fatal(FatalCause::UnexpectedReply)),
{
    match reply {
        Reply::CacheGetReply { value } => Ok(value),
        _ => Err(Fault::Fatal(FatalCause::UnexpectedReply)),
    }
}

/// The outcome of storing a cache row: `CacheBusy` when the host refused
/// because the row is in use.
pub fn cache_put(reply: Reply) -> (r: Result<(), Fault>)
    ensures
        r == match reply {
            Reply::CachePutReply { succeeded } => if succeeded {
                Ok::<(), Fault>(())
            } else {
                Err(Fault::CacheBusy)
            },
            _ => Err(Fault::Fatal(FatalCause::UnexpectedReply)),
        },
{
    match reply {
        Reply::CachePutReply { succeeded } => if succeeded {
            Ok(())
        } else {
            Err(Fault::CacheBusy)
        },
        _ => Err(Fault::Fatal(FatalCause::UnexpectedReply)),
    }
}

/// Why an asynchronous call could not be put into the shared queue.
#[derive(Clone, Copy, Debug, PartialEq, Eq, Structural)]
pub enum EnqueueError {
    /// The encoded call does not fit in a queue slot.
    UnexpectedEnd,
    /// The encoder failed for another reason.
    Other,
}

/// How an asynchronous call is delivered.
#[derive(Clone, Copy, Debug, PartialEq, Eq, Structural)]
pub enum AsyncDelivery {
    /// It went into the shared queue.
    Queued,
    /// It did not fit in a slot: wait for the queue to drain, then send it
    /// through the mailbox as a synchronous-path message marked async.
    Mailbox,
}

/// Decides the delivery of an asynchronous call after trying to enqueue
/// it; an encoder failure other than running out of room is fatal.
pub fn rpc_send_async(enqueued: Result<(), EnqueueError>) -> (r: Result<AsyncDelivery, Fault>)
    ensures
        r == match enqueued {
            Ok(()) => Ok::<AsyncDelivery, Fault>(AsyncDelivery::Queued),
            Err(EnqueueError::UnexpectedEnd) => Ok(AsyncDelivery::Mailbox),
            Err(EnqueueError::Other) => Err(Fault::Fatal(FatalCause::EncodeFailed)),
        },
{
    match enqueued {
        Ok(()) => Ok(AsyncDelivery::Queued),
        Err(EnqueueError::UnexpectedEnd) => Ok(AsyncDelivery::Mailbox),
        Err(EnqueueError::Other) => Err(Fault::Fatal(FatalCause::EncodeFailed)),
    }
}

} // verus!
