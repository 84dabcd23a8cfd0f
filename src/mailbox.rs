//! The host's replies, as the runtime's services receive them from the
//! mailbox.
use vstd::prelude::*;
use crate::exception::Exception;

verus! {

/// How the host reports a subkernel operation that did not complete.
#[derive(Clone, Debug)]
pub enum SubkernelStatus {
    IncorrectState,
    Timeout,
    CommLost,
    OtherError,
    Exception(Exception),
}

/// A message from the host that answers one of the runtime's requests.
#[derive(Debug)]
pub enum Reply {
    /// More bytes needed (positive), value complete (zero), or an exception.
    RpcRecvReply(Result<usize, Exception>),
    CacheGetReply { value: Vec<i32> },
    CachePutReply { succeeded: bool },
    /// The trace's address when found, its duration and distributed flag.
    DmaRetrieveReply { trace: Option<u32>, duration: u64, uses_ddma: bool },
    DmaAwaitRemoteReply { timeout: bool, error: u8, channel: u32, timestamp: u64 },
    SubkernelLoadRunReply { succeeded: bool },
    SubkernelAwaitFinishReply,
    SubkernelMsgRecvReply { count: u8 },
    SubkernelError(SubkernelStatus),
    /// Any message that answers none of the requests above.
    Other,
}

} // verus!
