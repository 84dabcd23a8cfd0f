//! Loading, running and exchanging messages with subkernels on satellites.
use vstd::prelude::*;
use crate::exception::{Fault, FatalCause};
use crate::mailbox::{Reply, SubkernelStatus};

verus! {

/// The fault a subkernel status stands for; a propagated exception is
/// re-raised as it came.
pub open spec fn status_fault(status: SubkernelStatus) -> Fault {
    match status {
        SubkernelStatus::IncorrectState => Fault::SubkernelNotRunning,
        SubkernelStatus::Timeout => Fault::SubkernelTimedOut,
        SubkernelStatus::CommLost => Fault::SubkernelCommLost,
        SubkernelStatus::OtherError => Fault::SubkernelOther,
        SubkernelStatus::Exception(e) => Fault::Remote(e),
    }
}

fn fault_of_status(status: SubkernelStatus) -> (r: Fault)
    ensures
        r == status_fault(status),
{
    match status {
        SubkernelStatus::IncorrectState => Fault::SubkernelNotRunning,
        SubkernelStatus::Timeout => Fault::SubkernelTimedOut,
        SubkernelStatus::CommLost => Fault::SubkernelCommLost,
        SubkernelStatus::OtherError => Fault::SubkernelOther,
        SubkernelStatus::Exception(e) => Fault::Remote(e),
    }
}

/// The outcome of loading (and perhaps starting) a subkernel.
pub fn subkernel_load_run(reply: Reply) -> (r: Result<(), Fault>)
    ensures
        r == match reply {
            Reply::SubkernelLoadRunReply { succeeded } => if succeeded {
                Ok::<(), Fault>(())
            } else {
                Err(Fault::SubkernelLoadRun)
            },
            _ => Err(Fault::Fatal(FatalCause::UnexpectedReply)),
        },
{
    match reply {
        Reply::SubkernelLoadRunReply { succeeded } => if succeeded {
            Ok(())
        } else {
            Err(Fault::SubkernelLoadRun)
        },
        _ => Err(Fault::Fatal(FatalCause::UnexpectedReply)),
    }
}

/// The outcome of waiting for a subkernel to finish.
pub fn subkernel_await_finish(reply: Reply) -> (r: Result<(), Fault>)
    ensures
        r == match reply {
            Reply::SubkernelAwaitFinishReply => Ok::<(), Fault>(()),
            Reply::SubkernelError(status) => Err(status_fault(status)),
            _ => Err(Fault::Fatal(FatalCause::UnexpectedReply)),
        },
{
    match reply {
        Reply::SubkernelAwaitFinishReply => Ok(()),
        Reply::SubkernelError(status) => Err(fault_of_status(status)),
        _ => Err(Fault::Fatal(FatalCause::UnexpectedReply)),
    }
}

/// What waiting for a message yields for a reply: its argument count when
/// within `[min, max]`, `SubkernelArgCount` when outside, the fault of a
/// subkernel status, or a fatal protocol error for any other message.
pub open spec fn await_message_outcome(reply: Reply, min: u8, max: u8) -> Result<u8, Fault> {
    match reply {
        Reply::SubkernelMsgRecvReply { count } => if count < min || count > max {
            Err(Fault::SubkernelArgCount)
        } else {
            Ok(count)
        },
        Reply::SubkernelError(status) => Err(status_fault(status)),
        _ => Err(Fault::Fatal(FatalCause::UnexpectedReply)),
    }
}

/// The outcome of waiting for a message: its argument count when within
/// `[min, max]`, `SubkernelArgCount` when outside.
pub fn subkernel_await_message(reply: Reply, min: u8, max: u8) -> (r: Result<u8, Fault>)
    ensures
        r == await_message_outcome(reply, min, max),
{
    match reply {
        Reply::SubkernelMsgRecvReply { count } => if count < min || count > max {
            Err(Fault::SubkernelArgCount)
        } else {
            Ok(count)
        },
        Reply::SubkernelError(status) => Err(fault_of_status(status)),
        _ => Err(Fault::Fatal(FatalCause::UnexpectedReply)),
    }
}

/// A message count outside `[min, max]` never comes back as a count: it
/// always ends in `SubkernelArgCount`.
pub proof fn lemma_count_outside_bounds(count: u8, min: u8, max: u8)
    requires
        count < min || count > max,
    ensures
        await_message_outcome(Reply::SubkernelMsgRecvReply { count }, min, max)
            == Err::<u8, Fault>(Fault::SubkernelArgCount),
{
}

/// Where a subkernel message goes: nowhere named for a return value (it
/// goes back to the caller), else to `destination`.
pub fn subkernel_message_destination(is_return: bool, destination: u8) -> (r: Option<u8>)
    ensures
        is_return ==> r is None,
        !is_return ==> r == Some(destination),
{
    if is_return {
        None
    } else {
        Some(destination)
    }
}

/// The real-time clock value from its two halves.
pub fn rtio_now(hi: u32, lo: u32) -> (r: u64)
    ensures
        r == hi as nat * 0x1_0000_0000 + lo as nat,
{
    let r = ((hi as u64) << 32) | (lo as u64);
    assert(((hi as u64) << 32) | (lo as u64) == hi as u64 * 0x1_0000_0000u64 + lo as u64) by (bit_vector);
    r
}

} // verus!
