//! Exception records and the faults this runtime raises into a kernel.
use vstd::prelude::*;

verus! {

/// An exception record as carried across the mailbox: an interned name id,
/// a source location, a message and up to three numeric parameters.
#[derive(Clone, Debug)]
pub struct Exception {
    pub id: u32,
    pub file: String,
    pub line: u32,
    pub column: u32,
    pub function: String,
    pub message: String,
    pub param: [i64; 3],
}

/// Everything a runtime service can end in other than a normal result.
///
/// All variants but the last two are named exceptions raised into the
/// running kernel, which may catch them. `Remote` is an exception that the
/// host propagated and that is re-raised as it came. `Fatal` stops the core.
#[derive(Clone, Debug)]
pub enum Fault {
    CacheBusy,
    DmaAlreadyRecording,
    DmaNotRecording,
    DmaTraceNotFound,
    DmaRemoteTimeout,
    RtioUnderflow { channel: i64, timestamp: i64 },
    RtioDestinationUnreachable { channel: i64, timestamp: i64 },
    SubkernelLoadRun,
    SubkernelNotRunning,
    SubkernelTimedOut,
    SubkernelCommLost,
    SubkernelOther,
    SubkernelArgCount,
    Remote(Exception),
    Fatal(FatalCause),
}

/// Conditions after which the kernel cannot go on: the core reports them
/// once and halts.
#[derive(Clone, Copy, Debug, PartialEq, Eq, Structural)]
pub enum FatalCause {
    /// The host answered with a message the protocol does not allow here.
    UnexpectedReply,
    /// A wide output carried more words than the hardware accepts.
    TooManyWords,
    /// An asynchronous call could not be encoded.
    EncodeFailed,
}

/// The exception name of a fault raised by this runtime itself.
pub open spec fn fault_name(f: Fault) -> Seq<char> {
    match f {
        Fault::CacheBusy => "CacheError"@,
        Fault::DmaAlreadyRecording => "DMAError"@,
        Fault::DmaNotRecording => "DMAError"@,
        Fault::DmaTraceNotFound => "DMAError"@,
        Fault::DmaRemoteTimeout => "DMAError"@,
        Fault::RtioUnderflow { .. } => "RTIOUnderflow"@,
        Fault::RtioDestinationUnreachable { .. } => "RTIODestinationUnreachable"@,
        Fault::Remote(_) => ""@,
        Fault::Fatal(_) => ""@,
        _ => "SubkernelError"@,
    }
}

/// The message text of a fault.
pub open spec fn fault_message(f: Fault) -> Seq<char> {
    match f {
        Fault::CacheBusy => "cannot put into a busy cache row"@,
        Fault::DmaAlreadyRecording => "DMA is already recording"@,
        Fault::DmaNotRecording => "DMA is not recording"@,
        Fault::DmaTraceNotFound => "DMA trace not found"@,
        Fault::DmaRemoteTimeout =>
            "Error running DMA on satellite device, timed out waiting for results"@,
        Fault::RtioUnderflow { .. } =>
            "RTIO underflow at channel {rtio_channel_info:0}, {1} mu"@,
        Fault::RtioDestinationUnreachable { .. } =>
            "RTIO destination unreachable, output, at channel {rtio_channel_info:0}, {1} mu"@,
        Fault::SubkernelLoadRun => "Error loading or running the subkernel"@,
        Fault::SubkernelNotRunning => "Subkernel not running"@,
        Fault::SubkernelTimedOut => "Subkernel timed out"@,
        Fault::SubkernelCommLost => "Lost communication with satellite"@,
        Fault::SubkernelOther => "An error occurred during subkernel operation"@,
        Fault::SubkernelArgCount => "Received less or more arguments than expected"@,
        Fault::Remote(e) => e.message@,
        Fault::Fatal(FatalCause::UnexpectedReply) => "unexpected reply"@,
        Fault::Fatal(FatalCause::TooManyWords) => "too many words in a wide output"@,
        Fault::Fatal(FatalCause::EncodeFailed) => "cannot encode an asynchronous call"@,
    }
}

/// The numeric parameters a fault carries.
pub open spec fn fault_params(f: Fault) -> [i64; 3] {
    match f {
        Fault::RtioUnderflow { channel, timestamp } => [channel, timestamp, 0],
        Fault::RtioDestinationUnreachable { channel, timestamp } => [channel, timestamp, 0],
        Fault::Remote(e) => e.param,
        _ => [0, 0, 0],
    }
}

impl Fault {
    /// Whether the kernel may catch this fault (everything but `Fatal`).
    pub fn is_recoverable(&self) -> (r: bool)
        ensures
            r == !(self is Fatal),
    {
        !matches!(self, Fault::Fatal(_))
    }

    /// The exception name; empty for a host exception (which carries an
    /// interned id instead) and for a fatal condition.
    pub fn name(&self) -> (r: &'static str)
        ensures
            r@ == fault_name(*self),
    {
        match self {
            Fault::CacheBusy => "CacheError",
            Fault::DmaAlreadyRecording => "DMAError",
            Fault::DmaNotRecording => "DMAError",
            Fault::DmaTraceNotFound => "DMAError",
            Fault::DmaRemoteTimeout => "DMAError",
            Fault::RtioUnderflow { .. } => "RTIOUnderflow",
            Fault::RtioDestinationUnreachable { .. } => "RTIODestinationUnreachable",
            Fault::Remote(_) => "",
            Fault::Fatal(_) => "",
            _ => "SubkernelError",
        }
    }

    /// The message text: fixed for this runtime's own faults, the host's
    /// text for a host exception.
    pub fn message(&self) -> (r: &str)
        ensures
            r@ == fault_message(*self),
    {
        match self {
            Fault::CacheBusy => "cannot put into a busy cache row",
            Fault::DmaAlreadyRecording => "DMA is already recording",
            Fault::DmaNotRecording => "DMA is not recording",
            Fault::DmaTraceNotFound => "DMA trace not found",
            Fault::DmaRemoteTimeout =>
                "Error running DMA on satellite device, timed out waiting for results",
            Fault::RtioUnderflow { .. } =>
                "RTIO underflow at channel {rtio_channel_info:0}, {1} mu",
            Fault::RtioDestinationUnreachable { .. } =>
                "RTIO destination unreachable, output, at channel {rtio_channel_info:0}, {1} mu",
            Fault::SubkernelLoadRun => "Error loading or running the subkernel",
            Fault::SubkernelNotRunning => "Subkernel not running",
            Fault::SubkernelTimedOut => "Subkernel timed out",
            Fault::SubkernelCommLost => "Lost communication with satellite",
            Fault::SubkernelOther => "An error occurred during subkernel operation",
            Fault::SubkernelArgCount => "Received less or more arguments than expected",
            Fault::Remote(e) => e.message.as_str(),
            Fault::Fatal(FatalCause::UnexpectedReply) => "unexpected reply",
            Fault::Fatal(FatalCause::TooManyWords) => "too many words in a wide output",
            Fault::Fatal(FatalCause::EncodeFailed) => "cannot encode an asynchronous call",
        }
    }

    /// The three numeric parameters (channel and timestamp for the RTIO
    /// faults, the host's parameters for a host exception, zeros otherwise).
    pub fn params(&self) -> (r: [i64; 3])
        ensures
            r == fault_params(*self),
    {
        match self {
            Fault::RtioUnderflow { channel, timestamp } => [*channel, *timestamp, 0],
            Fault::RtioDestinationUnreachable { channel, timestamp } => [*channel, *timestamp, 0],
            Fault::Remote(e) => e.param,
            _ => [0, 0, 0],
        }
    }
}

} // verus!
