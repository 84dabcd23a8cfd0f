//! Recording of real-time output events into DMA trace records, and the
//! decisions around trace retrieval and playback.
use vstd::prelude::*;
use crate::exception::{Fault, FatalCause};

verus! {

/// Capacity of the recording buffer in bytes.
pub const DMA_BUFFER_SIZE: usize = 65536;

/// Bytes of a record header: length, three channel bytes, an eight-byte
/// timestamp and an address byte.
pub const HEADER_LENGTH: usize = 13;

/// The most data words the hardware accepts in one output.
pub const MAX_WIDE_WORDS: usize = 16;

/// The four little-endian bytes of a data word.
pub open spec fn word_bytes(w: i32) -> Seq<u8> {
    seq![w as u8, (w >> 8) as u8, (w >> 16) as u8, (w >> 24) as u8]
}

/// The data words of a record, each as its four little-endian bytes.
pub open spec fn words_bytes(ws: Seq<i32>) -> Seq<u8>
    decreases ws.len(),
{
    if ws.len() == 0 {
        Seq::empty()
    } else {
        words_bytes(ws.drop_last()) + word_bytes(ws.last())
    }
}

proof fn lemma_words_bytes_len(ws: Seq<i32>)
    ensures
        words_bytes(ws).len() == 4 * ws.len(),
    decreases ws.len(),
{
    if ws.len() > 0 {
        lemma_words_bytes_len(ws.drop_last());
    }
}

/// Length in bytes of a record that carries `n` words.
pub open spec fn record_length(n: nat) -> nat {
    (HEADER_LENGTH + 4 * n) as nat
}

/// A record header: length, target bits 8..32, the timestamp in
/// little-endian order, then the target's low byte (the address).
pub open spec fn header_bytes(timestamp: i64, target: i32, n: nat) -> Seq<u8> {
    seq![
        record_length(n) as u8,
        (target >> 8) as u8,
        (target >> 16) as u8,
        (target >> 24) as u8,
        timestamp as u8,
        (timestamp >> 8) as u8,
        (timestamp >> 16) as u8,
        (timestamp >> 24) as u8,
        (timestamp >> 32) as u8,
        (timestamp >> 40) as u8,
        (timestamp >> 48) as u8,
        (timestamp >> 56) as u8,
        target as u8,
    ]
}

/// The bytes of one trace record.
pub open spec fn record_bytes(timestamp: i64, target: i32, words: Seq<i32>) -> Seq<u8> {
    header_bytes(timestamp, target, words.len()) + words_bytes(words)
}

/// What appending record bytes `rec` does to the pending bytes: when they
/// do not fit in what is left of the buffer, the pending bytes are flushed
/// first (the first component) and the record starts a fresh buffer.
pub open spec fn output_step(pending: Seq<u8>, rec: Seq<u8>) -> (Option<Seq<u8>>, Seq<u8>) {
    if DMA_BUFFER_SIZE - pending.len() < rec.len() {
        (Some(pending), rec)
    } else {
        (None, pending + rec)
    }
}

/// The state of a recorder: whether it records, and the bytes held in its
/// buffer that have not been flushed yet.
pub struct DmaRecorder {
    active: bool,
    buffer: Vec<u8>,
}

impl View for DmaRecorder {
    type V = (bool, Seq<u8>);

    closed spec fn view(&self) -> (bool, Seq<u8>) {
        (self.active, self.buffer@)
    }
}

impl DmaRecorder {
    /// The buffer stays within its capacity, and holds nothing while the
    /// recorder is idle.
    pub open spec fn wf(&self) -> bool {
        &&& self@.1.len() <= DMA_BUFFER_SIZE
        &&& !self@.0 ==> self@.1.len() == 0
    }

    /// An idle recorder with an empty buffer.
    pub fn new() -> (r: Self)
        ensures
            r.wf(),
            r@ == (false, Seq::<u8>::empty()),
    {
        DmaRecorder { active: false, buffer: Vec::new() }
    }

    /// Whether a recording is in progress.
    pub fn is_active(&self) -> (r: bool)
        ensures
            r == self@.0,
    {
        self.active
    }

    /// The number of bytes held in the buffer.
    pub fn data_len(&self) -> (r: usize)
        ensures
            r == self@.1.len(),
    {
        self.buffer.len()
    }

    /// Starts a recording. Fails with `DmaAlreadyRecording`, and changes
    /// nothing, when one is already in progress.
    pub fn record_start(&mut self) -> (r: Result<(), Fault>)
        requires
            old(self).wf(),
        ensures
            final(self).wf(),
            old(self)@.0 ==> r == Err::<(), Fault>(Fault::DmaAlreadyRecording) && final(self)@ == old(self)@,
            !old(self)@.0 ==> r is Ok && final(self)@ == (true, Seq::<u8>::empty()),
    {
        if self.active {
            return Err(Fault::DmaAlreadyRecording);
        }
        self.active = true;
        Ok(())
    }

    /// Hands out the buffered bytes and empties the buffer.
    fn flush(&mut self) -> (r: Vec<u8>)
        ensures
            r@ == old(self)@.1,
            final(self)@ == (old(self)@.0, Seq::<u8>::empty()),
    {
        let mut block: Vec<u8> = Vec::new();
        std::mem::swap(&mut block, &mut self.buffer);
        block
    }

    /// Appends one record, flushing first where it does not fit.
    fn output_prepared(&mut self, timestamp: i64, target: i32, words: &[i32]) -> (r: Option<Vec<u8>>)
        requires
            old(self).wf(),
            old(self)@.0,
            words@.len() <= MAX_WIDE_WORDS,
        ensures
            final(self).wf(),
            final(self)@.0,
            ({
                let (f, p) = output_step(old(self)@.1, record_bytes(timestamp, target, words@));
                &&& final(self)@.1 == p
                &&& match f {
                    Some(b) => r matches Some(v) && v@ == b,
                    None => r is None,
                }
            }),
    {
        let n = words.len();
        let length: usize = HEADER_LENGTH + 4 * n;
        let flushed = if DMA_BUFFER_SIZE - self.buffer.len() < length {
            Some(self.flush())
        } else {
            None
        };
        let ghost start = self.buffer@;
        let len_byte = length as u8;
        self.buffer.push(len_byte);
        self.buffer.push((target >> 8) as u8);
        self.buffer.push((target >> 16) as u8);
        self.buffer.push((target >> 24) as u8);
        self.buffer.push(timestamp as u8);
        self.buffer.push((timestamp >> 8) as u8);
        self.buffer.push((timestamp >> 16) as u8);
        self.buffer.push((timestamp >> 24) as u8);
        self.buffer.push((timestamp >> 32) as u8);
        self.buffer.push((timestamp >> 40) as u8);
        self.buffer.push((timestamp >> 48) as u8);
        self.buffer.push((timestamp >> 56) as u8);
        self.buffer.push(target as u8);
        assert(self.buffer@ == start + header_bytes(timestamp, target, n as nat));
        let mut i: usize = 0;
        while i < n
            invariant
                0 <= i <= n,
                self@.0,
                n == words@.len(),
                n <= MAX_WIDE_WORDS,
                start.len() + length <= DMA_BUFFER_SIZE,
                length == HEADER_LENGTH + 4 * n,
                self.buffer@ == start + header_bytes(timestamp, target, n as nat)
                    + words_bytes(words@.subrange(0, i as int)),
            decreases n - i,
        {
            let w = words[i];
            self.buffer.push(w as u8);
            self.buffer.push((w >> 8) as u8);
            self.buffer.push((w >> 16) as u8);
            self.buffer.push((w >> 24) as u8);
            proof {
                let s = words@.subrange(0, i + 1);
                assert(s.drop_last() == words@.subrange(0, i as int));
                assert(s.last() == w);
            }
            i = i + 1;
        }
        assert(words@.subrange(0, n as int) == words@);
        proof {
            lemma_words_bytes_len(words@);
        }
        flushed
    }

    /// Records an output of several words at `timestamp` to `target`.
    ///
    /// An idle recorder fails with `DmaNotRecording`, and more than
    /// `MAX_WIDE_WORDS` words is a fatal error; in both cases nothing
    /// changes. Otherwise the record is appended, and where it did not fit
    /// in what was left of the buffer, the bytes held before are returned
    /// as a block to append to the trace.
    pub fn record_output_wide(&mut self, timestamp: i64, target: i32, words: &[i32]) -> (r: Result<Option<Vec<u8>>, Fault>)
        requires
            old(self).wf(),
        ensures
            final(self).wf(),
            !old(self)@.0 ==> r == Err::<Option<Vec<u8>>, Fault>(Fault::DmaNotRecording)
                && final(self)@ == old(self)@,
            old(self)@.0 && words@.len() > MAX_WIDE_WORDS ==> r == Err::<Option<Vec<u8>>, Fault>(
                Fault::Fatal(FatalCause::TooManyWords),
            ) && final(self)@ == old(self)@,
            words@.len() <= MAX_WIDE_WORDS && old(self)@.0 ==> r is Ok && final(self)@.0 && ({
                let (f, p) = output_step(old(self)@.1, record_bytes(timestamp, target, words@));
                &&& final(self)@.1 == p
                &&& match f {
                    Some(b) => r matches Ok(Some(v)) && v@ == b,
                    None => r matches Ok(None),
                }
            }),
    {
        if !self.active {
            return Err(Fault::DmaNotRecording);
        }
        if words.len() > MAX_WIDE_WORDS {
            return Err(Fault::Fatal(FatalCause::TooManyWords));
        }
        Ok(self.output_prepared(timestamp, target, words))
    }

    /// Records an output of one word; as `record_output_wide` with that
    /// single word.
    pub fn record_output(&mut self, timestamp: i64, target: i32, word: i32) -> (r: Result<Option<Vec<u8>>, Fault>)
        requires
            old(self).wf(),
        ensures
            final(self).wf(),
            !old(self)@.0 ==> r == Err::<Option<Vec<u8>>, Fault>(Fault::DmaNotRecording) && final(self)@ == old(self)@,
            old(self)@.0 ==> r is Ok && final(self)@.0 && ({
                let (f, p) = output_step(old(self)@.1, record_bytes(timestamp, target, seq![word]));
                &&& final(self)@.1 == p
                &&& match f {
                    Some(b) => r matches Ok(Some(v)) && v@ == b,
                    None => r matches Ok(None),
                }
            }),
    {
        let words = [word];
        assert(words@ == seq![word]);
        self.record_output_wide(timestamp, target, words.as_slice())
    }

    /// Ends a recording. An idle recorder fails with `DmaNotRecording` and
    /// does not change. Otherwise the recorder becomes idle and the result
    /// holds the last block of the trace (the bytes still buffered), the
    /// trace's duration and whether it is to be played on satellites too.
    pub fn record_stop(&mut self, duration: i64, enable_ddma: bool) -> (r: Result<RecordStop, Fault>)
        requires
            old(self).wf(),
        ensures
            final(self).wf(),
            !old(self)@.0 ==> r == Err::<RecordStop, Fault>(Fault::DmaNotRecording) && final(self)@ == old(self)@,
            old(self)@.0 ==> final(self)@ == (false, Seq::<u8>::empty()),
            old(self)@.0 ==> (r matches Ok(s) && s.last_block@ == old(self)@.1
                && s.duration == duration as u64 && s.enable_ddma == enable_ddma),
    {
        if !self.active {
            return Err(Fault::DmaNotRecording);
        }
        let last_block = self.flush();
        self.active = false;
        Ok(RecordStop { last_block, duration: duration as u64, enable_ddma })
    }
}

/// What ending a recording reports to the host.
pub struct RecordStop {
    pub last_block: Vec<u8>,
    pub duration: u64,
    pub enable_ddma: bool,
}

/// A stored trace as handed back to the kernel.
#[derive(Clone, Copy, Debug, PartialEq, Eq, Structural)]
pub struct DmaTrace {
    pub duration: i64,
    pub address: i32,
    pub uses_ddma: bool,
}

/// Interprets the host's answer to a trace lookup: the trace's address,
/// duration and distributed flag when found, `DmaTraceNotFound` otherwise.
pub fn dma_retrieve(trace: Option<u32>, duration: u64, uses_ddma: bool) -> (r: Result<DmaTrace, Fault>)
    ensures
        trace is None ==> r == Err::<DmaTrace, Fault>(Fault::DmaTraceNotFound),
        trace matches Some(a) ==> r == Ok::<DmaTrace, Fault>(
            DmaTrace { duration: duration as i64, address: a as i32, uses_ddma },
        ),
{
    match trace {
        Some(address) => Ok(DmaTrace { duration: duration as i64, address: address as i32, uses_ddma }),
        None => Err(Fault::DmaTraceNotFound),
    }
}

/// The fault a playback error word stands for: bit 0 is an underflow, bit 1
/// an unreachable destination; an underflow is reported first.
pub open spec fn playback_fault(error: u8, channel: i64, timestamp: i64) -> Option<Fault> {
    if error & 1 != 0 {
        Some(Fault::RtioUnderflow { channel, timestamp })
    } else if error & 2 != 0 {
        Some(Fault::RtioDestinationUnreachable { channel, timestamp })
    } else {
        None
    }
}

/// Checks the error state that the DMA controller reports after a local
/// playback, with the channel and timestamp of the offending event.
pub fn dma_playback_result(error: u8, channel: u32, timestamp: u64) -> (r: Result<(), Fault>)
    ensures
        r == match playback_fault(error, channel as i64, timestamp as i64) {
            Some(f) => Err::<(), Fault>(f),
            None => Ok(()),
        },
{
    if error & 1 != 0 {
        Err(Fault::RtioUnderflow { channel: channel as i64, timestamp: timestamp as i64 })
    } else if error & 2 != 0 {
        Err(Fault::RtioDestinationUnreachable { channel: channel as i64, timestamp: timestamp as i64 })
    } else {
        Ok(())
    }
}

/// Checks the reply that closes a playback on satellites: a timeout is a
/// `DmaRemoteTimeout`, otherwise the error word is read as for a local
/// playback.
pub fn dma_remote_result(timeout: bool, error: u8, channel: u32, timestamp: u64) -> (r: Result<(), Fault>)
    ensures
        timeout ==> r == Err::<(), Fault>(Fault::DmaRemoteTimeout),
        !timeout ==> r == match playback_fault(error, channel as i64, timestamp as i64) {
            Some(f) => Err::<(), Fault>(f),
            None => Ok(()),
        },
{
    if timeout {
        return Err(Fault::DmaRemoteTimeout);
    }
    dma_playback_result(error, channel, timestamp)
}

/// The legs of a playback, in order: tell the satellites to start, run the
/// trace on the local controller, then wait for the satellites' result.
#[derive(Clone, Copy, Debug, PartialEq, Eq, Structural)]
pub struct PlaybackPlan {
    pub start_remote: bool,
    pub run_local: bool,
    pub await_remote: bool,
}

/// Plans a playback. A node with its own DMA controller runs the trace
/// locally and involves the satellites only for a distributed trace; a
/// node without one always plays through the satellites' exchange.
pub fn playback_plan(has_local_dma: bool, uses_ddma: bool) -> (r: PlaybackPlan)
    ensures
        r.run_local == has_local_dma,
        r.start_remote == (!has_local_dma || uses_ddma),
        r.await_remote == (!has_local_dma || uses_ddma),
{
    let remote = !has_local_dma || uses_ddma;
    PlaybackPlan { start_remote: remote, run_local: has_local_dma, await_remote: remote }
}

/// Whether a trace address can be handed to the DMA controller, which
/// reads traces aligned to 64 bytes.
pub fn playback_address_ok(ptr: i32) -> (r: bool)
    ensures
        r == (ptr % 64 == 0),
{
    ptr % 64 == 0
}

/// The blocks flushed while appending the records `recs` to an empty
/// buffer, one after the other, and the bytes left in the buffer.
pub open spec fn run_outputs(recs: Seq<Seq<u8>>) -> (Seq<Seq<u8>>, Seq<u8>)
    decreases recs.len(),
{
    if recs.len() == 0 {
        (Seq::empty(), Seq::empty())
    } else {
        let (blocks, pending) = run_outputs(recs.drop_last());
        let (f, rest) = output_step(pending, recs.last());
        match f {
            Some(b) => (blocks.push(b), rest),
            None => (blocks, rest),
        }
    }
}

/// The same run counted in records: the records of each flushed block,
/// and the records still buffered.
pub open spec fn run_groups(recs: Seq<Seq<u8>>) -> (Seq<Seq<Seq<u8>>>, Seq<Seq<u8>>)
    decreases recs.len(),
{
    if recs.len() == 0 {
        (Seq::empty(), Seq::empty())
    } else {
        let (groups, held) = run_groups(recs.drop_last());
        let pending = run_outputs(recs.drop_last()).1;
        if DMA_BUFFER_SIZE - pending.len() < recs.last().len() {
            (groups.push(held), seq![recs.last()])
        } else {
            (groups, held.push(recs.last()))
        }
    }
}

/// Appending a record of at most the buffer's capacity keeps the buffer
/// within its capacity: where the buffered bytes and the record together
/// would exceed it, the buffered bytes are flushed first.
pub proof fn lemma_capacity_kept(pending: Seq<u8>, rec: Seq<u8>)
    requires
        pending.len() <= DMA_BUFFER_SIZE,
        rec.len() <= DMA_BUFFER_SIZE,
    ensures
        output_step(pending, rec).1.len() <= DMA_BUFFER_SIZE,
        pending.len() + rec.len() > DMA_BUFFER_SIZE ==> output_step(pending, rec).0 == Some(pending),
{
}

/// Over any run of records, each flushed block is exactly a run of whole
/// records, no record is split across blocks, every block fits in the
/// buffer, and the blocks followed by what is still buffered are all the
/// records' bytes in the order they were recorded.
pub proof fn lemma_trace_blocks(recs: Seq<Seq<u8>>)
    requires
        forall|i: int| 0 <= i < recs.len() ==> #[trigger] recs[i].len() <= DMA_BUFFER_SIZE,
    ensures
        run_outputs(recs).0.len() == run_groups(recs).0.len(),
        forall|i: int| 0 <= i < run_outputs(recs).0.len()
            ==> #[trigger] run_outputs(recs).0[i] == run_groups(recs).0[i].flatten(),
        run_outputs(recs).1 == run_groups(recs).1.flatten(),
        run_groups(recs).0.flatten() + run_groups(recs).1 == recs,
        run_outputs(recs).0.flatten() + run_outputs(recs).1 == recs.flatten(),
        forall|i: int| 0 <= i < run_outputs(recs).0.len()
            ==> #[trigger] run_outputs(recs).0[i].len() <= DMA_BUFFER_SIZE,
        run_outputs(recs).1.len() <= DMA_BUFFER_SIZE,
    decreases recs.len(),
{
    broadcast use Seq::lemma_flatten_push;
    if recs.len() == 0 {
        assert(Seq::<Seq<Seq<u8>>>::empty().flatten() == Seq::<Seq<u8>>::empty());
        assert(Seq::<Seq<u8>>::empty().flatten() == Seq::<u8>::empty());
        assert(Seq::<Seq<u8>>::empty() + Seq::<Seq<u8>>::empty() =~= recs);
        assert(Seq::<u8>::empty() + Seq::<u8>::empty() =~= Seq::<u8>::empty());
    } else {
        let prev = recs.drop_last();
        let x = recs.last();
        assert forall|i: int| 0 <= i < prev.len() implies #[trigger] prev[i].len() <= DMA_BUFFER_SIZE by {
            assert(prev[i] == recs[i]);
        }
        lemma_trace_blocks(prev);
        assert(recs == prev.push(x));
        assert(x.len() <= DMA_BUFFER_SIZE) by {
            assert(x == recs[recs.len() - 1]);
        }
        let (blocks, pending) = run_outputs(prev);
        let (groups, held) = run_groups(prev);
        if DMA_BUFFER_SIZE - pending.len() < x.len() {
            assert(seq![x].flatten() == x) by {
                seq![x].lemma_flatten_one_element();
            }
            assert(groups.push(held).flatten() + seq![x] =~= (groups.flatten() + held).push(x));
            assert(blocks.push(pending).flatten() + x =~= (blocks.flatten() + pending) + x);
        } else {
            assert(groups.flatten() + held.push(x) =~= (groups.flatten() + held).push(x));
            assert(blocks.flatten() + (pending + x) =~= (blocks.flatten() + pending) + x);
        }
    }
}

/// A word from its four little-endian bytes.
pub open spec fn le_i32(b0: u8, b1: u8, b2: u8, b3: u8) -> i32 {
    (b0 as u32 | (b1 as u32) << 8u32 | (b2 as u32) << 16u32 | (b3 as u32) << 24u32) as i32
}

/// A timestamp from its eight little-endian bytes, starting at `b[i]`.
pub open spec fn le_i64(b: Seq<u8>, i: int) -> i64 {
    (b[i] as u64 | (b[i + 1] as u64) << 8u64 | (b[i + 2] as u64) << 16u64 | (b[i + 3] as u64) << 24u64
        | (b[i + 4] as u64) << 32u64 | (b[i + 5] as u64) << 40u64 | (b[i + 6] as u64) << 48u64
        | (b[i + 7] as u64) << 56u64) as i64
}

/// An output event as read back from a record: target, timestamp, words.
pub open spec fn decode_record(r: Seq<u8>) -> (i32, i64, Seq<i32>) {
    (
        le_i32(r[12], r[1], r[2], r[3]),
        le_i64(r, 4),
        Seq::new(
            ((r[0] - HEADER_LENGTH) / 4) as nat,
            |k: int| le_i32(r[13 + 4 * k], r[14 + 4 * k], r[15 + 4 * k], r[16 + 4 * k]),
        ),
    )
}

/// Reads a trace back into its events, record by record; `None` where a
/// length byte does not describe a whole record.
pub open spec fn decode_trace(b: Seq<u8>) -> Option<Seq<(i32, i64, Seq<i32>)>>
    decreases b.len(),
{
    if b.len() == 0 {
        Some(Seq::empty())
    } else {
        let len = b[0] as int;
        if len < HEADER_LENGTH || (len - HEADER_LENGTH) % 4 != 0 || len > b.len() {
            None
        } else {
            match decode_trace(b.subrange(len, b.len() as int)) {
                Some(rest) => Some(seq![decode_record(b.subrange(0, len))] + rest),
                None => None,
            }
        }
    }
}

proof fn lemma_le_i32(w: i32)
    ensures
        le_i32(w as u8, (w >> 8) as u8, (w >> 16) as u8, (w >> 24) as u8) == w,
{
    assert(((w as u8) as u32 | (((w >> 8) as u8) as u32) << 8u32 | (((w >> 16) as u8) as u32) << 16u32
        | (((w >> 24) as u8) as u32) << 24u32) as i32 == w) by (bit_vector);
}

proof fn lemma_le_i64(t: i64, b: Seq<u8>, i: int)
    requires
        0 <= i,
        i + 8 <= b.len(),
        b[i] == t as u8,
        b[i + 1] == (t >> 8) as u8,
        b[i + 2] == (t >> 16) as u8,
        b[i + 3] == (t >> 24) as u8,
        b[i + 4] == (t >> 32) as u8,
        b[i + 5] == (t >> 40) as u8,
        b[i + 6] == (t >> 48) as u8,
        b[i + 7] == (t >> 56) as u8,
    ensures
        le_i64(b, i) == t,
{
    let (b0, b1, b2, b3, b4, b5, b6, b7) = (b[i], b[i + 1], b[i + 2], b[i + 3], b[i + 4], b[i + 5], b[i + 6], b[i + 7]);
    assert((b0 as u64 | (b1 as u64) << 8u64 | (b2 as u64) << 16u64 | (b3 as u64) << 24u64
        | (b4 as u64) << 32u64 | (b5 as u64) << 40u64 | (b6 as u64) << 48u64
        | (b7 as u64) << 56u64) as i64 == t) by (bit_vector)
        requires
            b0 == t as u8,
            b1 == (t >> 8) as u8,
            b2 == (t >> 16) as u8,
            b3 == (t >> 24) as u8,
            b4 == (t >> 32) as u8,
            b5 == (t >> 40) as u8,
            b6 == (t >> 48) as u8,
            b7 == (t >> 56) as u8,
    ;
}

proof fn lemma_words_bytes_index(ws: Seq<i32>, k: int)
    requires
        0 <= k < ws.len(),
    ensures
        words_bytes(ws).len() == 4 * ws.len(),
        words_bytes(ws)[4 * k] == ws[k] as u8,
        words_bytes(ws)[4 * k + 1] == (ws[k] >> 8) as u8,
        words_bytes(ws)[4 * k + 2] == (ws[k] >> 16) as u8,
        words_bytes(ws)[4 * k + 3] == (ws[k] >> 24) as u8,
    decreases ws.len(),
{
    lemma_words_bytes_len(ws);
    lemma_words_bytes_len(ws.drop_last());
    if k < ws.len() - 1 {
        lemma_words_bytes_index(ws.drop_last(), k);
    }
}

/// A record reads back as the event it was made from.
pub proof fn lemma_decode_record(timestamp: i64, target: i32, words: Seq<i32>)
    requires
        words.len() <= MAX_WIDE_WORDS,
    ensures
        record_bytes(timestamp, target, words).len() == record_length(words.len()),
        record_bytes(timestamp, target, words)[0] as nat == record_length(words.len()),
        decode_record(record_bytes(timestamp, target, words)) == (target, timestamp, words),
{
    let r = record_bytes(timestamp, target, words);
    let h = header_bytes(timestamp, target, words.len());
    lemma_words_bytes_len(words);
    assert(r[0] == h[0]);
    assert(r[1] == h[1] && r[2] == h[2] && r[3] == h[3] && r[12] == h[12]);
    lemma_le_i32(target);
    assert(le_i32(r[12], r[1], r[2], r[3]) == target);
    lemma_le_i64(timestamp, r, 4);
    let d = decode_record(r);
    assert forall|k: int| 0 <= k < words.len() implies #[trigger] d.2[k] == words[k] by {
        lemma_words_bytes_index(words, k);
        assert(r[13 + 4 * k] == words_bytes(words)[4 * k]);
        assert(r[14 + 4 * k] == words_bytes(words)[4 * k + 1]);
        assert(r[15 + 4 * k] == words_bytes(words)[4 * k + 2]);
        assert(r[16 + 4 * k] == words_bytes(words)[4 * k + 3]);
        lemma_le_i32(words[k]);
    }
    assert(d.2 =~= words);
}

/// A whole record in front of more bytes reads as that record's event
/// in front of what the rest reads as.
proof fn lemma_decode_front(r: Seq<u8>, rest: Seq<u8>)
    requires
        r.len() >= HEADER_LENGTH,
        r[0] as int == r.len(),
        (r.len() - HEADER_LENGTH) % 4 == 0,
    ensures
        decode_trace(r + rest) == match decode_trace(rest) {
            Some(d) => Some(seq![decode_record(r)] + d),
            None => None,
        },
{
    let b = r + rest;
    let len = r.len() as int;
    assert(b[0] == r[0]);
    assert(b.subrange(0, len) =~= r);
    assert(b.subrange(len, b.len() as int) =~= rest);
}

/// The bytes of each event's record, in order.
pub open spec fn event_records(events: Seq<(i32, i64, Seq<i32>)>) -> Seq<Seq<u8>> {
    events.map_values(|e: (i32, i64, Seq<i32>)| record_bytes(e.1, e.0, e.2))
}

/// The records of any run of outputs, laid end to end, read back as
/// exactly those outputs, in order.
pub proof fn lemma_trace_round_trip(events: Seq<(i32, i64, Seq<i32>)>)
    requires
        forall|i: int| 0 <= i < events.len() ==> (#[trigger] events[i]).2.len() <= MAX_WIDE_WORDS,
    ensures
        decode_trace(event_records(events).flatten()) == Some(events),
    decreases events.len(),
{
    let recs = event_records(events);
    if events.len() == 0 {
        assert(recs.flatten() == Seq::<u8>::empty());
        assert(decode_trace(Seq::<u8>::empty()) == Some(Seq::<(i32, i64, Seq<i32>)>::empty()));
    } else {
        let e = events[0];
        let tail = events.drop_first();
        assert forall|i: int| 0 <= i < tail.len() implies (#[trigger] tail[i]).2.len() <= MAX_WIDE_WORDS by {
            assert(tail[i] == events[i + 1]);
        }
        lemma_trace_round_trip(tail);
        let r = record_bytes(e.1, e.0, e.2);
        lemma_decode_record(e.1, e.0, e.2);
        assert(recs.first() == r);
        assert(recs.drop_first() =~= event_records(tail));
        assert(recs.flatten() == r + event_records(tail).flatten());
        lemma_decode_front(r, event_records(tail).flatten());
        assert(seq![e] + tail =~= events);
    }
}

/// Bytes that make one whole record: a header whose length byte gives the
/// record's length, followed by whole words.
pub open spec fn is_record(r: Seq<u8>) -> bool {
    &&& r.len() >= HEADER_LENGTH
    &&& r[0] as int == r.len()
    &&& (r.len() - HEADER_LENGTH) % 4 == 0
}

/// Whole records laid end to end read back without error.
proof fn lemma_records_decode(recs: Seq<Seq<u8>>)
    requires
        forall|i: int| 0 <= i < recs.len() ==> is_record(#[trigger] recs[i]),
    ensures
        decode_trace(recs.flatten()) is Some,
    decreases recs.len(),
{
    if recs.len() == 0 {
        assert(recs.flatten() == Seq::<u8>::empty());
    } else {
        let tail = recs.drop_first();
        assert forall|i: int| 0 <= i < tail.len() implies is_record(#[trigger] tail[i]) by {
            assert(tail[i] == recs[i + 1]);
        }
        lemma_records_decode(tail);
        assert(is_record(recs[0]));
        lemma_decode_front(recs.first(), tail.flatten());
    }
}

proof fn lemma_groups_are_records(recs: Seq<Seq<u8>>)
    requires
        forall|i: int| 0 <= i < recs.len() ==> is_record(#[trigger] recs[i]),
    ensures
        forall|i: int, j: int| 0 <= i < run_groups(recs).0.len() && 0 <= j < run_groups(recs).0[i].len()
            ==> is_record(#[trigger] run_groups(recs).0[i][j]),
        forall|j: int| 0 <= j < run_groups(recs).1.len() ==> is_record(#[trigger] run_groups(recs).1[j]),
    decreases recs.len(),
{
    if recs.len() > 0 {
        let prev = recs.drop_last();
        assert forall|i: int| 0 <= i < prev.len() implies is_record(#[trigger] prev[i]) by {
            assert(prev[i] == recs[i]);
        }
        lemma_groups_are_records(prev);
        let x = recs.last();
        assert(is_record(recs[recs.len() - 1]));
        let (groups, held) = run_groups(prev);
        let pending = run_outputs(prev).1;
        if DMA_BUFFER_SIZE - pending.len() < x.len() {
            let g2 = groups.push(held);
            assert(run_groups(recs) == (g2, seq![x]));
            assert forall|i: int, j: int| 0 <= i < g2.len() && 0 <= j < g2[i].len()
                implies is_record(#[trigger] g2[i][j]) by {
                if i < groups.len() {
                    assert(g2[i] == groups[i]);
                } else {
                    assert(g2[i] == held);
                }
            }
            assert forall|j: int| 0 <= j < seq![x].len() implies is_record(#[trigger] seq![x][j]) by {
                assert(seq![x][j] == x);
            }
        } else {
            let h2 = held.push(x);
            assert(run_groups(recs) == (groups, h2));
            assert forall|j: int| 0 <= j < h2.len() implies is_record(#[trigger] h2[j]) by {
                if j < held.len() {
                    assert(h2[j] == held[j]);
                }
            }
        }
    }
}

/// What a recording hands to the host, the blocks flushed on the way and
/// then the bytes still buffered at its end, reads back as exactly the
/// outputs recorded, in order; and every flushed block reads back on its
/// own, so that no record is split between blocks.
pub proof fn lemma_recording_reads_back(events: Seq<(i32, i64, Seq<i32>)>)
    requires
        forall|i: int| 0 <= i < events.len() ==> (#[trigger] events[i]).2.len() <= MAX_WIDE_WORDS,
    ensures
        decode_trace(run_outputs(event_records(events)).0.flatten() + run_outputs(event_records(events)).1)
            == Some(events),
        forall|i: int| 0 <= i < run_outputs(event_records(events)).0.len()
            ==> decode_trace(#[trigger] run_outputs(event_records(events)).0[i]) is Some,
{
    let recs = event_records(events);
    assert forall|i: int| 0 <= i < recs.len() implies is_record(#[trigger] recs[i])
        && recs[i].len() <= DMA_BUFFER_SIZE by {
        let e = events[i];
        lemma_decode_record(e.1, e.0, e.2);
        lemma_words_bytes_len(e.2);
    }
    lemma_trace_blocks(recs);
    lemma_trace_round_trip(events);
    lemma_groups_are_records(recs);
    let groups = run_groups(recs).0;
    assert forall|i: int| 0 <= i < run_outputs(recs).0.len()
        implies decode_trace(#[trigger] run_outputs(recs).0[i]) is Some by {
        assert(run_outputs(recs).0[i] == groups[i].flatten());
        assert forall|j: int| 0 <= j < groups[i].len() implies is_record(#[trigger] groups[i][j]) by {
        }
        lemma_records_decode(groups[i]);
    }
}

} // verus!
