use ksupport::dma::{
    dma_playback_result, dma_remote_result, dma_retrieve, playback_address_ok, playback_plan,
    DmaRecorder, DmaTrace, PlaybackPlan, DMA_BUFFER_SIZE,
};
use ksupport::exception::{FatalCause, Fault};

fn decode_i64(b: &[u8]) -> i64 {
    let mut v: u64 = 0;
    for k in 0..8 {
        v |= (b[k] as u64) << (8 * k);
    }
    v as i64
}

fn decode_i32(b: &[u8]) -> i32 {
    (b[0] as u32 | (b[1] as u32) << 8 | (b[2] as u32) << 16 | (b[3] as u32) << 24) as i32
}

/// Splits a trace into (target, timestamp, words) triples.
fn decode_trace(bytes: &[u8]) -> Vec<(i32, i64, Vec<i32>)> {
    let mut out = Vec::new();
    let mut i = 0;
    while i < bytes.len() {
        let len = bytes[i] as usize;
        let r = &bytes[i..i + len];
        let target = decode_i32(&[r[12], r[1], r[2], r[3]]);
        let timestamp = decode_i64(&r[4..12]);
        let words = r[13..].chunks(4).map(decode_i32).collect();
        out.push((target, timestamp, words));
        i += len;
    }
    out
}

#[test]
fn single_output_round_trip() {
    let mut rec = DmaRecorder::new();
    assert!(rec.record_start().is_ok());
    assert!(rec.record_output(1000, 5, 0x1234_5678).unwrap().is_none());
    assert_eq!(rec.data_len(), 17);
    let stop = rec.record_stop(2000, false).ok().unwrap();
    assert_eq!(stop.duration, 2000);
    assert!(!stop.enable_ddma);
    assert_eq!(
        stop.last_block,
        vec![17, 0, 0, 0, 0xe8, 0x03, 0, 0, 0, 0, 0, 0, 5, 0x78, 0x56, 0x34, 0x12]
    );
    let decoded = decode_trace(&stop.last_block);
    assert_eq!(decoded.len(), 1);
    assert_eq!(decoded[0].0 & 0xff, 5);
    assert_eq!(decoded[0].1, 1000);
    assert_eq!(decoded[0].2.len(), 1);
    assert!(!rec.is_active());
}

#[test]
fn header_bytes_little_endian() {
    let mut rec = DmaRecorder::new();
    rec.record_start().unwrap();
    rec.record_output_wide(-2, 0x0102_0304, &[1, -1]).unwrap();
    let stop = rec.record_stop(0, true).ok().unwrap();
    assert!(stop.enable_ddma);
    assert_eq!(
        stop.last_block,
        vec![
            21, 0x03, 0x02, 0x01, 0xfe, 0xff, 0xff, 0xff, 0xff, 0xff, 0xff, 0xff, 0x04, 1, 0, 0,
            0, 0xff, 0xff, 0xff, 0xff
        ]
    );
}

#[test]
fn start_twice_fails() {
    let mut rec = DmaRecorder::new();
    rec.record_start().unwrap();
    let err = rec.record_start().unwrap_err();
    assert!(matches!(err, Fault::DmaAlreadyRecording));
    assert_eq!(err.name(), "DMAError");
    assert_eq!(err.message(), "DMA is already recording");
    assert!(rec.is_active());
}

#[test]
fn idle_recorder_refuses_output_and_stop() {
    let mut rec = DmaRecorder::new();
    let e1 = rec.record_output(0, 1, 2).unwrap_err();
    assert!(matches!(e1, Fault::DmaNotRecording));
    let e2 = rec.record_output_wide(0, 1, &[2, 3]).unwrap_err();
    assert!(matches!(e2, Fault::DmaNotRecording));
    let e4 = rec.record_output_wide(0, 1, &[0i32; 20]).unwrap_err();
    assert!(matches!(e4, Fault::DmaNotRecording));
    let e3 = rec.record_stop(0, false).err().unwrap();
    assert_eq!(e3.name(), "DMAError");
    assert_eq!(e3.message(), "DMA is not recording");
    assert_eq!(rec.data_len(), 0);
}

#[test]
fn too_many_words_leaves_buffer() {
    let mut rec = DmaRecorder::new();
    rec.record_start().unwrap();
    rec.record_output(7, 1, 1).unwrap();
    let words = [0i32; 17];
    let err = rec.record_output_wide(8, 1, &words).unwrap_err();
    assert!(matches!(err, Fault::Fatal(FatalCause::TooManyWords)));
    assert!(!err.is_recoverable());
    assert_eq!(rec.data_len(), 17);
    let ok = rec.record_output_wide(8, 1, &[0i32; 16]).unwrap();
    assert!(ok.is_none());
    assert_eq!(rec.data_len(), 17 + 13 + 64);
}

#[test]
fn flush_before_capacity_is_exceeded() {
    let mut rec = DmaRecorder::new();
    rec.record_start().unwrap();
    let mut blocks: Vec<Vec<u8>> = Vec::new();
    let mut expected = Vec::new();
    for k in 0..2000i64 {
        let words: Vec<i32> = (0..(k % 17) as i32).collect();
        expected.push((k as i32, k * 3, words.clone()));
        if let Some(b) = rec.record_output_wide(k * 3, k as i32, &words).unwrap() {
            blocks.push(b);
        }
        assert!(rec.data_len() <= DMA_BUFFER_SIZE);
    }
    assert!(!blocks.is_empty());
    let stop = rec.record_stop(1, false).ok().unwrap();
    blocks.push(stop.last_block);
    let mut all = Vec::new();
    for b in &blocks {
        assert!(b.len() <= DMA_BUFFER_SIZE);
        // each block is made of whole records
        let d = decode_trace(b);
        assert!(!d.is_empty());
        all.extend(d);
    }
    assert_eq!(all, expected);
}

#[test]
fn retrieve_missing_trace() {
    let err = dma_retrieve(None, 0, false).unwrap_err();
    assert_eq!(err.name(), "DMAError");
    assert_eq!(err.message(), "DMA trace not found");
}

#[test]
fn retrieve_found_trace() {
    let t = dma_retrieve(Some(0x4000_0040), 1234, true).unwrap();
    assert_eq!(t, DmaTrace { duration: 1234, address: 0x4000_0040, uses_ddma: true });
}

#[test]
fn playback_errors() {
    assert!(dma_playback_result(0, 3, 4).is_ok());
    let u = dma_playback_result(3, 7, 99).unwrap_err();
    assert_eq!(u.name(), "RTIOUnderflow");
    assert_eq!(u.params(), [7, 99, 0]);
    let d = dma_playback_result(2, 8, 100).unwrap_err();
    assert_eq!(d.name(), "RTIODestinationUnreachable");
    assert_eq!(d.params(), [8, 100, 0]);
}

#[test]
fn remote_playback_timeout() {
    let e = dma_remote_result(true, 1, 0, 0).unwrap_err();
    assert_eq!(e.name(), "DMAError");
    assert_eq!(
        e.message(),
        "Error running DMA on satellite device, timed out waiting for results"
    );
    let u = dma_remote_result(false, 1, 5, 6).unwrap_err();
    assert!(matches!(u, Fault::RtioUnderflow { channel: 5, timestamp: 6 }));
    assert!(dma_remote_result(false, 0, 5, 6).is_ok());
}

#[test]
fn playback_alignment() {
    assert!(playback_address_ok(128));
    assert!(!playback_address_ok(100));
}

#[test]
fn playback_legs() {
    assert_eq!(
        playback_plan(true, false),
        PlaybackPlan { start_remote: false, run_local: true, await_remote: false }
    );
    assert_eq!(
        playback_plan(true, true),
        PlaybackPlan { start_remote: true, run_local: true, await_remote: true }
    );
    assert_eq!(
        playback_plan(false, false),
        PlaybackPlan { start_remote: true, run_local: false, await_remote: true }
    );
}
