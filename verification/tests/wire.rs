use resources_core::codec::{
    decode_frame_prefix, decode_snapshot, encode_frame_prefix, encode_snapshot, request_byte,
    CollectorError,
};
use resources_core::sample::{GpuUsage, ProcessData};

fn rich_sample() -> ProcessData {
    ProcessData {
        pid: 4242,
        parent_pid: 1,
        uid: 1000,
        commandline: b"/usr/bin/editor\0--wait\0file.txt".to_vec(),
        user_cpu_time: 123_456,
        system_cpu_time: 7_890,
        read_bytes: Some(1 << 40),
        write_bytes: None,
        memory_usage: 987_654_321,
        starttime: 555,
        timestamp: u64::MAX,
        app_id: Some(b"org.example.Editor".to_vec()),
        gpu_usage_stats: vec![
            GpuUsage { slot: 0x0100, gfx: 42, enc: 0, dec: 7, mem: 1 << 30, percent_based: true },
            GpuUsage { slot: 0x0200, gfx: u64::MAX, enc: 1, dec: 2, mem: 3, percent_based: false },
        ],
    }
}

fn bare_sample() -> ProcessData {
    ProcessData {
        pid: 2,
        parent_pid: 0,
        uid: 0,
        commandline: Vec::new(),
        user_cpu_time: 0,
        system_cpu_time: 0,
        read_bytes: None,
        write_bytes: None,
        memory_usage: 0,
        starttime: 0,
        timestamp: 0,
        app_id: None,
        gpu_usage_stats: Vec::new(),
    }
}

/// Encoding a snapshot and decoding the payload yields an equal snapshot.
#[test]
fn snapshot_round_trip() {
    let snapshot = vec![rich_sample(), bare_sample()];
    let payload = encode_snapshot(&snapshot);
    assert_eq!(decode_snapshot(&payload), Ok(snapshot));
}

/// The empty snapshot round-trips too.
#[test]
fn empty_snapshot_round_trip() {
    let snapshot: Vec<ProcessData> = Vec::new();
    let payload = encode_snapshot(&snapshot);
    assert_eq!(payload.len(), 8);
    assert_eq!(decode_snapshot(&payload), Ok(snapshot));
}

/// A short read — a payload cut off anywhere — is a decode failure, never
/// a panic or a half-filled snapshot.
#[test]
fn truncated_payload_fails() {
    let payload = encode_snapshot(&vec![rich_sample()]);
    for cut in [0, 1, 7, 8, 9, payload.len() / 2, payload.len() - 1] {
        let truncated: Vec<u8> = payload[..cut].to_vec();
        assert_eq!(
            decode_snapshot(&truncated),
            Err(CollectorError::DecodeFailure),
            "cut at {cut}"
        );
    }
}

/// Bytes trailing the last sample are malformed, not silently ignored.
#[test]
fn trailing_bytes_fail() {
    let mut payload = encode_snapshot(&vec![bare_sample()]);
    payload.push(0);
    assert_eq!(decode_snapshot(&payload), Err(CollectorError::DecodeFailure));
}

/// A corrupted option tag is malformed.
#[test]
fn corrupt_tag_fails() {
    let payload = encode_snapshot(&vec![bare_sample()]);
    // The read-bytes presence tag sits right after the count and the
    // eight fixed-width integers of the one sample.
    let mut corrupted = payload.clone();
    corrupted[8 + 8 * 8] = 9;
    assert_eq!(decode_snapshot(&corrupted), Err(CollectorError::DecodeFailure));
}

/// The length prefix is written little-endian in a full machine word and
/// reads back as the same length.
#[test]
fn frame_prefix_round_trip() {
    let prefix = encode_frame_prefix(0x0102);
    assert_eq!(prefix, vec![2, 1, 0, 0, 0, 0, 0, 0]);
    assert_eq!(decode_frame_prefix(&prefix), Some(0x0102));
    let short: Vec<u8> = vec![1, 2, 3];
    assert_eq!(decode_frame_prefix(&short), None);
}

/// One snapshot request is one newline trigger byte.
#[test]
fn request_is_one_byte() {
    assert_eq!(request_byte(), b'\n');
}
