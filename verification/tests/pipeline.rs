use rsoxy::decode::MeasurementEvent;
use rsoxy::session::{run_session, SessionError};
use rsoxy::sync::{find_sync, SyncState};
use rsoxy::header::{line_contains_start, skip_headers, skip_header_bytes};

fn session_bytes() -> Vec<u8> {
    // 3-marker preamble, two header lines, then five binary units.
    let mut bytes: Vec<u8> = vec![0xFF, 0xFF, 0xFF];
    bytes.extend_from_slice(b"boot\n");
    bytes.extend_from_slice(b"start\n");
    bytes.extend_from_slice(&[0x00, 0x05, 0xFF, 0xF1, 0x00, 0x06, 0xFF, 0xF0, 0x00, 0x07]);
    bytes
}

#[test]
fn end_to_end_scenario() {
    let bytes = session_bytes();
    let times: Vec<u64> = vec![0, 100, 200, 300, 400];
    let out = run_session(&bytes, &times).unwrap();
    assert_eq!(out.sync_end, 3);
    assert_eq!(out.binary_start, 14);
    assert_eq!(
        out.events,
        vec![
            MeasurementEvent { time_micros: 0, value: 5, digital_input: false },
            MeasurementEvent { time_micros: 200, value: 6, digital_input: true },
            MeasurementEvent { time_micros: 400, value: 7, digital_input: false },
        ]
    );
    assert_eq!(out.state.falling_edges, 1);
    assert_eq!(out.state.digital_input, false);
}

#[test]
fn end_to_end_timestamps_nondecreasing_and_from_first_read() {
    let bytes = session_bytes();
    let times: Vec<u64> = vec![0, 5, 5, 9, 12];
    let out = run_session(&bytes, &times).unwrap();
    // First emitted timestamp is the first binary-mode read time.
    assert_eq!(out.events[0].time_micros, 0);
    for w in out.events.windows(2) {
        assert!(w[0].time_micros <= w[1].time_micros);
    }
}

#[test]
fn malformed_unit_is_skipped_and_stream_continues() {
    // Valid sample, a reserved 0xFFFE unit, then another valid sample.
    let mut bytes: Vec<u8> = vec![0xFF, 0xFF, 0xFF];
    bytes.extend_from_slice(b"start\n");
    bytes.extend_from_slice(&[0x00, 0x05, 0xFF, 0xFE, 0x00, 0x07]);
    let times: Vec<u64> = vec![1, 2, 3];
    let out = run_session(&bytes, &times).unwrap();
    assert_eq!(
        out.events,
        vec![
            MeasurementEvent { time_micros: 1, value: 5, digital_input: false },
            MeasurementEvent { time_micros: 3, value: 7, digital_input: false },
        ]
    );
    // The malformed unit altered nothing.
    assert_eq!(out.state.falling_edges, 0);
    assert_eq!(out.state.digital_input, false);
}

#[test]
fn session_without_preamble_fails() {
    let bytes: Vec<u8> = vec![0xFF, 0xFF, 0x00, 0xFF, 0xFF, 0x00];
    let times: Vec<u64> = vec![0, 0, 0];
    assert_eq!(run_session(&bytes, &times), Err(SessionError::NoSync));
}

#[test]
fn session_without_start_line_fails() {
    let mut bytes: Vec<u8> = vec![0xFF, 0xFF, 0xFF];
    bytes.extend_from_slice(b"boot\nno sentinel here\n");
    let times: Vec<u64> = vec![0; 16];
    assert_eq!(run_session(&bytes, &times), Err(SessionError::NoStartLine));
}

#[test]
fn sync_requires_three_consecutive_markers() {
    // Two non-consecutive pairs of markers, then a full run of three.
    let bytes: Vec<u8> = vec![0xFF, 0xFF, 0x01, 0xFF, 0xFF, 0x02, 0xFF, 0xFF, 0xFF, 0x03];
    assert_eq!(find_sync(&bytes, 0), Some(9));
}

#[test]
fn sync_stops_exactly_after_third_marker() {
    // Four markers in a row: synchronization ends after the third.
    let bytes: Vec<u8> = vec![0x00, 0xFF, 0xFF, 0xFF, 0xFF];
    assert_eq!(find_sync(&bytes, 0), Some(4));
}

#[test]
fn sync_none_when_no_run() {
    let bytes: Vec<u8> = vec![0xFF, 0x00, 0xFF, 0x00, 0xFF, 0xFF];
    assert_eq!(find_sync(&bytes, 0), None);
}

#[test]
fn sync_state_counts_and_resets() {
    let mut s = SyncState::new();
    assert!(!s.step(0xFF));
    assert!(!s.step(0xFF));
    assert!(!s.step(0x00));
    assert!(!s.step(0xFF));
    assert!(!s.step(0xFF));
    assert!(s.step(0xFF));
}

#[test]
fn sentinel_is_a_substring_match() {
    assert!(line_contains_start(b"start\n"));
    assert!(line_contains_start(b"restarting now\n"));
    assert!(line_contains_start(b"start"));
    assert!(!line_contains_start(b"Start\n"));
    assert!(!line_contains_start(b"boot\n"));
    assert!(!line_contains_start(b"star"));
    assert!(!line_contains_start(b""));
}

#[test]
fn header_skip_consumes_until_first_sentinel_line() {
    let lines: Vec<Vec<u8>> = vec![
        b"boot\n".to_vec(),
        b"version 7\n".to_vec(),
        b"starting\n".to_vec(),
        b"start\n".to_vec(),
    ];
    // The third line already contains `start` as a substring.
    assert_eq!(skip_headers(&lines), Some(2));

    let no_sentinel: Vec<Vec<u8>> = vec![b"boot\n".to_vec(), b"ready\n".to_vec()];
    assert_eq!(skip_headers(&no_sentinel), None);
}

#[test]
fn header_skip_over_bytes_finds_binary_start() {
    let bytes = b"boot\nstart\n\x00\x05".to_vec();
    assert_eq!(skip_header_bytes(&bytes, 0), Some(11));
    // An unterminated sentinel line does not end the header.
    let unterminated = b"boot\nstart".to_vec();
    assert_eq!(skip_header_bytes(&unterminated, 0), None);
}
