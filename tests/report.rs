use echo_bench::counters::Count;
use echo_bench::echo::reply_length;
use echo_bench::latency::RTT;
use echo_bench::report::{
    check_length, reported_streams, stream_stats, summarize, throughput, ConfigError,
};

#[test]
fn oversized_payload_is_rejected() {
    assert_eq!(check_length(5000), Err(ConfigError::PayloadTooLarge));
    assert_eq!(check_length(4097), Err(ConfigError::PayloadTooLarge));
    assert_eq!(check_length(4096), Ok(4096));
    assert_eq!(check_length(0), Ok(0));
}

#[test]
fn no_connections_gives_empty_report() {
    let s = summarize(&Vec::new(), 10).unwrap();
    assert_eq!(s.total, Count::default());
    assert_eq!(s.rates.requests_per_sec, 0);
    assert_eq!(s.rates.responses_per_sec, 0);
    assert_eq!(s.rates.send_mbps, 0);
    assert_eq!(s.rates.recv_mbps, 0);
    assert!(!s.rates.mismatch);
}

#[test]
fn throughput_figures() {
    let c = Count { send: 1000, recv: 999, send_bytes: 131072 * 20, recv_bytes: 131072 * 10 - 1 };
    let t = throughput(&c, 2);
    assert_eq!(t.requests_per_sec, 500);
    assert_eq!(t.responses_per_sec, 499);
    assert_eq!(t.send_mbps, 10);
    assert_eq!(t.recv_mbps, 4);
    assert!(t.mismatch);
}

#[test]
fn summarize_overflow_is_none() {
    let big = Count { send: u64::MAX, recv: 0, send_bytes: 0, recv_bytes: 0 };
    let one = Count { send: 1, recv: 0, send_bytes: 0, recv_bytes: 0 };
    assert_eq!(summarize(&vec![big, one], 1), None);
}

#[test]
fn stream_table() {
    let mut v: Vec<RTT> = (1..=100u64).map(|i| RTT { write: i, read: 2 * i, interval: 0 }).collect();
    let s = stream_stats(&mut v).unwrap();
    assert_eq!(s.p10, RTT { write: 11, read: 22, interval: 0 });
    assert_eq!(s.p50, RTT { write: 51, read: 102, interval: 0 });
    assert_eq!(s.p95, RTT { write: 96, read: 192, interval: 0 });
    assert_eq!(s.p99, RTT { write: 100, read: 200, interval: 0 });
    // (5050 + 10100) / 300 = 50.5
    assert_eq!(s.average, 50);
    assert_eq!(stream_stats(&mut Vec::new()), None);
}

#[test]
fn report_is_capped_at_ten_streams() {
    assert_eq!(reported_streams(3), 3);
    assert_eq!(reported_streams(10), 10);
    assert_eq!(reported_streams(500), 10);
}

#[test]
fn echo_reply_lengths() {
    assert_eq!(reply_length(0), None);
    assert_eq!(reply_length(24), Some(1048));
    assert_eq!(reply_length(1048), Some(24));
    assert_eq!(reply_length(1024), Some(1024));
}
