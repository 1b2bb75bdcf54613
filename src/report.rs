//! Run configuration checks and the figures of the final report.
use vstd::prelude::*;
use crate::counters::{Count, merge_all, merged, totals_fit};
use crate::latency::{RTT, average, mean_latency, percentile, percentile_of};

verus! {

/// Largest payload, in bytes, that a request may carry.
pub const MAX_LENGTH: usize = 4096;

/// Number of connections whose latency table is reported.
pub const MAX_REPORTED_STREAMS: usize = 10;

/// Why a run was refused before any connection was made.
#[derive(Clone, Copy, Debug, PartialEq, Eq, Structural)]
pub enum ConfigError {
    /// The requested payload is larger than `MAX_LENGTH`.
    PayloadTooLarge,
}

/// Accepts a payload length of at most `MAX_LENGTH` bytes.
pub fn check_length(length: usize) -> (r: Result<usize, ConfigError>)
    ensures
        length <= MAX_LENGTH ==> r == Ok::<usize, ConfigError>(length),
        length > MAX_LENGTH ==> r == Err::<usize, ConfigError>(ConfigError::PayloadTooLarge),
{
    if length > MAX_LENGTH {
        Err(ConfigError::PayloadTooLarge)
    } else {
        Ok(length)
    }
}

/// How many of `streams` connections get a latency table in the report.
pub fn reported_streams(streams: usize) -> (r: usize)
    ensures
        r == (if streams < MAX_REPORTED_STREAMS { streams } else { MAX_REPORTED_STREAMS }),
{
    if streams < MAX_REPORTED_STREAMS {
        streams
    } else {
        MAX_REPORTED_STREAMS
    }
}

/// Bytes per megabit-per-second unit: 1024 * 128.
pub const BYTES_PER_MEGABIT: u64 = 131072;

/// Whole-run rates, each rounded down.
#[derive(Clone, Copy, Debug, PartialEq, Eq, Structural)]
pub struct Throughput {
    pub requests_per_sec: u64,
    pub responses_per_sec: u64,
    pub send_mbps: u64,
    pub recv_mbps: u64,
    /// Requests and responses differ in number.
    pub mismatch: bool,
}

pub open spec fn throughput_of(total: Count, duration: nat) -> Throughput {
    Throughput {
        requests_per_sec: (total.send as nat / duration) as u64,
        responses_per_sec: (total.recv as nat / duration) as u64,
        send_mbps: (total.send_bytes as nat / (duration * BYTES_PER_MEGABIT as nat)) as u64,
        recv_mbps: (total.recv_bytes as nat / (duration * BYTES_PER_MEGABIT as nat)) as u64,
        mismatch: total.send != total.recv,
    }
}

fn per_megabit(bytes: u64, duration: u64) -> (r: u64)
    requires
        duration > 0,
    ensures
        r == bytes as nat / (duration as nat * BYTES_PER_MEGABIT as nat),
{
    assert((duration as u128) * 131072 <= u64::MAX as u128 * 131072) by (nonlinear_arith)
        requires duration <= u64::MAX;
    let d: u128 = (duration as u128) * 131072;
    assert((bytes as u128) / d <= bytes as u128) by (nonlinear_arith)
        requires d >= 1;
    ((bytes as u128) / d) as u64
}

/// The rates of a run that lasted `duration` seconds.
pub fn throughput(total: &Count, duration: u64) -> (t: Throughput)
    requires
        duration > 0,
    ensures
        t == throughput_of(*total, duration as nat),
{
    Throughput {
        requests_per_sec: total.send / duration,
        responses_per_sec: total.recv / duration,
        send_mbps: per_megabit(total.send_bytes, duration),
        recv_mbps: per_megabit(total.recv_bytes, duration),
        mismatch: total.send != total.recv,
    }
}

/// Merged counters of a whole run and its rates.
#[derive(Clone, Copy, Debug, PartialEq, Eq, Structural)]
pub struct Summary {
    pub total: Count,
    pub rates: Throughput,
}

/// Merges the counters of all connections of a run that lasted `duration`
/// seconds and computes its rates. Returns `None` exactly when a merged
/// counter does not fit in a `u64`.
pub fn summarize(counts: &Vec<Count>, duration: u64) -> (r: Option<Summary>)
    requires
        duration > 0,
    ensures
        r == (if totals_fit(counts@) {
            Some(
                (Summary {
                    total: merged(counts@),
                    rates: throughput_of(merged(counts@), duration as nat),
                }),
            )
        } else {
            None::<Summary>
        }),
{
    match merge_all(counts) {
        Some(total) => Some(Summary { total, rates: throughput(&total, duration) }),
        None => None,
    }
}

/// Latency table of one connection.
#[derive(Clone, Copy, Debug, PartialEq, Eq, Structural)]
pub struct StreamStats {
    pub p10: RTT,
    pub p50: RTT,
    pub p95: RTT,
    pub p99: RTT,
    /// Mean over all fields of all samples, in nanoseconds.
    pub average: u64,
}

/// The 10th, 50th, 95th and 99th percentiles and the average of one
/// connection's samples; `None` when it has none. The samples are left as
/// they were.
pub fn stream_stats(latency: &mut Vec<RTT>) -> (r: Option<StreamStats>)
    ensures
        final(latency)@ == old(latency)@,
        old(latency).len() == 0 ==> r == None::<StreamStats>,
        old(latency).len() > 0 ==> r == Some(
            (StreamStats {
                p10: percentile_of(10, old(latency)@),
                p50: percentile_of(50, old(latency)@),
                p95: percentile_of(95, old(latency)@),
                p99: percentile_of(99, old(latency)@),
                average: mean_latency(old(latency)@) as u64,
            }),
        ),
{
    if latency.len() == 0 {
        return None;
    }
    let p10 = percentile(10, latency);
    let p50 = percentile(50, latency);
    let p95 = percentile(95, latency);
    let p99 = percentile(99, latency);
    let average = average(latency);
    Some(StreamStats { p10, p50, p95, p99, average })
}

} // verus!
