//! Latency samples and the statistics computed over them.
use vstd::prelude::*;
use vstd::relations::{sorted_by, total_ordering};
use vstd::seq_lib::lemma_sorted_unique;
use vstd::arithmetic::div_mod::lemma_fundamental_div_mod_converse;

verus! {

/// One request/response measurement on a connection, in nanoseconds.
#[derive(Clone, Copy, Debug, PartialEq, Eq, Structural)]
pub struct RTT {
    /// Time taken by the write call.
    pub write: u64,
    /// Time taken by the read call.
    pub read: u64,
    /// Time between the end of the write and the start of the read.
    pub interval: u64,
}

impl RTT {
    /// The key used to rank samples by write latency.
    pub fn sort_write(&self) -> (r: u64)
        ensures
            r == self.write,
    {
        self.write
    }

    /// The key used to rank samples by read latency.
    pub fn sort_read(&self) -> (r: u64)
        ensures
            r == self.read,
    {
        self.read
    }

    /// The key used to rank samples by interval (gap) latency.
    pub fn sort_interval(&self) -> (r: u64)
        ensures
            r == self.interval,
    {
        self.interval
    }
}

impl Default for RTT {
    fn default() -> (r: RTT)
        ensures
            r == zero_rtt(),
    {
        RTT { write: 0, read: 0, interval: 0 }
    }
}

/// The all-zero sample.
pub open spec fn zero_rtt() -> RTT {
    RTT { write: 0, read: 0, interval: 0 }
}

/// Ascending order on latency values.
pub open spec fn nanos_le() -> spec_fn(u64, u64) -> bool {
    |a: u64, b: u64| a <= b
}

/// A sequence of latency values in ascending order.
pub open spec fn ascending(s: Seq<u64>) -> bool {
    forall|i: int, j: int| 0 <= i <= j < s.len() ==> s[i] <= s[j]
}

/// The values of `s` in ascending order.
pub open spec fn ranked(s: Seq<u64>) -> Seq<u64> {
    s.sort_by(nanos_le())
}

pub proof fn lemma_nanos_le_total()
    ensures
        total_ordering(nanos_le()),
{
}

/// `ranked` is an ascending permutation of its argument.
pub proof fn lemma_ranked(s: Seq<u64>)
    ensures
        ascending(ranked(s)),
        ranked(s).to_multiset() == s.to_multiset(),
        ranked(s).len() == s.len(),
{
    lemma_nanos_le_total();
    s.lemma_sort_by_ensures(nanos_le());
    let r = ranked(s);
    assert forall|i: int, j: int| 0 <= i <= j < r.len() implies r[i] <= r[j] by {
        if i < j {
            assert(nanos_le()(r[i], r[j]));
        }
    }
    s.to_multiset_ensures();
    r.to_multiset_ensures();
}

/// Any ascending permutation of `s` is `ranked(s)`.
pub proof fn lemma_ranked_unique(s: Seq<u64>, t: Seq<u64>)
    requires
        ascending(t),
        t.to_multiset() == s.to_multiset(),
    ensures
        t == ranked(s),
{
    lemma_nanos_le_total();
    s.lemma_sort_by_ensures(nanos_le());
    assert(sorted_by(t, nanos_le()));
    lemma_sorted_unique(t, ranked(s), nanos_le());
}

/// Relies on `<[u64]>::sort_unstable`: the slice ends up in ascending order,
/// holding the same values as before.
#[verifier::external_body]
fn sort_nanos(v: &mut Vec<u64>)
    ensures
        ascending(final(v)@),
        final(v)@.to_multiset() == old(v)@.to_multiset(),
{
    v.sort_unstable();
}


/// Selects one latency field of a sample.
#[derive(Clone, Copy, Debug, PartialEq, Eq, Structural)]
pub enum Field {
    Write,
    Read,
    Interval,
}

pub open spec fn field_of(r: RTT, f: Field) -> u64 {
    match f {
        Field::Write => r.write,
        Field::Read => r.read,
        Field::Interval => r.interval,
    }
}

/// The values of one field over a sample sequence, in sample order.
pub open spec fn field_values(s: Seq<RTT>, f: Field) -> Seq<u64> {
    s.map_values(|r: RTT| field_of(r, f))
}

/// Nearest-rank index of the `p`-th percentile among `len` values.
pub open spec fn rank_index(len: nat, p: nat) -> nat {
    len * p / 100
}

/// The position selected for the `p`-th percentile among `len > 0` values:
/// the nearest-rank index, kept at the last position (which it reaches only
/// for `p == 100`).
pub open spec fn percentile_index(len: nat, p: nat) -> nat {
    if rank_index(len, p) < len {
        rank_index(len, p)
    } else {
        (len - 1) as nat
    }
}

/// The `p`-th percentile of one field: the value at the selected position of
/// that field's own ascending order.
pub open spec fn field_percentile(s: Seq<RTT>, f: Field, p: nat) -> u64 {
    ranked(field_values(s, f))[percentile_index(s.len(), p) as int]
}

/// Whether `p` is a valid percentile for `s`: at most 100, over at least one
/// sample.
pub open spec fn percentile_defined(s: Seq<RTT>, p: nat) -> bool {
    p <= 100 && s.len() > 0
}

/// Per-field percentile record; the zero record where `p` exceeds 100 or
/// there are no samples.
pub open spec fn percentile_of(p: nat, s: Seq<RTT>) -> RTT {
    if percentile_defined(s, p) {
        RTT {
            write: field_percentile(s, Field::Write, p),
            read: field_percentile(s, Field::Read, p),
            interval: field_percentile(s, Field::Interval, p),
        }
    } else {
        zero_rtt()
    }
}

/// Sum of the three latency fields of one sample.
pub open spec fn rtt_total(r: RTT) -> nat {
    (r.write + r.read + r.interval) as nat
}

/// Sum of all three latency fields over all samples.
pub open spec fn total_latency(s: Seq<RTT>) -> nat
    decreases s.len(),
{
    if s.len() == 0 {
        0
    } else {
        total_latency(s.drop_last()) + rtt_total(s.last())
    }
}

/// One scalar average over every field of every sample (floor division).
pub open spec fn mean_latency(s: Seq<RTT>) -> nat {
    total_latency(s) / (3 * s.len())
}

fn field_value(r: &RTT, f: Field) -> (v: u64)
    ensures
        v == field_of(*r, f),
{
    match f {
        Field::Write => r.sort_write(),
        Field::Read => r.sort_read(),
        Field::Interval => r.sort_interval(),
    }
}

/// The values of field `f` over `latency`, in ascending order.
fn ranked_field(latency: &Vec<RTT>, f: Field) -> (r: Vec<u64>)
    ensures
        r@ == ranked(field_values(latency@, f)),
{
    let mut v: Vec<u64> = Vec::with_capacity(latency.len());
    let mut i: usize = 0;
    while i < latency.len()
        invariant
            i <= latency.len(),
            v@ == field_values(latency@.subrange(0, i as int), f),
        decreases latency.len() - i,
    {
        v.push(field_value(&latency[i], f));
        i = i + 1;
        assert(latency@.subrange(0, i as int) == latency@.subrange(0, i - 1).push(latency@[i - 1]));
    }
    assert(latency@.subrange(0, i as int) == latency@);
    let ghost unsorted = v@;
    sort_nanos(&mut v);
    proof {
        lemma_ranked_unique(unsorted, v@);
    }
    v
}

/// The `n`-th percentile record of `latency`: each field is taken from that
/// field's own ascending order at index `floor(len * n / 100)`, or at the
/// last position where that index is `len` (`n == 100`). Where `n` exceeds
/// 100 or there are no samples, the zero record is returned. The samples are
/// left as they were.
pub fn percentile(n: usize, latency: &mut Vec<RTT>) -> (res: RTT)
    ensures
        res == percentile_of(n as nat, old(latency)@),
        final(latency)@ == old(latency)@,
{
    let s = latency.len();
    if n > 100 {
        return RTT::default();
    }
    assert((s as u128) * (n as u128) <= (s as u128) * 100) by (nonlinear_arith)
        requires n <= 100;
    let prod: u128 = (s as u128) * (n as u128);
    let rank = (prod / 100) as usize;
    assert(rank == rank_index(s as nat, n as nat));
    if s == 0 {
        return RTT::default();
    }
    let ind = if rank >= s { s - 1 } else { rank };
    assert(ind == percentile_index(s as nat, n as nat));
    let writes = ranked_field(latency, Field::Write);
    let reads = ranked_field(latency, Field::Read);
    let intervals = ranked_field(latency, Field::Interval);
    proof {
        lemma_ranked(field_values(latency@, Field::Write));
        lemma_ranked(field_values(latency@, Field::Read));
        lemma_ranked(field_values(latency@, Field::Interval));
    }
    RTT { write: writes[ind], read: reads[ind], interval: intervals[ind] }
}

proof fn lemma_total_latency_bound(s: Seq<RTT>)
    ensures
        total_latency(s) <= 3 * s.len() * (u64::MAX as nat),
    decreases s.len(),
{
    if s.len() > 0 {
        lemma_total_latency_bound(s.drop_last());
    }
}

/// The mean of all three latency fields over all samples, in nanoseconds,
/// rounded down. The samples are left as they were.
pub fn average(latency: &mut Vec<RTT>) -> (avg: u64)
    requires
        old(latency).len() > 0,
    ensures
        avg == mean_latency(old(latency)@),
        final(latency)@ == old(latency)@,
{
    let len = latency.len();
    let d: u128 = 3 * (len as u128);
    let mut q: u128 = 0;
    let mut r: u128 = 0;
    let mut i: usize = 0;
    while i < len
        invariant
            len == latency.len(),
            d == 3 * len,
            d > 0,
            i <= len,
            q * d + r == total_latency(latency@.subrange(0, i as int)),
            r < d,
            q <= u64::MAX,
        decreases len - i,
    {
        let x = latency[i];
        let t: u128 = (x.write as u128) + (x.read as u128) + (x.interval as u128);
        let sum: u128 = r + t;
        let ghost prev = latency@.subrange(0, i as int);
        let ghost next = latency@.subrange(0, i + 1);
        proof {
            assert(next.drop_last() == prev);
            assert(next.last() == x);
        }
        let nq: u128 = q + sum / d;
        proof {
            assert((sum / d) * d + sum % d == sum) by (nonlinear_arith)
                requires d > 0;
            assert(nq * d == q * d + (sum / d) * d) by (nonlinear_arith)
                requires nq == q + sum / d;
            lemma_total_latency_bound(next);
            assert(nq * d <= total_latency(next));
            assert(total_latency(next) <= 3 * len * (u64::MAX as nat)) by (nonlinear_arith)
                requires
                    total_latency(next) <= 3 * next.len() * (u64::MAX as nat),
                    next.len() <= len;
            assert(nq <= u64::MAX) by (nonlinear_arith)
                requires
                    nq * d <= 3 * len * (u64::MAX as nat),
                    d == 3 * len,
                    d > 0;
        }
        q = nq;
        r = sum % d;
        i = i + 1;
    }
    assert(latency@.subrange(0, len as int) == latency@);
    proof {
        lemma_fundamental_div_mod_converse(total_latency(latency@) as int, d as int, q as int, r as int);
    }
    q as u64
}


/// For a non-empty sequence and any percentile `p <= 100`, the selected
/// position lies in `[0, len - 1]`; below 100 it is the nearest-rank index
/// itself, and at 100 it is the last position.
pub proof fn lemma_percentile_index_in_bounds(len: nat, p: nat)
    requires
        len > 0,
        p <= 100,
    ensures
        percentile_index(len, p) < len,
        p < 100 ==> percentile_index(len, p) == rank_index(len, p),
        p == 100 ==> percentile_index(len, p) == len - 1,
{
    if p < 100 {
        assert(len * p < len * 100) by (nonlinear_arith)
            requires len > 0, p < 100;
    }
}

/// Percentiles are monotone in `p`: for a non-empty sequence and
/// `p <= q <= 100`, each field of the `p`-th percentile record is at most the
/// same field of the `q`-th.
pub proof fn lemma_percentile_monotone(s: Seq<RTT>, p: nat, q: nat)
    requires
        s.len() > 0,
        p <= q <= 100,
    ensures
        percentile_of(p, s).write <= percentile_of(q, s).write,
        percentile_of(p, s).read <= percentile_of(q, s).read,
        percentile_of(p, s).interval <= percentile_of(q, s).interval,
{
    lemma_percentile_index_in_bounds(s.len(), p);
    lemma_percentile_index_in_bounds(s.len(), q);
    assert(s.len() * p <= s.len() * q) by (nonlinear_arith)
        requires p <= q;
    assert(rank_index(s.len(), p) <= rank_index(s.len(), q)) by (nonlinear_arith)
        requires s.len() * p <= s.len() * q;
    assert(percentile_index(s.len(), p) <= percentile_index(s.len(), q));
    lemma_ranked(field_values(s, Field::Write));
    lemma_ranked(field_values(s, Field::Read));
    lemma_ranked(field_values(s, Field::Interval));
}

} // verus!
