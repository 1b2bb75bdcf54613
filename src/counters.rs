//! Per-connection traffic counters and their merge across connections.
use vstd::prelude::*;

verus! {

/// Traffic counted on one connection, or merged over several.
#[derive(Clone, Copy, Debug, PartialEq, Eq, Structural)]
pub struct Count {
    /// Requests written.
    pub send: u64,
    /// Responses read.
    pub recv: u64,
    /// Bytes written.
    pub send_bytes: u64,
    /// Bytes read.
    pub recv_bytes: u64,
}

impl Default for Count {
    fn default() -> (r: Count)
        ensures
            r == zero_count(),
    {
        Count { send: 0, recv: 0, send_bytes: 0, recv_bytes: 0 }
    }
}

/// The all-zero counters.
pub open spec fn zero_count() -> Count {
    Count { send: 0, recv: 0, send_bytes: 0, recv_bytes: 0 }
}

/// Selects one of the four counters.
#[derive(Clone, Copy, Debug, PartialEq, Eq, Structural)]
pub enum Counter {
    Send,
    Recv,
    SendBytes,
    RecvBytes,
}

pub open spec fn counter_of(c: Count, k: Counter) -> u64 {
    match k {
        Counter::Send => c.send,
        Counter::Recv => c.recv,
        Counter::SendBytes => c.send_bytes,
        Counter::RecvBytes => c.recv_bytes,
    }
}

/// Sum of one counter over a sequence of counters.
pub open spec fn counter_total(s: Seq<Count>, k: Counter) -> nat
    decreases s.len(),
{
    if s.len() == 0 {
        0
    } else {
        counter_total(s.drop_last(), k) + counter_of(s.last(), k) as nat
    }
}

/// Every merged counter fits in a `u64`.
pub open spec fn totals_fit(s: Seq<Count>) -> bool {
    &&& counter_total(s, Counter::Send) <= u64::MAX
    &&& counter_total(s, Counter::Recv) <= u64::MAX
    &&& counter_total(s, Counter::SendBytes) <= u64::MAX
    &&& counter_total(s, Counter::RecvBytes) <= u64::MAX
}

/// The field-wise sum of `s` (meaningful where `totals_fit(s)`).
pub open spec fn merged(s: Seq<Count>) -> Count {
    Count {
        send: counter_total(s, Counter::Send) as u64,
        recv: counter_total(s, Counter::Recv) as u64,
        send_bytes: counter_total(s, Counter::SendBytes) as u64,
        recv_bytes: counter_total(s, Counter::RecvBytes) as u64,
    }
}

/// A prefix never sums to more than the whole sequence.
pub proof fn lemma_counter_total_prefix(s: Seq<Count>, i: int, k: Counter)
    requires
        0 <= i <= s.len(),
    ensures
        counter_total(s.subrange(0, i), k) <= counter_total(s, k),
    decreases s.len(),
{
    if i < s.len() {
        assert(s.drop_last().subrange(0, i) == s.subrange(0, i));
        lemma_counter_total_prefix(s.drop_last(), i, k);
    } else {
        assert(s.subrange(0, i) == s);
    }
}

/// Adds `b` to `a` unless the sum exceeds `u64::MAX`.
fn add_counter(a: u64, b: u64) -> (r: Option<u64>)
    ensures
        r == (if a + b <= u64::MAX { Some((a + b) as u64) } else { None::<u64> }),
{
    a.checked_add(b)
}

/// Sums the counters of all connections, field by field. Returns `None`
/// exactly when one of the four sums does not fit in a `u64`.
pub fn merge_all(counts: &Vec<Count>) -> (r: Option<Count>)
    ensures
        r == (if totals_fit(counts@) { Some(merged(counts@)) } else { None::<Count> }),
{
    let mut sum = Count::default();
    let mut i: usize = 0;
    while i < counts.len()
        invariant
            i <= counts.len(),
            sum == merged(counts@.subrange(0, i as int)),
            totals_fit(counts@.subrange(0, i as int)),
        decreases counts.len() - i,
    {
        let c = counts[i];
        let ghost prev = counts@.subrange(0, i as int);
        let ghost next = counts@.subrange(0, i + 1);
        assert(next.drop_last() == prev);
        proof {
            lemma_counter_total_prefix(counts@, i + 1, Counter::Send);
            lemma_counter_total_prefix(counts@, i + 1, Counter::Recv);
            lemma_counter_total_prefix(counts@, i + 1, Counter::SendBytes);
            lemma_counter_total_prefix(counts@, i + 1, Counter::RecvBytes);
        }
        let send = match add_counter(sum.send, c.send) {
            Some(v) => v,
            None => return None,
        };
        let recv = match add_counter(sum.recv, c.recv) {
            Some(v) => v,
            None => return None,
        };
        let send_bytes = match add_counter(sum.send_bytes, c.send_bytes) {
            Some(v) => v,
            None => return None,
        };
        let recv_bytes = match add_counter(sum.recv_bytes, c.recv_bytes) {
            Some(v) => v,
            None => return None,
        };
        sum = Count { send, recv, send_bytes, recv_bytes };
        i = i + 1;
    }
    assert(counts@.subrange(0, i as int) == counts@);
    Some(sum)
}

/// A connection that contributes all-zero counters leaves every merged
/// total unchanged.
pub proof fn lemma_zero_count_neutral(s: Seq<Count>, k: Counter)
    ensures
        counter_total(s.push(zero_count()), k) == counter_total(s, k),
{
    assert(s.push(zero_count()).drop_last() == s);
}

/// A connection that contributes all-zero counters, wherever it stands among
/// the others, leaves every merged total unchanged.
pub proof fn lemma_zero_count_neutral_at(s: Seq<Count>, i: int, k: Counter)
    requires
        0 <= i <= s.len(),
    ensures
        counter_total(s.insert(i, zero_count()), k) == counter_total(s, k),
    decreases s.len(),
{
    let t = s.insert(i, zero_count());
    if i == s.len() {
        assert(t == s.push(zero_count()));
        lemma_zero_count_neutral(s, k);
    } else {
        assert(t.drop_last() == s.drop_last().insert(i, zero_count()));
        assert(t.last() == s.last());
        lemma_zero_count_neutral_at(s.drop_last(), i, k);
    }
}

/// Whether a failed connection's all-zero counters stand at position `i`
/// does not change whether the merged counters fit, nor what they are.
pub proof fn lemma_failed_connection_isolated(s: Seq<Count>, i: int)
    requires
        0 <= i <= s.len(),
    ensures
        totals_fit(s.insert(i, zero_count())) == totals_fit(s),
        merged(s.insert(i, zero_count())) == merged(s),
{
    lemma_zero_count_neutral_at(s, i, Counter::Send);
    lemma_zero_count_neutral_at(s, i, Counter::Recv);
    lemma_zero_count_neutral_at(s, i, Counter::SendBytes);
    lemma_zero_count_neutral_at(s, i, Counter::RecvBytes);
}

} // verus!
