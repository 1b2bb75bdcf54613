//! The decisions of one benchmark connection, as a state machine: the caller
//! performs the I/O that each `Action` asks for and reports its outcome as an
//! `Event`.
use vstd::prelude::*;
use crate::counters::{Count, Counter, counter_total, zero_count};
use crate::latency::RTT;

verus! {

/// Where a connection stands in its run.
#[derive(Clone, Copy, Debug, PartialEq, Eq, Structural)]
pub enum Phase {
    Connecting,
    Writing,
    Reading,
    Done,
}

/// The outcome of the I/O that the previous `Action` asked for. Times are in
/// nanoseconds.
#[derive(Clone, Copy, Debug, PartialEq, Eq, Structural)]
pub enum Event {
    Connected,
    ConnectFailed,
    /// The whole payload was written; `write` is the time the write took and
    /// `interval` the time from its end to the start of the read.
    Wrote { write: u64, interval: u64 },
    WriteFailed,
    /// A read returned `bytes` bytes (zero when the peer closed) after
    /// `read`; `elapsed` is the time since the run started.
    Read { bytes: usize, read: u64, elapsed: u64 },
    /// The read would block; nothing was read.
    WouldBlock,
    ReadFailed,
}

/// The I/O the caller should perform next.
#[derive(Clone, Copy, Debug, PartialEq, Eq, Structural)]
pub enum Action {
    Connect,
    /// Write this many bytes.
    Write(usize),
    Read,
    /// The run is over: hand the counters and samples to the aggregator.
    Deliver,
}

/// Abstract state of a worker.
pub struct WorkerModel {
    pub length: usize,
    pub duration: u64,
    pub phase: Phase,
    pub count: Count,
    pub samples: Seq<RTT>,
    /// The byte count of each completed read, in order.
    pub reads: Seq<nat>,
    pub pending_write: u64,
    pub pending_interval: u64,
}

pub open spec fn nat_sum(s: Seq<nat>) -> nat
    decreases s.len(),
{
    if s.len() == 0 {
        0
    } else {
        nat_sum(s.drop_last()) + s.last()
    }
}

/// A worker that has not yet connected.
pub open spec fn fresh_model(length: usize, duration: u64) -> WorkerModel {
    WorkerModel {
        length,
        duration,
        phase: Phase::Connecting,
        count: zero_count(),
        samples: Seq::empty(),
        reads: Seq::empty(),
        pending_write: 0,
        pending_interval: 0,
    }
}

impl WorkerModel {
    /// Counters agree with the samples: one request and one response per
    /// sample, `length` bytes per request, and the received bytes are the sum
    /// of what the reads returned.
    pub open spec fn consistent(self) -> bool {
        &&& self.count.send == self.samples.len()
        &&& self.count.recv == self.samples.len()
        &&& self.reads.len() == self.samples.len()
        &&& self.count.send_bytes == self.count.send * self.length
        &&& self.count.recv_bytes == nat_sum(self.reads)
    }

    /// Whether one more completed exchange of `bytes` received bytes can be
    /// counted without a counter passing `u64::MAX`.
    pub open spec fn can_record(self, bytes: usize) -> bool {
        &&& self.count.send < u64::MAX
        &&& self.count.recv < u64::MAX
        &&& self.count.send_bytes + self.length <= u64::MAX
        &&& self.count.recv_bytes + bytes <= u64::MAX
    }

    pub open spec fn finished(self) -> WorkerModel {
        WorkerModel { phase: Phase::Done, ..self }
    }

    /// The state after one completed exchange: its sample is appended and
    /// the counters grow by one request of `length` bytes and one response
    /// of `bytes` bytes. The run ends once `elapsed` exceeds the duration.
    pub open spec fn recorded(self, bytes: usize, read: u64, elapsed: u64) -> WorkerModel {
        WorkerModel {
            phase: if elapsed > self.duration { Phase::Done } else { Phase::Writing },
            count: Count {
                send: (self.count.send + 1) as u64,
                recv: (self.count.recv + 1) as u64,
                send_bytes: (self.count.send_bytes + self.length) as u64,
                recv_bytes: (self.count.recv_bytes + bytes) as u64,
            },
            samples: self.samples.push(
                RTT { write: self.pending_write, read, interval: self.pending_interval },
            ),
            reads: self.reads.push(bytes as nat),
            ..self
        }
    }

    /// The transition taken on `e`. An event that does not answer the
    /// current phase's action leaves the state unchanged. A worker whose
    /// counters cannot grow further ends its run.
    pub open spec fn after(self, e: Event) -> WorkerModel {
        match (self.phase, e) {
            (Phase::Connecting, Event::Connected) => WorkerModel { phase: Phase::Writing, ..self },
            (Phase::Connecting, Event::ConnectFailed) => self.finished(),
            (Phase::Writing, Event::Wrote { write, interval }) => WorkerModel {
                phase: Phase::Reading,
                pending_write: write,
                pending_interval: interval,
                ..self
            },
            (Phase::Writing, Event::WriteFailed) => self.finished(),
            (Phase::Reading, Event::Read { bytes, read, elapsed }) => {
                if self.can_record(bytes) {
                    self.recorded(bytes, read, elapsed)
                } else {
                    self.finished()
                }
            },
            (Phase::Reading, Event::WouldBlock) => self,
            (Phase::Reading, Event::ReadFailed) => self.finished(),
            _ => self,
        }
    }

    /// The action that the phase asks for.
    pub open spec fn action(self) -> Action {
        match self.phase {
            Phase::Connecting => Action::Connect,
            Phase::Writing => Action::Write(self.length),
            Phase::Reading => Action::Read,
            Phase::Done => Action::Deliver,
        }
    }
}

/// One benchmark connection's accumulated counters and samples.
pub struct Worker {
    length: usize,
    duration: u64,
    phase: Phase,
    count: Count,
    latency: Vec<RTT>,
    reads: Ghost<Seq<nat>>,
    pending_write: u64,
    pending_interval: u64,
}

impl View for Worker {
    type V = WorkerModel;

    closed spec fn view(&self) -> WorkerModel {
        WorkerModel {
            length: self.length,
            duration: self.duration,
            phase: self.phase,
            count: self.count,
            samples: self.latency@,
            reads: self.reads@,
            pending_write: self.pending_write,
            pending_interval: self.pending_interval,
        }
    }
}

impl Worker {
    pub closed spec fn wf(&self) -> bool {
        self@.consistent()
    }

    /// A worker that will send `length`-byte requests until `duration`
    /// nanoseconds have passed since its run started.
    pub fn new(length: usize, duration: u64) -> (w: Worker)
        ensures
            w.wf(),
            w@ == fresh_model(length, duration),
    {
        let w = Worker {
            length,
            duration,
            phase: Phase::Connecting,
            count: Count::default(),
            latency: Vec::new(),
            reads: Ghost(Seq::empty()),
            pending_write: 0,
            pending_interval: 0,
        };
        assert(w@.samples == Seq::<RTT>::empty());
        w
    }

    /// The action the current phase asks for.
    pub fn action(&self) -> (a: Action)
        ensures
            a == self@.action(),
    {
        match self.phase {
            Phase::Connecting => Action::Connect,
            Phase::Writing => Action::Write(self.length),
            Phase::Reading => Action::Read,
            Phase::Done => Action::Deliver,
        }
    }

    /// The counters so far.
    pub fn counts(&self) -> (c: Count)
        ensures
            c == self@.count,
    {
        self.count
    }

    /// Whether the run is over.
    pub fn is_done(&self) -> (d: bool)
        ensures
            d == (self@.phase == Phase::Done),
    {
        match self.phase {
            Phase::Done => true,
            _ => false,
        }
    }

    fn record(&mut self, bytes: usize, read: u64, elapsed: u64)
        requires
            old(self).wf(),
            old(self)@.can_record(bytes),
        ensures
            final(self).wf(),
            final(self)@ == old(self)@.recorded(bytes, read, elapsed),
    {
        let ghost s0 = self.count.send as int;
        let ghost b0 = self.count.send_bytes as int;
        let ghost len = self.length as int;
        self.count = Count {
            send: self.count.send + 1,
            recv: self.count.recv + 1,
            send_bytes: self.count.send_bytes + self.length as u64,
            recv_bytes: self.count.recv_bytes + bytes as u64,
        };
        self.latency.push(RTT { write: self.pending_write, read, interval: self.pending_interval });
        proof {
            let prev = self.reads@;
            self.reads = Ghost(prev.push(bytes as nat));
            assert(self.reads@.drop_last() == prev);
            assert(b0 + len == (s0 + 1) * len) by (nonlinear_arith)
                requires
                    b0 == s0 * len;
        }
        self.phase = if elapsed > self.duration { Phase::Done } else { Phase::Writing };
    }

    /// Takes in the outcome of the last action and returns the next one.
    pub fn step(&mut self, event: Event) -> (a: Action)
        requires
            old(self).wf(),
        ensures
            final(self).wf(),
            final(self)@ == old(self)@.after(event),
            a == final(self)@.action(),
    {
        match (self.phase, event) {
            (Phase::Connecting, Event::Connected) => {
                self.phase = Phase::Writing;
            },
            (Phase::Connecting, Event::ConnectFailed) => {
                self.phase = Phase::Done;
            },
            (Phase::Writing, Event::Wrote { write, interval }) => {
                self.phase = Phase::Reading;
                self.pending_write = write;
                self.pending_interval = interval;
            },
            (Phase::Writing, Event::WriteFailed) => {
                self.phase = Phase::Done;
            },
            (Phase::Reading, Event::Read { bytes, read, elapsed }) => {
                let fits = self.count.send < u64::MAX && self.count.recv < u64::MAX
                    && self.count.send_bytes.checked_add(self.length as u64).is_some()
                    && self.count.recv_bytes.checked_add(bytes as u64).is_some();
                if fits {
                    self.record(bytes, read, elapsed);
                } else {
                    self.phase = Phase::Done;
                }
            },
            (Phase::Reading, Event::WouldBlock) => {},
            (Phase::Reading, Event::ReadFailed) => {
                self.phase = Phase::Done;
            },
            _ => {},
        }
        self.action()
    }

    /// Ends the worker, handing out its counters and its samples in the
    /// order they were taken.
    pub fn into_result(self) -> (r: (Count, Vec<RTT>))
        requires
            self.wf(),
        ensures
            r.0 == self@.count,
            r.1@ == self@.samples,
            self@.consistent(),
            r.0.send == r.1@.len(),
            r.0.recv == r.1@.len(),
            r.0.send_bytes == r.0.send * self@.length,
            r.0.recv_bytes == nat_sum(self@.reads),
    {
        (self.count, self.latency)
    }
}

/// The counters of a sequence of workers, in order.
pub open spec fn counts_of(ws: Seq<WorkerModel>) -> Seq<Count> {
    ws.map_values(|w: WorkerModel| w.count)
}

/// Bytes returned by the target over all reads of all workers.
pub open spec fn bytes_returned(ws: Seq<WorkerModel>) -> nat
    decreases ws.len(),
{
    if ws.len() == 0 {
        0
    } else {
        bytes_returned(ws.drop_last()) + nat_sum(ws.last().reads)
    }
}

/// Samples delivered by all workers.
pub open spec fn samples_taken(ws: Seq<WorkerModel>) -> nat
    decreases ws.len(),
{
    if ws.len() == 0 {
        0
    } else {
        samples_taken(ws.drop_last()) + ws.last().samples.len()
    }
}

/// Every transition keeps the counters consistent with the samples.
pub proof fn lemma_after_consistent(m: WorkerModel, e: Event)
    requires
        m.consistent(),
    ensures
        m.after(e).consistent(),
{
    if let (Phase::Reading, Event::Read { bytes, read, elapsed }) = (m.phase, e) {
        if m.can_record(bytes) {
            let n = m.recorded(bytes, read, elapsed);
            assert(n.reads.drop_last() == m.reads);
            let s0 = m.count.send as int;
            let len = m.length as int;
            assert(s0 * len + len == (s0 + 1) * len) by (nonlinear_arith);
        }
    }
}

/// Over workers that all send `length`-byte requests and whose counters are
/// consistent, the merged sent bytes are the merged request count times
/// `length`, the merged received bytes are the bytes the target returned,
/// and as many requests and as many responses were counted as samples
/// were taken.
pub proof fn lemma_counter_conservation(ws: Seq<WorkerModel>, length: usize)
    requires
        forall|i: int| 0 <= i < ws.len() ==> (#[trigger] ws[i]).consistent() && ws[i].length == length,
    ensures
        counter_total(counts_of(ws), Counter::SendBytes)
            == counter_total(counts_of(ws), Counter::Send) * length,
        counter_total(counts_of(ws), Counter::RecvBytes) == bytes_returned(ws),
        counter_total(counts_of(ws), Counter::Send) == counter_total(counts_of(ws), Counter::Recv),
        counter_total(counts_of(ws), Counter::Recv) == samples_taken(ws),
    decreases ws.len(),
{
    if ws.len() > 0 {
        let rest = ws.drop_last();
        assert forall|i: int| 0 <= i < rest.len() implies (#[trigger] rest[i]).consistent()
            && rest[i].length == length by {
            assert(rest[i] == ws[i]);
        }
        lemma_counter_conservation(rest, length);
        assert(counts_of(ws).drop_last() == counts_of(rest));
        let last = ws[ws.len() - 1];
        assert(last.consistent());
        assert(counts_of(ws).last() == last.count);
        let a = counter_total(counts_of(rest), Counter::Send) as int;
        let c = last.count.send as int;
        let l = length as int;
        assert(a * l + c * l == (a + c) * l) by (nonlinear_arith);
    } else {
        assert(counter_total(counts_of(ws), Counter::Send) == 0);
        assert(0 * (length as int) == 0) by (nonlinear_arith);
    }
}

/// Once connected, a worker ends its run only on a failed connect, write or
/// read, when its counters are full, or on a completed read whose elapsed
/// time exceeds the duration; a completed read within the duration always
/// leads to another request.
pub proof fn lemma_run_ends_only_past_deadline(m: WorkerModel, e: Event)
    requires
        m.phase != Phase::Done,
        m.after(e).phase == Phase::Done,
    ensures
        match e {
            Event::ConnectFailed | Event::WriteFailed | Event::ReadFailed => true,
            Event::Read { bytes, read, elapsed } => elapsed > m.duration || !m.can_record(bytes),
            _ => false,
        },
{
}

/// A completed, countable read ends the run exactly when the elapsed time
/// exceeds the duration.
pub proof fn lemma_deadline_checked_after_each_exchange(m: WorkerModel, bytes: usize, read: u64, elapsed: u64)
    requires
        m.phase == Phase::Reading,
        m.can_record(bytes),
    ensures
        (m.after(Event::Read { bytes, read, elapsed }).phase == Phase::Done) == (elapsed > m.duration),
{
}

/// A worker whose connection attempt fails ends with all-zero counters and
/// no samples.
pub proof fn lemma_connect_failure_contributes_nothing(length: usize, duration: u64)
    ensures
        fresh_model(length, duration).after(Event::ConnectFailed).phase == Phase::Done,
        fresh_model(length, duration).after(Event::ConnectFailed).count == zero_count(),
        fresh_model(length, duration).after(Event::ConnectFailed).samples.len() == 0,
{
}

} // verus!
