use echo_bench::counters::{merge_all, Count};
use echo_bench::report::{summarize, throughput};
use echo_bench::worker::{Action, Event, Worker};

const SEC: u64 = 1_000_000_000;

#[test]
fn connect_failure_contributes_nothing() {
    let mut w = Worker::new(1024, SEC);
    assert_eq!(w.action(), Action::Connect);
    assert_eq!(w.step(Event::ConnectFailed), Action::Deliver);
    let (c, samples) = w.into_result();
    assert_eq!(c, Count::default());
    assert!(samples.is_empty());
}

#[test]
fn peer_gone_after_accept_records_nothing() {
    let mut w = Worker::new(1024, SEC);
    assert_eq!(w.step(Event::Connected), Action::Write(1024));
    assert_eq!(w.step(Event::WriteFailed), Action::Deliver);
    assert!(w.is_done());
    let (c, samples) = w.into_result();
    assert_eq!(c, Count::default());
    assert!(samples.is_empty());
}

#[test]
fn perfect_echo_run() {
    let mut w = Worker::new(1024, SEC);
    let mut a = w.step(Event::Connected);
    let mut elapsed = 0u64;
    let mut rounds = 0u64;
    while a != Action::Deliver {
        assert_eq!(a, Action::Write(1024));
        assert_eq!(w.step(Event::Wrote { write: 1000, interval: 10 }), Action::Read);
        elapsed += SEC / 4;
        rounds += 1;
        a = w.step(Event::Read { bytes: 1024, read: 2000, elapsed });
    }
    // 0.25 s per round: the run ends after the first round past one second.
    assert_eq!(rounds, 5);
    let (c, samples) = w.into_result();
    assert_eq!(c.send, 5);
    assert_eq!(c.recv, 5);
    assert_eq!(c.send_bytes, 5 * 1024);
    assert_eq!(c.recv_bytes, 5 * 1024);
    assert_eq!(samples.len(), 5);
    assert_eq!(samples[0].write, 1000);
    assert_eq!(samples[0].interval, 10);
    assert_eq!(samples[0].read, 2000);
    let total = merge_all(&vec![c]).unwrap();
    let t = throughput(&total, 1);
    assert!(!t.mismatch);
    assert_eq!(t.requests_per_sec, 5);
}

#[test]
fn would_block_changes_nothing() {
    let mut w = Worker::new(8, SEC);
    w.step(Event::Connected);
    w.step(Event::Wrote { write: 1, interval: 1 });
    assert_eq!(w.step(Event::WouldBlock), Action::Read);
    assert_eq!(w.counts(), Count::default());
    assert_eq!(w.step(Event::Read { bytes: 8, read: 3, elapsed: 5 }), Action::Write(8));
    assert_eq!(w.counts().send, 1);
}

#[test]
fn deadline_is_strictly_past_duration() {
    let mut w = Worker::new(8, 100);
    w.step(Event::Connected);
    w.step(Event::Wrote { write: 1, interval: 1 });
    assert_eq!(w.step(Event::Read { bytes: 8, read: 1, elapsed: 100 }), Action::Write(8));
    w.step(Event::Wrote { write: 1, interval: 1 });
    assert_eq!(w.step(Event::Read { bytes: 8, read: 1, elapsed: 101 }), Action::Deliver);
    assert_eq!(w.counts().send, 2);
}

#[test]
fn zero_byte_read_is_counted() {
    let mut w = Worker::new(24, SEC);
    w.step(Event::Connected);
    w.step(Event::Wrote { write: 1, interval: 1 });
    assert_eq!(w.step(Event::Read { bytes: 0, read: 1, elapsed: 1 }), Action::Write(24));
    let c = w.counts();
    assert_eq!((c.send, c.recv, c.send_bytes, c.recv_bytes), (1, 1, 24, 0));
}

#[test]
fn read_failure_ends_run_keeping_earlier_samples() {
    let mut w = Worker::new(24, SEC);
    w.step(Event::Connected);
    w.step(Event::Wrote { write: 1, interval: 1 });
    w.step(Event::Read { bytes: 1048, read: 1, elapsed: 1 });
    w.step(Event::Wrote { write: 1, interval: 1 });
    assert_eq!(w.step(Event::ReadFailed), Action::Deliver);
    let (c, samples) = w.into_result();
    assert_eq!((c.send, c.recv, c.send_bytes, c.recv_bytes), (1, 1, 24, 1048));
    assert_eq!(samples.len(), 1);
}

#[test]
fn unexpected_event_is_ignored() {
    let mut w = Worker::new(24, SEC);
    assert_eq!(w.step(Event::WouldBlock), Action::Connect);
    assert_eq!(w.step(Event::Read { bytes: 3, read: 1, elapsed: 1 }), Action::Connect);
    assert_eq!(w.counts(), Count::default());
}

#[test]
fn failed_worker_leaves_others_unaffected() {
    let mut ok = Worker::new(16, 0);
    ok.step(Event::Connected);
    ok.step(Event::Wrote { write: 1, interval: 1 });
    ok.step(Event::Read { bytes: 16, read: 1, elapsed: 1 });
    let mut failed = Worker::new(16, 0);
    failed.step(Event::ConnectFailed);
    let alone = summarize(&vec![ok.counts()], 1).unwrap();
    let both = summarize(&vec![ok.counts(), failed.counts()], 1).unwrap();
    assert_eq!(alone, both);
}

#[test]
fn failed_worker_in_the_middle_changes_nothing() {
    let mut a = Worker::new(16, 0);
    a.step(Event::Connected);
    a.step(Event::Wrote { write: 1, interval: 1 });
    a.step(Event::Read { bytes: 16, read: 1, elapsed: 1 });
    let mut b = Worker::new(16, 0);
    b.step(Event::Connected);
    b.step(Event::Wrote { write: 1, interval: 1 });
    b.step(Event::Read { bytes: 1048, read: 1, elapsed: 1 });
    let mut failed = Worker::new(16, 0);
    failed.step(Event::ConnectFailed);
    let without = merge_all(&vec![a.counts(), b.counts()]).unwrap();
    let with = merge_all(&vec![a.counts(), failed.counts(), b.counts()]).unwrap();
    assert_eq!(without, with);
    assert_eq!((with.send, with.recv, with.send_bytes, with.recv_bytes), (2, 2, 32, 1064));
}
