use echo_bench::counters::{merge_all, Count};

fn count(send: u64, recv: u64, send_bytes: u64, recv_bytes: u64) -> Count {
    Count { send, recv, send_bytes, recv_bytes }
}

#[test]
fn merge_of_nothing_is_zero() {
    assert_eq!(merge_all(&Vec::new()), Some(Count::default()));
}

#[test]
fn merge_sums_each_field() {
    let cs = vec![count(1, 2, 3, 4), count(10, 20, 30, 40), Count::default()];
    assert_eq!(merge_all(&cs), Some(count(11, 22, 33, 44)));
}

#[test]
fn merge_overflow_is_none() {
    let cs = vec![count(0, 0, 0, u64::MAX), count(0, 0, 0, 1)];
    assert_eq!(merge_all(&cs), None);
    let ok = vec![count(0, 0, 0, u64::MAX - 1), count(0, 0, 0, 1)];
    assert_eq!(merge_all(&ok), Some(count(0, 0, 0, u64::MAX)));
}
