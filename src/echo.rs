//! The reply rule of the echo target used to exercise the benchmark.
use vstd::prelude::*;

verus! {

/// Length of the reply to an inbound message of `n` bytes: `None` when
/// `n == 0` (the peer closed), 1048 for 24, 24 for 1048, otherwise `n`.
pub fn reply_length(n: usize) -> (r: Option<usize>)
    ensures
        n == 0 ==> r == None::<usize>,
        n == 24 ==> r == Some(1048usize),
        n == 1048 ==> r == Some(24usize),
        n != 0 && n != 24 && n != 1048 ==> r == Some(n),
{
    match n {
        0 => None,
        24 => Some(1048),
        1048 => Some(24),
        _ => Some(n),
    }
}

} // verus!
