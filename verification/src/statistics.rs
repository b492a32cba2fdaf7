//! What the statistics worker computes before it prints.

use crate::common::{IpAddress, SocketAddress};
use std::sync::atomic::AtomicUsize;
use std::sync::atomic::Ordering;
use vstd::prelude::*;

verus! {

/// The sum of `values`, as whole numbers add up.
pub open spec fn int_sum(values: Seq<usize>) -> int
    decreases values.len(),
{
    if values.len() == 0 {
        0
    } else {
        int_sum(values.drop_last()) + values.last()
    }
}

/// The sum of `values`, starting again from zero each time it passes the
/// largest number.
pub open spec fn wrapping_sum(values: Seq<usize>) -> usize
    decreases values.len(),
{
    if values.len() == 0 {
        0
    } else {
        wrapping_sum(values.drop_last()).wrapping_add(values.last())
    }
}

/// Where the sum fits, starting again from zero never happens.
pub proof fn lemma_wrapping_sum_exact(values: Seq<usize>)
    requires
        int_sum(values) <= usize::MAX,
    ensures
        wrapping_sum(values) == int_sum(values),
    decreases values.len(),
{
    if values.len() > 0 {
        lemma_int_sum_nonnegative(values.drop_last());
        lemma_wrapping_sum_exact(values.drop_last());
    }
}

/// A sum of counts is no negative number.
pub proof fn lemma_int_sum_nonnegative(values: Seq<usize>)
    ensures
        int_sum(values) >= 0,
    decreases values.len(),
{
    if values.len() > 0 {
        lemma_int_sum_nonnegative(values.drop_last());
    }
}

/// The sum of `values`.
pub fn sum_usizes(values: &Vec<usize>) -> (sum: usize)
    ensures
        sum == wrapping_sum(values@),
{
    let mut sum: usize = 0;
    let mut i: usize = 0;
    while i < values.len()
        invariant
            i <= values.len(),
            sum == wrapping_sum(values@.take(i as int)),
        decreases values.len() - i,
    {
        proof {
            assert(values@.take(i + 1).drop_last() =~= values@.take(i as int));
        }
        sum = sum.wrapping_add(values[i]);
        i += 1;
    }
    proof {
        assert(values@.take(i as int) =~= values@);
    }
    sum
}

/// The sum of what the counters show, each read once, in order. Other
/// threads may change a counter at any time: the sum is that of the values
/// that were read, whichever those were.
pub fn sum_atomic_usizes(values: &[AtomicUsize]) -> (sum: usize)
    ensures
        exists|read: Seq<usize>| read.len() == values@.len() && sum == #[trigger] wrapping_sum(read),
{
    let mut read: Vec<usize> = Vec::new();
    let mut i: usize = 0;
    while i < values.len()
        invariant
            i <= values.len(),
            read@.len() == i,
        decreases values.len() - i,
    {
        read.push(values[i].load(Ordering::Acquire));
        i += 1;
    }
    sum_usizes(&read)
}

/// Which of the two protocols a socket at `address` serves, IPv4 first: a
/// socket at an IPv4 address serves IPv4 only; one at an IPv6 address serves
/// IPv6, and IPv4 too unless it is told to serve IPv6 only.
pub fn active_protocols(address: &SocketAddress, only_ipv6: bool) -> (active: (bool, bool))
    ensures
        active.0 == (address.ip is V4 || !only_ipv6),
        active.1 == (address.ip is V6),
{
    let is_ipv4 = match address.ip {
        IpAddress::V4(_) => true,
        IpAddress::V6(_) => false,
    };
    (is_ipv4 || !only_ipv6, !is_ipv4)
}

} // verus!
