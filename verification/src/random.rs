//! The two places where the tracker draws on chance: a fresh connection token
//! and the choice of which peers to hand out.

use rand::seq::IteratorRandom;
use rand::Rng;
use vstd::prelude::*;

verus! {

/// `rand::thread_rng` with `Rng::gen`: a number drawn from the generator of
/// the calling thread, which gives up only where the system has no
/// randomness for it. Nothing is claimed of which number comes out.
#[verifier::external_body]
pub(crate) fn random_i64() -> i64 {
    rand::thread_rng().gen()
}

/// `IteratorRandom::choose_multiple` over the numbers below `len`, with the
/// generator of the calling thread. No more numbers are asked for than there
/// are to choose from: room is made for all that are asked for before any is
/// chosen. Claimed of every outcome: as many numbers come back as were asked
/// for; each is below `len`; none comes twice. Their order is left open.
#[verifier::external_body]
pub(crate) fn choose_indices(len: usize, amount: usize) -> (picks: Vec<usize>)
    requires
        amount <= len,
    ensures
        picks@.len() == amount,
        forall|i: int| 0 <= i < picks@.len() ==> picks@[i] < len,
        picks@.no_duplicates(),
{
    (0..len).choose_multiple(&mut rand::thread_rng(), amount)
}

} // verus!
