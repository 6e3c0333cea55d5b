//! Payload generator: bounded-size random byte sequences for keys and
//! values.  Each call is independent and draws from the process-wide
//! random source, so it is safe to use from concurrent tasks.

use vstd::prelude::*;

verus! {

/// Relies on rand::random::<u8>: one byte drawn uniformly at random from
/// the thread-local generator.  Nothing is promised of the value.
#[verifier::external_body]
fn random_byte() -> u8 {
    rand::random::<u8>()
}

/// Returns exactly `size` random bytes; `size == 0` yields the empty
/// sequence.  Nothing is promised of the bytes themselves.
pub fn generate_random_bytes(size: usize) -> (r: Vec<u8>)
    ensures
        r@.len() == size as nat,
{
    let mut r: Vec<u8> = Vec::new();
    let mut i: usize = 0;
    while i < size
        invariant
            i <= size,
            r@.len() == i as nat,
        decreases size - i,
    {
        r.push(random_byte());
        i = i + 1;
    }
    r
}

} // verus!
