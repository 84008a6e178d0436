//! Fresh random bytes, for minting session addresses and key material.

use vstd::prelude::*;

verus! {

/// Relies on `rand::random`: draws a value from the thread-local random
/// generator. The result depends on the generator's state, so nothing is
/// promised about which value comes back.
pub assume_specification<T>[ rand::random::<T> ]() -> (r: T)
    where
        rand::distributions::Standard: rand::distributions::Distribution<T>,
;

/// Draws `n` fresh bytes. Which bytes come back is not specified; only the
/// length is.
pub fn fresh_bytes(n: usize) -> (r: Vec<u8>)
    ensures
        r@.len() == n,
{
    let mut r: Vec<u8> = Vec::new();
    let mut i: usize = 0;
    while i < n
        invariant
            i <= n,
            r@.len() == i,
        decreases n - i,
    {
        let b: u8 = rand::random();
        r.push(b);
        i = i + 1;
    }
    r
}

} // verus!
