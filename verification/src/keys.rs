//! Key generation: each node draws a fresh `KEY_LENGTH`-bit key from a
//! uniform random source; the public key equals the private key.

use vstd::prelude::*;
use crate::chain::QuantumBlockchain;
use crate::types::KEY_LENGTH;

verus! {

/// Relies on `rand::random`: a value drawn from the thread-local generator;
/// nothing is promised of which value comes back.
pub assume_specification<T>[ rand::random::<T> ]() -> (r: T)
    where
        rand::distributions::Standard: rand::distributions::Distribution<T>,
;

impl QuantumBlockchain {
    /// Draws one keypair: two `KEY_LENGTH`-bit sequences that are equal
    /// bit for bit, each bit uniformly random.
    pub fn generate_keys() -> (r: (Vec<bool>, Vec<bool>))
        ensures
            r.0@ == r.1@,
            r.0@.len() == KEY_LENGTH,
    {
        let mut private_key: Vec<bool> = Vec::new();
        let mut public_key: Vec<bool> = Vec::new();
        let mut k: usize = 0;
        while k < KEY_LENGTH
            invariant
                k <= KEY_LENGTH,
                private_key@.len() == k,
                private_key@ == public_key@,
            decreases KEY_LENGTH - k,
        {
            let bit: bool = rand::random::<bool>();
            private_key.push(bit);
            public_key.push(bit);
            k = k + 1;
        }
        (private_key, public_key)
    }
}

} // verus!
