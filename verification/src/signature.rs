//! The toy signature scheme: one signature bit per message byte, the byte's
//! parity XORed with a key bit chosen by cycling through the key.

use vstd::prelude::*;
use vstd::utf8::encode_utf8;
use crate::chain::QuantumBlockchain;

verus! {

/// The signature that signing `msg` with `key` yields: bit `i` is the
/// parity of byte `i`, XORed with key bit `i mod key.len()`.
pub open spec fn sign_spec(msg: Seq<u8>, key: Seq<bool>) -> Seq<bool> {
    Seq::new(msg.len(), |i: int| (msg[i] % 2 == 1) != key[i % (key.len() as int)])
}

/// A signature is accepted for `msg` under `key` exactly when it equals,
/// bit for bit, the signature that signing `msg` with `key` yields.
pub open spec fn verifies(msg: Seq<u8>, signature: Seq<bool>, key: Seq<bool>) -> bool {
    signature == sign_spec(msg, key)
}

impl QuantumBlockchain {
    /// Signs the message's bytes with the given key.
    pub fn sign_message(message: &str, private_key: &Vec<bool>) -> (r: Vec<bool>)
        requires
            private_key@.len() > 0,
        ensures
            r@ == sign_spec(encode_utf8(message@), private_key@),
    {
        let bytes = message.as_bytes();
        let mut signature: Vec<bool> = Vec::new();
        let mut i: usize = 0;
        while i < bytes.len()
            invariant
                bytes@ == encode_utf8(message@),
                i <= bytes@.len(),
                private_key@.len() > 0,
                signature@ =~= sign_spec(bytes@, private_key@).take(i as int),
            decreases bytes@.len() - i,
        {
            let key_bit = private_key[i % private_key.len()];
            signature.push((bytes[i] % 2 == 1) != key_bit);
            assert(signature@ =~= sign_spec(bytes@, private_key@).take(i + 1));
            i = i + 1;
        }
        assert(sign_spec(bytes@, private_key@).take(bytes@.len() as int) =~= sign_spec(
            bytes@,
            private_key@,
        ));
        signature
    }

    /// Recomputes the expected signature bits from the message and the key
    /// and accepts exactly when the given signature matches them all and has
    /// the right length. A mismatch of any kind yields `false`, never a
    /// panic.
    pub fn verify_signature(message: &str, signature: &Vec<bool>, public_key: &Vec<bool>) -> (r:
        bool)
        requires
            public_key@.len() > 0,
        ensures
            r == verifies(encode_utf8(message@), signature@, public_key@),
    {
        let bytes = message.as_bytes();
        let ghost expected = sign_spec(bytes@, public_key@);
        if signature.len() != bytes.len() {
            return false;
        }
        let mut i: usize = 0;
        while i < bytes.len()
            invariant
                bytes@ == encode_utf8(message@),
                expected == sign_spec(bytes@, public_key@),
                signature@.len() == bytes@.len(),
                i <= bytes@.len(),
                public_key@.len() > 0,
                forall|j: int| 0 <= j < i ==> signature@[j] == expected[j],
            decreases bytes@.len() - i,
        {
            let key_bit = public_key[i % public_key.len()];
            let expected_bit = (bytes[i] % 2 == 1) != key_bit;
            if signature[i] != expected_bit {
                assert(signature@[i as int] != expected[i as int]);
                return false;
            }
            i = i + 1;
        }
        assert(signature@ =~= expected);
        true
    }
}

/// A signature produced with a key verifies against that same key, for
/// every message and every key.
pub proof fn lemma_sign_verifies(msg: Seq<u8>, key: Seq<bool>)
    ensures
        verifies(msg, sign_spec(msg, key), key),
{
}

/// A signature made with one key is rejected under another key of the same
/// length that differs at a bit position the message actually uses.
pub proof fn lemma_differing_key_fails(msg: Seq<u8>, k1: Seq<bool>, k2: Seq<bool>, i: int)
    requires
        k1.len() == k2.len(),
        k1.len() > 0,
        0 <= i < msg.len(),
        k1[i % (k1.len() as int)] != k2[i % (k2.len() as int)],
    ensures
        !verifies(msg, sign_spec(msg, k1), k2),
{
    assert(sign_spec(msg, k1)[i] != sign_spec(msg, k2)[i]);
}

} // verus!
