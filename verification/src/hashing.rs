//! Block construction: a canonical, order-preserving byte encoding of the
//! transactions, digested together with the previous hash by SHA-256 and
//! written in lowercase hex. The timestamp is captured but takes no part
//! in the digest.

use vstd::prelude::*;
use vstd::utf8::encode_utf8;
use sha2::Digest;
use crate::chain::QuantumBlockchain;
use crate::codec::{bits_bytes, hex_of, le_bytes, lemma_hex_of_len, push_bits, push_bytes,
    push_u64_le, to_hex};
use crate::types::{Block, BlockBody, BlockHeader, Transaction};

verus! {

/// The canonical byte encoding of one transaction: the sender id, the
/// message's byte length, the message bytes, the signature's bit count,
/// then the signature bits one byte per bit. Integers go out as 8-byte
/// little-endian values.
pub open spec fn encode_transaction(t: Transaction) -> Seq<u8> {
    le_bytes(t.sender as nat, 8) + le_bytes(encode_utf8(t.message@).len(), 8) + encode_utf8(
        t.message@,
    ) + le_bytes(t.signature@.len(), 8) + bits_bytes(t.signature@)
}

/// The canonical byte encoding of a block body: the transactions one after
/// the other, in the order given.
pub open spec fn encode_transactions(ts: Seq<Transaction>) -> Seq<u8>
    decreases ts.len(),
{
    if ts.len() == 0 {
        Seq::empty()
    } else {
        encode_transactions(ts.drop_last()) + encode_transaction(ts.last())
    }
}

/// What `sha2` returns for the given input bytes.
pub uninterp spec fn sha256_of(data: Seq<u8>) -> Seq<u8>;

/// Relies on `sha2::Sha256` through the `Digest` trait: the digest is 32
/// bytes long and a function of the input bytes alone.
#[verifier::external_body]
fn sha256(data: &Vec<u8>) -> (r: Vec<u8>)
    ensures
        r@ == sha256_of(data@),
        r@.len() == 32,
{
    let mut hasher = sha2::Sha256::new();
    hasher.update(data.as_slice());
    let digest = hasher.finalize();
    digest.to_vec()
}

/// Relies on `chrono::Utc::now` and `DateTime::timestamp`: the current
/// wall-clock time in Unix seconds; nothing is promised of the value.
#[verifier::external_body]
fn current_timestamp() -> i64 {
    chrono::Utc::now().timestamp()
}

/// The hash a block built from these transactions and this previous hash
/// carries: the lowercase hex of the SHA-256 digest over the encoded body
/// followed by the previous hash's bytes. No timestamp enters.
pub open spec fn block_hash_spec(ts: Seq<Transaction>, prev: Seq<char>) -> Seq<char> {
    hex_of(sha256_of(encode_transactions(ts) + encode_utf8(prev)))
}

/// Appends the canonical encoding of one transaction to `out`.
pub fn push_transaction(out: &mut Vec<u8>, t: &Transaction)
    ensures
        final(out)@ == old(out)@ + encode_transaction(*t),
{
    push_u64_le(out, t.sender as u64);
    let msg_bytes = t.message.as_str().as_bytes();
    push_u64_le(out, msg_bytes.len() as u64);
    push_bytes(out, msg_bytes);
    push_u64_le(out, t.signature.len() as u64);
    push_bits(out, &t.signature);
    assert(final(out)@ =~= old(out)@ + encode_transaction(*t));
}

/// The canonical encoding of a whole transaction sequence.
pub fn encode_body(txs: &Vec<Transaction>) -> (r: Vec<u8>)
    ensures
        r@ == encode_transactions(txs@),
{
    let mut out: Vec<u8> = Vec::new();
    let mut k: usize = 0;
    while k < txs.len()
        invariant
            k <= txs@.len(),
            out@ =~= encode_transactions(txs@.take(k as int)),
        decreases txs@.len() - k,
    {
        push_transaction(&mut out, &txs[k]);
        proof {
            let t = txs@.take(k + 1);
            assert(t.drop_last() =~= txs@.take(k as int));
            assert(t.last() == txs@[k as int]);
        }
        assert(out@ =~= encode_transactions(txs@.take(k + 1)));
        k = k + 1;
    }
    assert(txs@.take(txs@.len() as int) =~= txs@);
    out
}

/// The hash of a block is a function of its transactions and its
/// previous-hash link alone: two blocks built from the same inputs carry
/// the same block hash, whatever their timestamps.
pub proof fn lemma_block_hash_deterministic(
    ts: Seq<Transaction>,
    prev: Seq<char>,
    b1: Block,
    b2: Block,
)
    requires
        b1.header.block_hash@ == block_hash_spec(ts, prev),
        b2.header.block_hash@ == block_hash_spec(ts, prev),
    ensures
        b1.header.block_hash@ == b2.header.block_hash@,
{
}

impl QuantumBlockchain {
    /// Builds a block over the given transactions and previous hash: the
    /// body keeps the transactions in the order given, the header carries
    /// the time of the call and the hash `block_hash_spec` names. The
    /// chain itself is left untouched; appending is the caller's move.
    pub fn create_block(&mut self, transactions: Vec<Transaction>, previous_hash: String) -> (b:
        Block)
        ensures
            *final(self) == *old(self),
            b.body.transactions == transactions,
            b.header.previous_hash == previous_hash,
            b.header.block_hash@ == block_hash_spec(transactions@, previous_hash@),
            b.header.block_hash@.len() == 64,
    {
        let timestamp = current_timestamp();
        let mut data = encode_body(&transactions);
        let prev_bytes = previous_hash.as_str().as_bytes();
        push_bytes(&mut data, prev_bytes);
        assert(data@ =~= encode_transactions(transactions@) + encode_utf8(previous_hash@));
        let digest = sha256(&data);
        let block_hash = to_hex(&digest);
        proof {
            lemma_hex_of_len(digest@);
        }
        Block {
            header: BlockHeader { previous_hash, timestamp, block_hash },
            body: BlockBody { transactions },
        }
    }
}

} // verus!
