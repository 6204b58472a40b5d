//! The data carried by the chain: nodes with their bit-vector keys, signed
//! transactions, and blocks made of a header and a body.

use vstd::prelude::*;

verus! {

/// How many bits a node's key holds.
pub const KEY_LENGTH: usize = 10;

/// A participant: an identity with its keypair. In this toy scheme the
/// public key and the private key are the same bit sequence.
#[derive(Debug, Clone)]
pub struct Node {
    pub id: usize,
    pub public_key: Vec<bool>,
    pub private_key: Vec<bool>,
}

impl Node {
    /// A node is well formed at registry position `i` when its id is `i`,
    /// its keys are `KEY_LENGTH` bits long, and the two keys agree.
    pub open spec fn wf(self, i: int) -> bool {
        &&& self.id == i
        &&& self.public_key@.len() == KEY_LENGTH
        &&& self.private_key@ == self.public_key@
    }
}

/// A signed message from a sender, referenced by node id.
#[derive(Debug, Clone)]
pub struct Transaction {
    pub sender: usize,
    pub message: String,
    pub signature: Vec<bool>,
}

/// The header of a block: the link to the previous block, the creation
/// time in Unix seconds, and the block's own hash in lowercase hex.
#[derive(Debug, Clone)]
pub struct BlockHeader {
    pub previous_hash: String,
    pub timestamp: i64,
    pub block_hash: String,
}

/// The body of a block: its transactions, in the order they were given.
#[derive(Debug, Clone)]
pub struct BlockBody {
    pub transactions: Vec<Transaction>,
}

/// An entry of the chain.
#[derive(Debug, Clone)]
pub struct Block {
    pub header: BlockHeader,
    pub body: BlockBody,
}

/// What can go wrong when the chain inspects a transaction.
#[derive(Debug, Clone, PartialEq, Eq)]
pub enum ChainError {
    /// The transaction names a sender id outside the node registry.
    UnknownSender,
}

} // verus!
