//! The chain itself: the node registry, the append-only block sequence,
//! and the linkage discipline between consecutive blocks.

use vstd::prelude::*;
use vstd::utf8::encode_utf8;
use crate::signature::verifies;
use crate::types::{Block, ChainError, Node, Transaction};

verus! {

/// The whole process state: the append-only chain and the node registry.
/// The registry maps a node id to its node by position: the node with id
/// `i` sits at index `i`.
#[derive(Debug)]
pub struct QuantumBlockchain {
    pub blockchain: Vec<Block>,
    pub nodes: Vec<Node>,
}

/// The hash a new block must name as its predecessor when the chain holds
/// `chain`: the sentinel `"0"` while the chain is empty, the last block's
/// hash after that.
pub open spec fn latest_hash_spec(chain: Seq<Block>) -> Seq<char> {
    if chain.len() == 0 {
        "0"@
    } else {
        chain.last().header.block_hash@
    }
}

/// Block `i` of `chain` names the right predecessor: the sentinel `"0"`
/// for the first block, the previous block's hash for every later one.
pub open spec fn linked_at(chain: Seq<Block>, i: int) -> bool {
    chain[i].header.previous_hash@ == if i == 0 {
        "0"@
    } else {
        chain[i - 1].header.block_hash@
    }
}

/// Every block of `chain` names the right predecessor.
pub open spec fn well_linked(chain: Seq<Block>) -> bool {
    forall|i: int| 0 <= i < chain.len() ==> #[trigger] linked_at(chain, i)
}

/// Appending a block whose previous-hash field holds the hash at the top
/// of a linked chain leaves the chain linked.
pub proof fn lemma_add_block_keeps_linkage(chain: Seq<Block>, b: Block)
    requires
        well_linked(chain),
        b.header.previous_hash@ == latest_hash_spec(chain),
    ensures
        well_linked(chain.push(b)),
{
    let c2 = chain.push(b);
    assert forall|i: int| 0 <= i < c2.len() implies #[trigger] linked_at(c2, i) by {
        if i < chain.len() {
            assert(linked_at(chain, i));
        }
    }
}

impl QuantumBlockchain {
    /// Every node of the registry is well formed and sits at the index its
    /// id names.
    pub open spec fn wf(self) -> bool {
        forall|i: int| 0 <= i < self.nodes@.len() ==> (#[trigger] self.nodes@[i]).wf(i)
    }

    /// A transaction is valid when its sender is a registered node and its
    /// signature verifies under that node's public key.
    pub open spec fn transaction_valid(self, tx: Transaction) -> bool {
        &&& (tx.sender as int) < self.nodes@.len()
        &&& verifies(
            encode_utf8(tx.message@),
            tx.signature@,
            self.nodes@[tx.sender as int].public_key@,
        )
    }

    /// The subsequence of `ts` made of the valid transactions, in order.
    pub open spec fn valid_transactions_of(self, ts: Seq<Transaction>) -> Seq<Transaction>
        decreases ts.len(),
    {
        if ts.len() == 0 {
            Seq::empty()
        } else {
            self.valid_transactions_of(ts.drop_last()) + if self.transaction_valid(ts.last()) {
                seq![ts.last()]
            } else {
                Seq::empty()
            }
        }
    }

    /// Sets up an empty chain with `num_nodes` freshly keyed nodes, ids
    /// `0` up to `num_nodes - 1` in order.
    pub fn new(num_nodes: usize) -> (r: Self)
        ensures
            r.wf(),
            r.nodes@.len() == num_nodes,
            r.blockchain@.len() == 0,
    {
        let mut nodes: Vec<Node> = Vec::new();
        let mut id: usize = 0;
        while id < num_nodes
            invariant
                id <= num_nodes,
                nodes@.len() == id,
                forall|i: int| 0 <= i < id ==> (#[trigger] nodes@[i]).wf(i),
            decreases num_nodes - id,
        {
            let (private_key, public_key) = QuantumBlockchain::generate_keys();
            nodes.push(Node { id, public_key, private_key });
            id = id + 1;
        }
        QuantumBlockchain { blockchain: Vec::new(), nodes }
    }

    /// Appends the block to the chain, unconditionally: no linkage or
    /// digest check happens here; that discipline is the caller's, as
    /// `lemma_add_block_keeps_linkage` states it.
    pub fn add_block(&mut self, block: Block)
        ensures
            final(self).blockchain@ == old(self).blockchain@.push(block),
            final(self).nodes == old(self).nodes,
    {
        self.blockchain.push(block);
    }

    /// The hash a new block should link to right now: `"0"` on an empty
    /// chain, the last block's hash otherwise.
    pub fn latest_hash(&self) -> (r: String)
        ensures
            r@ == latest_hash_spec(self.blockchain@),
    {
        if self.blockchain.len() == 0 {
            "0".to_owned()
        } else {
            self.blockchain[self.blockchain.len() - 1].header.block_hash.clone()
        }
    }

    /// Looks the sender up in the registry and checks the signature under
    /// the sender's public key; an unregistered sender is reported as an
    /// error, never a panic.
    pub fn verify_transaction(&self, tx: &Transaction) -> (r: Result<bool, ChainError>)
        requires
            self.wf(),
        ensures
            r == if (tx.sender as int) < self.nodes@.len() {
                Result::<bool, ChainError>::Ok(self.transaction_valid(*tx))
            } else {
                Result::<bool, ChainError>::Err(ChainError::UnknownSender)
            },
    {
        if tx.sender < self.nodes.len() {
            let node = &self.nodes[tx.sender];
            assert(node.wf(tx.sender as int));
            Ok(QuantumBlockchain::verify_signature(
                tx.message.as_str(),
                &tx.signature,
                &node.public_key,
            ))
        } else {
            Err(ChainError::UnknownSender)
        }
    }

    /// Keeps, in order, exactly the transactions whose signatures verify,
    /// silently dropping the invalid ones; a transaction naming an
    /// unregistered sender makes the whole call fail instead.
    pub fn filter_valid_transactions(&self, txs: Vec<Transaction>) -> (r: Result<
        Vec<Transaction>,
        ChainError,
    >)
        requires
            self.wf(),
        ensures
            (forall|k: int|
                0 <= k < txs@.len() ==> (#[trigger] txs@[k].sender as int) < self.nodes@.len())
                ==> (r is Ok && r->Ok_0@ == self.valid_transactions_of(txs@)),
            (exists|k: int|
                0 <= k < txs@.len() && (#[trigger] txs@[k].sender as int) >= self.nodes@.len())
                ==> r == Result::<Vec<Transaction>, ChainError>::Err(ChainError::UnknownSender),
    {
        let ghost all = txs@;
        let mut rest = txs;
        let mut out: Vec<Transaction> = Vec::new();
        let ghost mut i: int = 0;
        while rest.len() > 0
            invariant
                self.wf(),
                all == txs@,
                0 <= i,
                i + rest@.len() == all.len(),
                rest@ =~= all.skip(i),
                out@ =~= self.valid_transactions_of(all.take(i)),
                forall|k: int| 0 <= k < i ==> (#[trigger] all[k].sender as int) < self.nodes@.len(),
            decreases rest@.len(),
        {
            let tx = rest.remove(0);
            assert(tx == all[i]);
            assert(rest@ =~= all.skip(i + 1));
            if tx.sender >= self.nodes.len() {
                proof {
                    assert(all == txs@);
                    assert(0 <= i < txs@.len());
                    assert((txs@[i].sender as int) >= self.nodes@.len());
                }
                return Err(ChainError::UnknownSender);
            }
            let node = &self.nodes[tx.sender];
            assert(node.wf(tx.sender as int));
            let keep = QuantumBlockchain::verify_signature(
                tx.message.as_str(),
                &tx.signature,
                &node.public_key,
            );
            proof {
                let t = all.take(i + 1);
                assert(t.drop_last() =~= all.take(i));
                assert(t.last() == all[i]);
            }
            if keep {
                assert(self.transaction_valid(tx));
                out.push(tx);
                assert(out@ =~= self.valid_transactions_of(all.take(i + 1)));
            } else {
                assert(!self.transaction_valid(tx));
                assert(out@ =~= self.valid_transactions_of(all.take(i + 1)));
            }
            proof {
                i = i + 1;
            }
        }
        assert(all.take(all.len() as int) =~= all);
        Ok(out)
    }
}

} // verus!
