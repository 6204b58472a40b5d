use quantum_chain::chain::QuantumBlockchain;
use quantum_chain::types::{ChainError, Node, Transaction};

fn known_chain() -> QuantumBlockchain {
    // Two nodes with known, differing keys; the keys differ at position 0,
    // which any non-empty message uses.
    let k0 = vec![false; 10];
    let mut bits1 = vec![false; 10];
    bits1[0] = true;
    QuantumBlockchain {
        blockchain: Vec::new(),
        nodes: vec![
            Node { id: 0, public_key: k0.clone(), private_key: k0 },
            Node { id: 1, public_key: bits1.clone(), private_key: bits1 },
        ],
    }
}

fn signed(chain: &QuantumBlockchain, sender: usize, message: &str) -> Transaction {
    Transaction {
        sender,
        message: message.to_string(),
        signature: QuantumBlockchain::sign_message(message, &chain.nodes[sender].private_key),
    }
}

#[test]
fn new_builds_sequential_registry() {
    let chain = QuantumBlockchain::new(10);
    assert_eq!(chain.nodes.len(), 10);
    assert!(chain.blockchain.is_empty());
    for (i, node) in chain.nodes.iter().enumerate() {
        assert_eq!(node.id, i);
        assert_eq!(node.public_key.len(), 10);
        assert_eq!(node.public_key, node.private_key);
    }
}

#[test]
fn empty_block_has_known_digest() {
    // With no transactions and an empty previous hash the digest input is
    // empty, so the block hash is the SHA-256 of the empty byte string.
    let mut chain = QuantumBlockchain::new(0);
    let block = chain.create_block(Vec::new(), String::new());
    assert_eq!(
        block.header.block_hash,
        "e3b0c44298fc1c149afbf4c8996fb92427ae41e4649b934ca495991b7852b855"
    );
}

#[test]
fn block_hash_is_deterministic() {
    let chain = known_chain();
    let tx = signed(&chain, 0, "Message 101");
    let mut c1 = known_chain();
    let mut c2 = known_chain();
    let b1 = c1.create_block(vec![tx.clone()], "0".to_string());
    let b2 = c2.create_block(vec![tx], "0".to_string());
    assert_eq!(b1.header.block_hash, b2.header.block_hash);
}

#[test]
fn block_hash_depends_on_inputs() {
    let chain = known_chain();
    let tx0 = signed(&chain, 0, "Message 101");
    let tx1 = signed(&chain, 1, "Message 110");
    let mut c = known_chain();
    let base = c.create_block(vec![tx0.clone(), tx1.clone()], "0".to_string());
    let reordered = c.create_block(vec![tx1, tx0.clone()], "0".to_string());
    let other_prev = c.create_block(vec![tx0], "1".to_string());
    assert_ne!(base.header.block_hash, reordered.header.block_hash);
    assert_ne!(base.header.block_hash, other_prev.header.block_hash);
}

#[test]
fn block_keeps_inputs() {
    let chain = known_chain();
    let tx0 = signed(&chain, 0, "Message 101");
    let tx1 = signed(&chain, 1, "Message 110");
    let mut c = known_chain();
    let block = c.create_block(vec![tx0, tx1], "0".to_string());
    assert_eq!(block.header.previous_hash, "0");
    assert_eq!(block.body.transactions.len(), 2);
    assert_eq!(block.body.transactions[0].message, "Message 101");
    assert_eq!(block.body.transactions[1].message, "Message 110");
    assert_eq!(block.header.block_hash.len(), 64);
    assert!(block.header.block_hash.chars().all(|c| c.is_ascii_hexdigit() && !c.is_uppercase()));
}

#[test]
fn chain_links_by_previous_hash() {
    let mut chain = known_chain();
    for round in 0..3 {
        let message = match round {
            0 => "first",
            1 => "second",
            _ => "third",
        };
        let tx = signed(&chain, 0, message);
        let prev = chain.latest_hash();
        let block = chain.create_block(vec![tx], prev);
        chain.add_block(block);
    }
    assert_eq!(chain.blockchain.len(), 3);
    assert_eq!(chain.blockchain[0].header.previous_hash, "0");
    for i in 1..chain.blockchain.len() {
        assert_eq!(
            chain.blockchain[i].header.previous_hash,
            chain.blockchain[i - 1].header.block_hash
        );
    }
}

#[test]
fn latest_hash_follows_the_top_block() {
    let mut chain = known_chain();
    assert_eq!(chain.latest_hash(), "0");
    let prev = chain.latest_hash();
    let block = chain.create_block(Vec::new(), prev);
    let hash = block.header.block_hash.clone();
    chain.add_block(block);
    assert_eq!(chain.latest_hash(), hash);
}

#[test]
fn verify_transaction_checks_the_sender_key() {
    let chain = known_chain();
    let good = signed(&chain, 0, "Message 101");
    assert_eq!(chain.verify_transaction(&good), Ok(true));
    // The same signature under node 1's differing key fails.
    let stolen = Transaction { sender: 1, ..good.clone() };
    assert_eq!(chain.verify_transaction(&stolen), Ok(false));
}

#[test]
fn unknown_sender_is_an_error() {
    let chain = known_chain();
    let tx = Transaction {
        sender: 5,
        message: "Message 101".to_string(),
        signature: vec![true; 11],
    };
    assert_eq!(chain.verify_transaction(&tx), Err(ChainError::UnknownSender));
    assert!(matches!(
        chain.filter_valid_transactions(vec![tx]),
        Err(ChainError::UnknownSender)
    ));
}

#[test]
fn filter_keeps_only_valid_transactions() {
    let chain = known_chain();
    let good0 = signed(&chain, 0, "Message 101");
    let good1 = signed(&chain, 1, "Message 110");
    let mut forged = signed(&chain, 0, "Message 101");
    forged.signature[0] = !forged.signature[0];
    let kept = chain
        .filter_valid_transactions(vec![good0.clone(), forged, good1.clone()])
        .unwrap();
    assert_eq!(kept.len(), 2);
    assert_eq!(kept[0].message, good0.message);
    assert_eq!(kept[0].sender, 0);
    assert_eq!(kept[1].message, good1.message);
    assert_eq!(kept[1].sender, 1);
}

#[test]
fn hex_encoding_is_lowercase_two_digits_per_byte() {
    assert_eq!(quantum_chain::codec::to_hex(&vec![0u8, 15, 16, 255]), "000f10ff");
    assert_eq!(quantum_chain::codec::to_hex(&Vec::new()), "");
}
