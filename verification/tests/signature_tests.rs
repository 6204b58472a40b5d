use quantum_chain::chain::QuantumBlockchain;

fn key(bits: [bool; 10]) -> Vec<bool> {
    bits.to_vec()
}

#[test]
fn sign_then_verify_succeeds() {
    let k = key([true, false, true, true, false, false, true, false, true, false]);
    let sig = QuantumBlockchain::sign_message("Message 101", &k);
    assert_eq!(sig.len(), "Message 101".len());
    assert!(QuantumBlockchain::verify_signature("Message 101", &sig, &k));
}

#[test]
fn sign_exact_bits_with_all_false_key() {
    // With an all-false key every signature bit is the byte's parity:
    // 'A' is 65 (odd), 'B' is 66 (even).
    let k = key([false; 10]);
    let sig = QuantumBlockchain::sign_message("AB", &k);
    assert_eq!(sig, vec![true, false]);
}

#[test]
fn sign_exact_bits_with_all_true_key() {
    // An all-true key flips every parity bit.
    let k = key([true; 10]);
    let sig = QuantumBlockchain::sign_message("AB", &k);
    assert_eq!(sig, vec![false, true]);
}

#[test]
fn sign_cycles_through_the_key() {
    // Twelve bytes wrap around a ten-bit key: byte 10 uses key bit 0,
    // byte 11 uses key bit 1. "aaaaaaaaaaaa" is twelve odd bytes.
    let mut bits = [false; 10];
    bits[0] = true;
    let k = key(bits);
    let sig = QuantumBlockchain::sign_message("aaaaaaaaaaaa", &k);
    let mut expected = vec![true; 12];
    expected[0] = false;
    expected[10] = false;
    assert_eq!(sig, expected);
}

#[test]
fn empty_message_signs_empty_and_verifies() {
    let k = key([true, true, false, false, true, false, false, true, true, false]);
    let sig = QuantumBlockchain::sign_message("", &k);
    assert!(sig.is_empty());
    assert!(QuantumBlockchain::verify_signature("", &sig, &k));
}

#[test]
fn differing_key_rejects() {
    // The keys differ at position 0, which an eleven-byte message uses.
    let k0 = key([false; 10]);
    let mut bits = [false; 10];
    bits[0] = true;
    let k1 = key(bits);
    let sig = QuantumBlockchain::sign_message("Message 101", &k0);
    assert!(QuantumBlockchain::verify_signature("Message 101", &sig, &k0));
    assert!(!QuantumBlockchain::verify_signature("Message 101", &sig, &k1));
}

#[test]
fn wrong_length_signature_rejects() {
    let k = key([false; 10]);
    let mut sig = QuantumBlockchain::sign_message("abc", &k);
    sig.pop();
    assert!(!QuantumBlockchain::verify_signature("abc", &sig, &k));
    let mut long = QuantumBlockchain::sign_message("abc", &k);
    long.push(false);
    assert!(!QuantumBlockchain::verify_signature("abc", &long, &k));
}

#[test]
fn flipped_bit_rejects() {
    let k = key([true, false, false, true, false, true, true, false, false, true]);
    let mut sig = QuantumBlockchain::sign_message("hello", &k);
    sig[2] = !sig[2];
    assert!(!QuantumBlockchain::verify_signature("hello", &sig, &k));
}

#[test]
fn generated_keys_are_equal_and_ten_bits() {
    let (private_key, public_key) = QuantumBlockchain::generate_keys();
    assert_eq!(private_key.len(), 10);
    assert_eq!(private_key, public_key);
}
