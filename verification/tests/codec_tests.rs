use quantum_chain::codec::{push_bits, push_bytes, push_u64_le, to_hex};

#[test]
fn u64_encodes_little_endian_on_eight_bytes() {
    let mut out: Vec<u8> = Vec::new();
    push_u64_le(&mut out, 0x0102_03ff);
    assert_eq!(out, vec![0xff, 0x03, 0x02, 0x01, 0, 0, 0, 0]);
    push_u64_le(&mut out, 0);
    assert_eq!(out.len(), 16);
    assert_eq!(&out[8..], &[0u8; 8]);
}

#[test]
fn bits_encode_one_byte_per_bit() {
    let mut out: Vec<u8> = vec![9];
    push_bits(&mut out, &vec![true, false, true]);
    assert_eq!(out, vec![9, 1, 0, 1]);
}

#[test]
fn bytes_append_in_order() {
    let mut out: Vec<u8> = vec![1];
    push_bytes(&mut out, &[2, 3]);
    assert_eq!(out, vec![1, 2, 3]);
}

#[test]
fn hex_matches_known_values() {
    assert_eq!(to_hex(&vec![0xde, 0xad, 0xbe, 0xef]), "deadbeef");
    assert_eq!(to_hex(&vec![0x01, 0x23, 0x45, 0x67, 0x89, 0xab, 0xcd, 0xef]), "0123456789abcdef");
}
