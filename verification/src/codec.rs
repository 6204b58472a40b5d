//! Canonical byte encodings used when hashing a block: little-endian
//! integers, signature bits as bytes, and lowercase hex for digests.

use vstd::prelude::*;

verus! {

/// The `count` least-significant base-256 digits of `n`, least significant
/// first: the little-endian byte encoding of `n` on `count` bytes.
pub open spec fn le_bytes(n: nat, count: nat) -> Seq<u8>
    decreases count,
{
    if count == 0 {
        Seq::empty()
    } else {
        seq![(n % 256) as u8] + le_bytes(n / 256, (count - 1) as nat)
    }
}

/// Appends the 8-byte little-endian encoding of `n` to `out`.
pub fn push_u64_le(out: &mut Vec<u8>, n: u64)
    ensures
        final(out)@ == old(out)@ + le_bytes(n as nat, 8),
{
    let mut v: u64 = n;
    let mut k: usize = 0;
    while k < 8
        invariant
            k <= 8,
            old(out)@ + le_bytes(n as nat, 8) =~= out@ + le_bytes(v as nat, (8 - k) as nat),
        decreases 8 - k,
    {
        let ghost pre = out@;
        let ghost rest = (v as nat) / 256;
        assert(le_bytes(v as nat, (8 - k) as nat) == seq![((v as nat) % 256) as u8] + le_bytes(
            rest,
            (8 - k - 1) as nat,
        ));
        let b: u8 = (v % 256) as u8;
        out.push(b);
        assert(out@ =~= pre + seq![b]);
        assert((pre + seq![b]) + le_bytes(rest, (8 - k - 1) as nat) =~= pre + (seq![b] + le_bytes(
            rest,
            (8 - k - 1) as nat,
        )));
        v = v / 256;
        k = k + 1;
    }
    assert(out@ + le_bytes(v as nat, 0) =~= out@);
}

/// Appends all of `bytes` to `out`.
pub fn push_bytes(out: &mut Vec<u8>, bytes: &[u8])
    ensures
        final(out)@ == old(out)@ + bytes@,
{
    let mut k: usize = 0;
    while k < bytes.len()
        invariant
            k <= bytes@.len(),
            out@ =~= old(out)@ + bytes@.take(k as int),
        decreases bytes@.len() - k,
    {
        out.push(bytes[k]);
        k = k + 1;
    }
    assert(bytes@.take(bytes@.len() as int) =~= bytes@);
}

/// One byte standing for one signature bit.
pub open spec fn bit_byte(b: bool) -> u8 {
    if b {
        1
    } else {
        0
    }
}

/// Signature bits written out one byte per bit.
pub open spec fn bits_bytes(bits: Seq<bool>) -> Seq<u8> {
    Seq::new(bits.len(), |i: int| bit_byte(bits[i]))
}

/// Appends the byte encoding of the given bits to `out`.
pub fn push_bits(out: &mut Vec<u8>, bits: &Vec<bool>)
    ensures
        final(out)@ == old(out)@ + bits_bytes(bits@),
{
    let mut k: usize = 0;
    while k < bits.len()
        invariant
            k <= bits@.len(),
            out@ =~= old(out)@ + bits_bytes(bits@).take(k as int),
        decreases bits@.len() - k,
    {
        let b: u8 = if bits[k] {
            1
        } else {
            0
        };
        out.push(b);
        assert(out@ =~= old(out)@ + bits_bytes(bits@).take(k + 1));
        k = k + 1;
    }
    assert(bits_bytes(bits@).take(bits@.len() as int) =~= bits_bytes(bits@));
}

/// The lowercase hex digit for a value below 16.
pub open spec fn hex_digit(v: u8) -> char {
    if v < 10 {
        ((v + 48) as u8) as char
    } else {
        ((v + 87) as u8) as char
    }
}

/// Lowercase hex encoding of a byte sequence, two digits per byte, most
/// significant digit first.
pub open spec fn hex_of(bytes: Seq<u8>) -> Seq<char>
    decreases bytes.len(),
{
    if bytes.len() == 0 {
        Seq::empty()
    } else {
        hex_of(bytes.drop_last()) + seq![
            hex_digit((bytes.last() / 16) as u8),
            hex_digit((bytes.last() % 16) as u8),
        ]
    }
}

/// A hex encoding is twice as long as its input.
pub proof fn lemma_hex_of_len(bytes: Seq<u8>)
    ensures
        hex_of(bytes).len() == 2 * bytes.len(),
    decreases bytes.len(),
{
    if bytes.len() > 0 {
        lemma_hex_of_len(bytes.drop_last());
    }
}

/// Relies on std's `String::push`: appends the character to the string.
#[verifier::external_body]
fn push_char(s: &mut String, c: char)
    ensures
        final(s)@ == old(s)@.push(c),
{
    s.push(c);
}

/// The lowercase hex digit for a value below 16, as a character.
fn hex_digit_char(v: u8) -> (r: char)
    requires
        v < 16,
    ensures
        r == hex_digit(v),
{
    if v < 10 {
        (v + 48) as char
    } else {
        (v + 87) as char
    }
}

/// Lowercase hex encoding of the given bytes.
pub fn to_hex(bytes: &Vec<u8>) -> (r: String)
    ensures
        r@ == hex_of(bytes@),
{
    let mut r = String::new();
    let mut k: usize = 0;
    while k < bytes.len()
        invariant
            k <= bytes@.len(),
            r@ =~= hex_of(bytes@.take(k as int)),
        decreases bytes@.len() - k,
    {
        let b = bytes[k];
        push_char(&mut r, hex_digit_char(b / 16));
        push_char(&mut r, hex_digit_char(b % 16));
        proof {
            let t = bytes@.take(k + 1);
            assert(t.drop_last() =~= bytes@.take(k as int));
            assert(t.last() == bytes@[k as int]);
        }
        k = k + 1;
    }
    assert(bytes@.take(bytes@.len() as int) =~= bytes@);
    r
}

} // verus!
