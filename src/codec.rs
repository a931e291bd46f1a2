//! Byte-level helpers shared by the runtime: hashing, hex, SCALE pieces, randomness and wiping
//! through outside crates, and little-endian numbers, comparison and copying of byte strings.
use vstd::prelude::*;

verus! {

/// The 32-byte blake2b digest of a byte string.
pub uninterp spec fn blake2_256_of(data: Seq<u8>) -> Seq<u8>;

/// The SCALE encoding of a list of key/value pairs.
pub uninterp spec fn scale_pairs_of(pairs: Seq<(Seq<u8>, Seq<u8>)>) -> Seq<u8>;

/// The SCALE encoding of a byte vector (compact length prefix, then the bytes).
pub uninterp spec fn scale_bytes_of(bytes: Seq<u8>) -> Seq<u8>;

/// What SCALE decodes from the front of `bytes` as a list of (sender, destination, payload).
pub uninterp spec fn scale_messages_of(bytes: Seq<u8>) -> Option<Seq<(Seq<u8>, Seq<u8>, Seq<u8>)>>;

/// Relies on sp_core's `Blake2Hasher::hash`: blake2b-256 of the input, a digest of 32 bytes
/// that depends on the input alone.
#[verifier::external_body]
pub fn blake2_256(data: &[u8]) -> (r: Vec<u8>)
    ensures
        r@ == blake2_256_of(data@),
        r@.len() == 32,
{
    <sp_core::Blake2Hasher as sp_core::Hasher>::hash(data).0.to_vec()
}

/// Relies on parity_scale_codec's `Encode` for `Vec<(Vec<u8>, Vec<u8>)>`.
#[verifier::external_body]
pub fn encode_pairs(pairs: &Vec<(Vec<u8>, Vec<u8>)>) -> (r: Vec<u8>)
    ensures
        r@ == scale_pairs_of(pairs.deep_view()),
{
    parity_scale_codec::Encode::encode(pairs)
}

/// Relies on parity_scale_codec's `Encode` for `Vec<u8>`.
#[verifier::external_body]
pub fn encode_bytes(bytes: &Vec<u8>) -> (r: Vec<u8>)
    ensures
        r@ == scale_bytes_of(bytes@),
{
    parity_scale_codec::Encode::encode(bytes)
}

/// Relies on parity_scale_codec's `Decode` for `Vec<(Vec<u8>, Vec<u8>, Vec<u8>)>`;
/// a decoding error becomes `None`.
#[verifier::external_body]
pub fn decode_messages(bytes: &[u8]) -> (r: Option<Vec<(Vec<u8>, Vec<u8>, Vec<u8>)>>)
    ensures
        r.deep_view() == scale_messages_of(bytes@),
{
    let mut input = bytes;
    <Vec<(Vec<u8>, Vec<u8>, Vec<u8>)> as parity_scale_codec::Decode>::decode(&mut input).ok()
}

pub open spec fn hex_digit(n: u8) -> char {
    seq!['0', '1', '2', '3', '4', '5', '6', '7', '8', '9', 'a', 'b', 'c', 'd', 'e', 'f'][n as int]
}

/// Lower-case hex text of a byte string, two digits per byte, high nibble first.
pub open spec fn hex_of(b: Seq<u8>) -> Seq<char> {
    Seq::new(
        2 * b.len(),
        |i: int|
            if i % 2 == 0 {
                hex_digit(b[i / 2] / 16)
            } else {
                hex_digit(b[i / 2] % 16)
            },
    )
}

/// Relies on `hex::encode`: two lower-case digits per byte, high nibble first.
#[verifier::external_body]
pub fn to_hex(b: &[u8]) -> (r: String)
    ensures
        r@ == hex_of(b@),
{
    hex::encode(b)
}

/// Relies on `rand::random` for 32 bytes from the thread-local generator.
#[verifier::external_body]
pub fn random_32() -> (r: Vec<u8>)
    ensures
        r@.len() == 32,
{
    rand::random::<[u8; 32]>().to_vec()
}

/// Relies on zeroize's `Zeroize` for `Vec<u8>`: the bytes and spare capacity are overwritten
/// with zeros, then the vector is cleared.
#[verifier::external_body]
pub fn wipe(v: &mut Vec<u8>)
    ensures
        final(v)@.len() == 0,
{
    zeroize::Zeroize::zeroize(v)
}

/// Byte-wise equality of two byte strings.
pub fn bytes_eq(a: &[u8], b: &[u8]) -> (r: bool)
    ensures
        r == (a@ == b@),
{
    if a.len() != b.len() {
        return false;
    }
    let mut i: usize = 0;
    while i < a.len()
        invariant
            a@.len() == b@.len(),
            i <= a@.len(),
            forall|j: int| 0 <= j < i ==> a@[j] == b@[j],
        decreases a@.len() - i,
    {
        if a[i] != b[i] {
            return false;
        }
        i += 1;
    }
    assert(a@ =~= b@);
    true
}

/// A byte vector's deep view is its view.
pub broadcast proof fn lemma_bytes_deep_view(v: Vec<u8>)
    ensures
        #[trigger] v.deep_view() == v@,
{
    assert(v.deep_view() =~= v@);
}

/// A fresh copy of a byte string.
pub fn copy_bytes(v: &[u8]) -> (r: Vec<u8>)
    ensures
        r@ == v@,
{
    let mut r: Vec<u8> = Vec::new();
    let mut i: usize = 0;
    while i < v.len()
        invariant
            i <= v@.len(),
            r@ == v@.subrange(0, i as int),
        decreases v@.len() - i,
    {
        r.push(v[i]);
        i += 1;
        assert(r@ =~= v@.subrange(0, i as int));
    }
    assert(v@.subrange(0, v@.len() as int) =~= v@);
    r
}

/// `n` as little-endian bytes, `len` of them.
pub open spec fn le_bytes(n: nat, len: nat) -> Seq<u8>
    decreases len,
{
    if len == 0 {
        Seq::empty()
    } else {
        seq![(n % 256) as u8] + le_bytes(n / 256, (len - 1) as nat)
    }
}

/// `x` as four little-endian bytes.
pub fn u32_le(x: u32) -> (r: Vec<u8>)
    ensures
        r@ == le_bytes(x as nat, 4),
{
    let b0 = (x % 256) as u8;
    let x1 = x / 256;
    let b1 = (x1 % 256) as u8;
    let x2 = x1 / 256;
    let b2 = (x2 % 256) as u8;
    let x3 = x2 / 256;
    let b3 = (x3 % 256) as u8;
    let r = vec![b0, b1, b2, b3];
    proof {
        reveal_with_fuel(le_bytes, 5);
        assert(r@ =~= le_bytes(x as nat, 4));
    }
    r
}

/// `x` as eight little-endian bytes.
pub fn u64_le(x: u64) -> (r: Vec<u8>)
    ensures
        r@ == le_bytes(x as nat, 8),
{
    let mut r: Vec<u8> = Vec::new();
    let mut rest: u64 = x;
    let mut i: usize = 0;
    while i < 8
        invariant
            i <= 8,
            r@.len() == i,
            r@ + le_bytes(rest as nat, (8 - i) as nat) == le_bytes(x as nat, 8),
        decreases 8 - i,
    {
        let ghost before = r@;
        let ghost rest0 = rest;
        r.push((rest % 256) as u8);
        rest = rest / 256;
        i += 1;
        assert(le_bytes(rest0 as nat, (8 - (i - 1)) as nat) == seq![(rest0 % 256) as u8] + le_bytes(
            rest as nat,
            (8 - i) as nat,
        ));
        assert(r@ + le_bytes(rest as nat, (8 - i) as nat) =~= before + le_bytes(rest0 as nat, (8 - (i - 1)) as nat));
    }
    assert(le_bytes(rest as nat, 0) =~= Seq::<u8>::empty());
    assert(r@ =~= r@ + le_bytes(rest as nat, 0));
    r
}

/// The number whose little-endian bytes are `b`.
pub open spec fn le_value(b: Seq<u8>) -> nat
    decreases b.len(),
{
    if b.len() == 0 {
        0
    } else {
        b[0] as nat + 256 * le_value(b.drop_first())
    }
}

} // verus!
