//! Secret keys of the BFV encryption scheme: small polynomial coefficients.
use vstd::prelude::*;
use vstd::bytes::{
    lemma_auto_spec_u64_to_from_le_bytes, spec_u64_from_le_bytes, spec_u64_to_le_bytes,
    u64_from_le_bytes, u64_to_le_bytes,
};
use vstd::slice::slice_subrange;

verus! {

/// Why a byte string is no secret key.
#[derive(Debug, PartialEq, Eq, Structural)]
pub enum SecretKeyError {
    /// Too few bytes for the length or for the coefficients it announces.
    InvalidLength,
    /// The announced number of coefficients overflows the byte count.
    LengthOverflow,
    /// The variance lies outside 1 to 16.
    InvalidVariance,
}

/// A coefficient as the u64 with the same two's-complement bits.
pub open spec fn coeff_bits(c: i64) -> u64 {
    if c >= 0 {
        c as u64
    } else {
        (c as int + 0x1_0000_0000_0000_0000) as u64
    }
}

/// The coefficient whose two's-complement bits a u64 holds.
pub open spec fn coeff_of_bits(b: u64) -> i64 {
    if b < 0x8000_0000_0000_0000 {
        b as i64
    } else {
        (b as int - 0x1_0000_0000_0000_0000) as i64
    }
}

/// The coefficients, each as eight little-endian bytes.
pub open spec fn coeff_bytes(cs: Seq<i64>) -> Seq<u8>
    decreases cs.len(),
{
    if cs.len() == 0 {
        Seq::empty()
    } else {
        coeff_bytes(cs.drop_last()) + spec_u64_to_le_bytes(coeff_bits(cs.last()))
    }
}

/// The serialized key: the number of coefficients as a little-endian u64, then the coefficients.
pub open spec fn key_bytes(cs: Seq<i64>) -> Seq<u8> {
    spec_u64_to_le_bytes(cs.len() as u64) + coeff_bytes(cs)
}

/// The coefficients a byte string holds, where it holds a key; bytes after them are ignored.
pub open spec fn parse_key(b: Seq<u8>) -> Result<Seq<i64>, SecretKeyError> {
    if b.len() < 8 {
        Err(SecretKeyError::InvalidLength)
    } else {
        let n = spec_u64_from_le_bytes(b.subrange(0, 8));
        if n > u64::MAX / 8 {
            Err(SecretKeyError::LengthOverflow)
        } else if b.len() - 8 < 8 * n {
            Err(SecretKeyError::InvalidLength)
        } else {
            Ok(Seq::new(n as nat, |i: int| coeff_of_bits(spec_u64_from_le_bytes(b.subrange(8 + 8 * i, 16 + 8 * i)))))
        }
    }
}

/// Secret key for the BFV encryption scheme.
pub struct SecretKey {
    pub coeffs: Vec<i64>,
}

/// The result `fhe_util::sample_vec_cbd` gives for a size and a variance.
pub open spec fn cbd_sample_ok(v: Seq<i64>, size: usize, variance: usize) -> bool {
    v.len() == size && forall|i: int| 0 <= i < v.len() ==> -2 * variance <= #[trigger] v[i] <= 2 * variance
}

/// Relies on `fhe_util::sample_vec_cbd` with the thread-local generator: an error unless the
/// variance is 1 to 16, else `size` samples of a centered binomial distribution, each the
/// difference of two counts of `2 * variance` random bits.
#[verifier::external_body]
fn sample_cbd(size: usize, variance: usize) -> (r: Option<Vec<i64>>)
    requires
        size as int * 8 <= isize::MAX as int,
    ensures
        r is Some <==> 1 <= variance <= 16,
        r matches Some(v) ==> cbd_sample_ok(v@, size, variance),
{
    fhe_util::sample_vec_cbd(size, variance, &mut rand::rng()).ok()
}

fn bits_of(c: i64) -> (r: u64)
    ensures
        r == coeff_bits(c),
{
    if c >= 0 {
        c as u64
    } else {
        ((c + i64::MAX + 1) as u64) + 0x8000_0000_0000_0000u64
    }
}

fn from_bits(b: u64) -> (r: i64)
    ensures
        r == coeff_of_bits(b),
{
    if b < 0x8000_0000_0000_0000u64 {
        b as i64
    } else {
        ((b - 0x8000_0000_0000_0000u64) as i64) - i64::MAX - 1
    }
}

impl SecretKey {
    /// A key with the given coefficients.
    pub fn new(coeffs: Vec<i64>) -> (r: SecretKey)
        ensures
            r.coeffs@ == coeffs@,
    {
        SecretKey { coeffs }
    }

    /// A random key of `degree` coefficients drawn from the centered binomial distribution of the
    /// given variance, so each at most `2 * variance` in size.
    pub fn random(degree: usize, variance: usize) -> (r: Result<SecretKey, SecretKeyError>)
        requires
            degree as int * 8 <= isize::MAX as int,
        ensures
            r is Ok <==> 1 <= variance <= 16,
            r matches Ok(k) ==> cbd_sample_ok(k.coeffs@, degree, variance),
            r matches Err(e) ==> e == SecretKeyError::InvalidVariance,
    {
        match sample_cbd(degree, variance) {
            Some(coeffs) => Ok(SecretKey::new(coeffs)),
            None => Err(SecretKeyError::InvalidVariance),
        }
    }

    /// The serialized key.
    pub fn to_bytes(&self) -> (r: Vec<u8>)
        ensures
            r@ == key_bytes(self.coeffs@),
    {
        let mut bytes = u64_to_le_bytes(self.coeffs.len() as u64);
        let ghost head = bytes@;
        let mut i: usize = 0;
        while i < self.coeffs.len()
            invariant
                i <= self.coeffs@.len(),
                bytes@ == head + coeff_bytes(self.coeffs@.subrange(0, i as int)),
            decreases self.coeffs@.len() - i,
        {
            let mut b = u64_to_le_bytes(bits_of(self.coeffs[i]));
            bytes.append(&mut b);
            proof {
                let s = self.coeffs@.subrange(0, i + 1);
                assert(s.drop_last() =~= self.coeffs@.subrange(0, i as int));
                assert(bytes@ =~= head + coeff_bytes(s));
            }
            i += 1;
        }
        assert(self.coeffs@.subrange(0, i as int) =~= self.coeffs@);
        bytes
    }

    /// Reads a serialized key.
    pub fn from_bytes(bytes: &[u8]) -> (r: Result<SecretKey, SecretKeyError>)
        ensures
            r matches Ok(k) ==> parse_key(bytes@) == Ok::<Seq<i64>, SecretKeyError>(k.coeffs@),
            r matches Err(e) ==> parse_key(bytes@) == Err::<Seq<i64>, SecretKeyError>(e),
    {
        if bytes.len() < 8 {
            return Err(SecretKeyError::InvalidLength);
        }
        let n = u64_from_le_bytes(slice_subrange(bytes, 0, 8));
        if n > u64::MAX / 8 {
            return Err(SecretKeyError::LengthOverflow);
        }
        if ((bytes.len() - 8) as u64) < n * 8 {
            return Err(SecretKeyError::InvalidLength);
        }
        let count = n as usize;
        let ghost expect = Seq::new(
            n as nat,
            |i: int| coeff_of_bits(spec_u64_from_le_bytes(bytes@.subrange(8 + 8 * i, 16 + 8 * i))),
        );
        let mut coeffs: Vec<i64> = Vec::new();
        let mut i: usize = 0;
        while i < count
            invariant
                count == n,
                8 + 8 * (n as int) <= bytes@.len(),
                bytes@.len() == bytes.len(),
                i <= count,
                coeffs@ == expect.subrange(0, i as int),
                expect.len() == n,
                forall|j: int| 0 <= j < n ==> #[trigger] expect[j] == coeff_of_bits(spec_u64_from_le_bytes(bytes@.subrange(8 + 8 * j, 16 + 8 * j))),
            decreases count - i,
        {
            let start = 8 + 8 * i;
            let b = u64_from_le_bytes(slice_subrange(bytes, start, start + 8));
            coeffs.push(from_bits(b));
            assert(coeffs@ =~= expect.subrange(0, i + 1));
            i += 1;
        }
        assert(expect.subrange(0, i as int) =~= expect);
        Ok(SecretKey { coeffs })
    }
}

proof fn lemma_coeff_bytes_len(cs: Seq<i64>)
    ensures
        coeff_bytes(cs).len() == 8 * cs.len(),
    decreases cs.len(),
{
    lemma_auto_spec_u64_to_from_le_bytes();
    if cs.len() > 0 {
        lemma_coeff_bytes_len(cs.drop_last());
    }
}

proof fn lemma_coeff_bytes_index(cs: Seq<i64>, i: int)
    requires
        0 <= i < cs.len(),
    ensures
        coeff_bytes(cs).subrange(8 * i, 8 * i + 8) == spec_u64_to_le_bytes(coeff_bits(cs[i])),
    decreases cs.len(),
{
    lemma_auto_spec_u64_to_from_le_bytes();
    lemma_coeff_bytes_len(cs.drop_last());
    if i == cs.len() - 1 {
        assert(coeff_bytes(cs).subrange(8 * i, 8 * i + 8) =~= spec_u64_to_le_bytes(coeff_bits(cs[i])));
    } else {
        lemma_coeff_bytes_index(cs.drop_last(), i);
        assert(coeff_bytes(cs).subrange(8 * i, 8 * i + 8) =~= coeff_bytes(cs.drop_last()).subrange(8 * i, 8 * i + 8));
    }
}

/// Reading a serialized key gives back its coefficients.
pub proof fn lemma_key_round_trip(cs: Seq<i64>)
    requires
        8 * cs.len() <= u64::MAX,
    ensures
        parse_key(key_bytes(cs)) == Ok::<Seq<i64>, SecretKeyError>(cs),
{
    lemma_auto_spec_u64_to_from_le_bytes();
    lemma_coeff_bytes_len(cs);
    let b = key_bytes(cs);
    assert(b.subrange(0, 8) =~= spec_u64_to_le_bytes(cs.len() as u64));
    let n = spec_u64_from_le_bytes(b.subrange(0, 8));
    assert(n == cs.len());
    let parsed = Seq::new(n as nat, |i: int| coeff_of_bits(spec_u64_from_le_bytes(b.subrange(8 + 8 * i, 16 + 8 * i))));
    assert forall|i: int| 0 <= i < cs.len() implies #[trigger] parsed[i] == cs[i] by {
        lemma_coeff_bytes_index(cs, i);
        assert(b.subrange(8 + 8 * i, 16 + 8 * i) =~= coeff_bytes(cs).subrange(8 * i, 8 * i + 8));
    }
    assert(parsed =~= cs);
}

} // verus!
