use pflix::secret_key::{SecretKey, SecretKeyError};

#[test]
fn keygen() {
    // one modulus, degree 16, variance 10
    let sk = SecretKey::random(16, 10).unwrap();
    assert_eq!(sk.coeffs.len(), 16);
    sk.coeffs.iter().for_each(|ci| {
        // Check that this is a small polynomial
        assert!((*ci).abs() <= 2 * 10)
    })
}

#[test]
fn keygen_refuses_bad_variance() {
    assert_eq!(SecretKey::random(16, 0).err(), Some(SecretKeyError::InvalidVariance));
    assert_eq!(SecretKey::random(16, 17).err(), Some(SecretKeyError::InvalidVariance));
    assert_eq!(SecretKey::random(0, 16).unwrap().coeffs.len(), 0);
}

#[test]
fn key_bytes_round_trip() {
    let sk = SecretKey::new(vec![0, 1, -1, 20, -20, i64::MAX, i64::MIN]);
    let bytes = sk.to_bytes();
    assert_eq!(bytes.len(), 8 + 7 * 8);
    assert_eq!(&bytes[0..8], &7u64.to_le_bytes());
    assert_eq!(&bytes[24..32], &(-1i64).to_le_bytes());
    let back = SecretKey::from_bytes(&bytes).unwrap();
    assert_eq!(back.coeffs, sk.coeffs);
}

#[test]
fn key_bytes_errors() {
    assert_eq!(SecretKey::from_bytes(&[1, 2, 3]).err(), Some(SecretKeyError::InvalidLength));
    let mut b = 2u64.to_le_bytes().to_vec();
    b.extend_from_slice(&5i64.to_le_bytes());
    assert_eq!(SecretKey::from_bytes(&b).err(), Some(SecretKeyError::InvalidLength));
    b.extend_from_slice(&(-5i64).to_le_bytes());
    b.push(0xff);
    assert_eq!(SecretKey::from_bytes(&b).unwrap().coeffs, vec![5, -5]);
    let huge = u64::MAX.to_le_bytes();
    assert_eq!(SecretKey::from_bytes(&huge).err(), Some(SecretKeyError::LengthOverflow));
}
