use ockam_relay::nonce::{Nonce, NonceError};

#[test]
fn increment_counts_up_from_zero() {
    let mut nonce = Nonce::new(0);
    for k in 1..=1000u64 {
        assert_eq!(nonce.increment(), Ok(()));
        assert_eq!(nonce.value(), k);
    }
}

#[test]
fn increment_at_the_largest_value_overflows_and_keeps_the_value() {
    let mut nonce = Nonce::new(u64::MAX - 1);
    assert_eq!(nonce.increment(), Ok(()));
    assert_eq!(nonce.value(), u64::MAX);
    assert_eq!(nonce.increment(), Err(NonceError::Overflow));
    assert_eq!(nonce.value(), u64::MAX);
    assert_eq!(nonce, Nonce::largest());
}

#[test]
fn wire_form_is_big_endian() {
    assert_eq!(Nonce::new(0).to_noise_nonce(), [0u8; 8]);
    assert_eq!(Nonce::new(1).to_noise_nonce(), [0, 0, 0, 0, 0, 0, 0, 1]);
    assert_eq!(
        Nonce::new(0x0102_0304_0506_0708).to_noise_nonce(),
        [1, 2, 3, 4, 5, 6, 7, 8]
    );
    assert_eq!(Nonce::largest().to_noise_nonce(), [0xff; 8]);
    assert_eq!(Nonce::new(258).to_noise_nonce(), 258u64.to_be_bytes());
}

#[test]
fn aead_form_is_the_wire_form_after_four_zero_bytes() {
    for value in [0u64, 1, 255, 256, 0x0102_0304_0506_0708, u64::MAX] {
        let nonce = Nonce::new(value);
        let aead = nonce.to_aes_gcm_nonce();
        assert_eq!(&aead[..4], &[0u8; 4]);
        assert_eq!(&aead[4..], &nonce.to_noise_nonce());
    }
    assert_eq!(
        Nonce::new(0x0102_0304_0506_0708).to_aes_gcm_nonce(),
        [0, 0, 0, 0, 1, 2, 3, 4, 5, 6, 7, 8]
    );
}

#[test]
fn wire_form_round_trips() {
    for value in [0u64, 1, 255, 256, 65_535, 0x0102_0304_0506_0708, u64::MAX - 1, u64::MAX] {
        let nonce = Nonce::new(value);
        assert_eq!(Nonce::from(nonce.to_noise_nonce()), nonce);
        let wire = nonce.to_noise_nonce();
        assert_eq!(Nonce::try_from(&wire[..]), Ok(nonce));
    }
}

#[test]
fn a_slice_of_another_length_is_no_nonce() {
    assert_eq!(Nonce::try_from(&[][..]), Err(NonceError::InvalidNonce));
    assert_eq!(Nonce::try_from(&[0u8; 7][..]), Err(NonceError::InvalidNonce));
    assert_eq!(Nonce::try_from(&[0u8; 9][..]), Err(NonceError::InvalidNonce));
    assert_eq!(Nonce::try_from(&[0u8; 12][..]), Err(NonceError::InvalidNonce));
    assert_eq!(
        Nonce::try_from(&[0u8, 0, 0, 0, 0, 0, 1, 0][..]),
        Ok(Nonce::new(256))
    );
}

#[test]
fn integers_convert_both_ways() {
    let nonce = Nonce::from(42u64);
    assert_eq!(nonce.value(), 42);
    let back: u64 = nonce.into();
    assert_eq!(back, 42);
}

#[test]
fn nonces_are_ordered_by_their_counters() {
    assert!(Nonce::new(1) < Nonce::new(2));
    assert!(Nonce::new(u64::MAX - 1) < Nonce::largest());
    assert!(Nonce::new(7) >= Nonce::new(7));
    assert_eq!(Nonce::new(3).max(Nonce::new(9)), Nonce::new(9));
}
