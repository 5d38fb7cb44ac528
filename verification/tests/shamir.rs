use paperback_core::shamir::gf256::{invert, multiply, xtime};
use paperback_core::shamir::{combine, extend, Dealer, ShamirError, Shard};

#[test]
fn field_products() {
    assert_eq!(xtime(0x57), 0xae);
    assert_eq!(xtime(0xae), 0x47);
    assert_eq!(multiply(0x57, 0x83), 0xc1);
    assert_eq!(multiply(0x57, 0x13), 0xfe);
    assert_eq!(multiply(0, 0x13), 0);
    assert_eq!(multiply(1, 0x13), 0x13);
    assert_eq!(invert(0x53), 0xca);
    assert_eq!(invert(0), 0);
    for a in 1..=255u8 {
        assert_eq!(multiply(a, invert(a)), 1);
    }
}

#[test]
fn field_laws_on_samples() {
    for a in [0u8, 1, 2, 0x53, 0xca, 0xff] {
        for b in [0u8, 1, 3, 0x80, 0xfe] {
            assert_eq!(multiply(a, b), multiply(b, a));
            for c in [0u8, 1, 7, 0x1b, 0xaa] {
                assert_eq!(multiply(multiply(a, b), c), multiply(a, multiply(b, c)));
                assert_eq!(multiply(a, b ^ c), multiply(a, b) ^ multiply(a, c));
            }
        }
    }
}

#[test]
fn shares_of_a_known_polynomial() {
    // For each byte s the polynomial s + c x, with c from the coefficients.
    let mut dealer = Dealer::with_coefficients(2, &[0x10, 0x20], &[0x01, 0x02]).unwrap();
    assert_eq!(dealer.next_shard(), Ok(Shard { x: 1, ys: vec![0x11, 0x22] }));
    assert_eq!(dealer.next_shard(), Ok(Shard { x: 2, ys: vec![0x12, 0x24] }));
    assert_eq!(dealer.shard_at(3), Ok(Shard { x: 3, ys: vec![0x13, 0x26] }));
    assert_eq!(dealer.shard_at(0), Err(ShamirError::InvalidShard));
}

#[test]
fn any_quorum_combines_to_the_secret() {
    let secret = b"correct horse battery staple".to_vec();
    let mut dealer = Dealer::new(3, &secret).unwrap();
    let shards: Vec<Shard> = (0..6).map(|_| dealer.next_shard().unwrap()).collect();
    for i in 0..6 {
        for j in (i + 1)..6 {
            for k in (j + 1)..6 {
                let picked = vec![shards[k].clone(), shards[i].clone(), shards[j].clone()];
                assert_eq!(combine(&picked), Ok(secret.clone()));
            }
        }
    }
    assert_eq!(combine(&shards), Ok(secret.clone()));
}

#[test]
fn too_few_shards_combine_to_something_else() {
    let secret = vec![0x42; 64];
    let mut dealer = Dealer::new(3, &secret).unwrap();
    let shards: Vec<Shard> = (0..2).map(|_| dealer.next_shard().unwrap()).collect();
    assert_ne!(combine(&shards), Ok(secret));
}

#[test]
fn threshold_one_hands_out_the_secret() {
    let mut dealer = Dealer::with_coefficients(1, &[1, 2, 3], &[]).unwrap();
    let shard = dealer.next_shard().unwrap();
    assert_eq!(shard, Shard { x: 1, ys: vec![1, 2, 3] });
    assert_eq!(combine(&[shard]), Ok(vec![1, 2, 3]));
}

#[test]
fn dealer_refuses_bad_thresholds() {
    assert_eq!(Dealer::new(0, &[1]).err(), Some(ShamirError::InvalidThreshold));
    assert_eq!(Dealer::new(256, &[1]).err(), Some(ShamirError::InvalidThreshold));
    assert!(Dealer::new(255, &[1]).is_ok());
    assert_eq!(
        Dealer::with_coefficients(0, &[1], &[]).err(),
        Some(ShamirError::InvalidThreshold)
    );
}

#[test]
fn dealer_refuses_wrong_coefficients() {
    assert_eq!(
        Dealer::with_coefficients(3, &[1, 2], &[0; 3]).err(),
        Some(ShamirError::RandomnessLength)
    );
    assert!(Dealer::with_coefficients(3, &[1, 2], &[0; 4]).is_ok());
}

#[test]
fn dealer_is_exhausted_after_255_shards() {
    let mut dealer = Dealer::new(2, &[7]).unwrap();
    for x in 1..=255u8 {
        assert_eq!(dealer.next_shard().unwrap().x, x);
    }
    assert_eq!(dealer.next_shard(), Err(ShamirError::Exhausted));
    assert_eq!(dealer.next_shard(), Err(ShamirError::Exhausted));
}

#[test]
fn combine_refuses_bad_shards() {
    assert_eq!(combine(&[]), Err(ShamirError::NoShards));
    let a = Shard { x: 1, ys: vec![1, 2] };
    let b = Shard { x: 2, ys: vec![3, 4] };
    let zero = Shard { x: 0, ys: vec![3, 4] };
    let short = Shard { x: 3, ys: vec![3] };
    let twin = Shard { x: 1, ys: vec![9, 9] };
    assert_eq!(combine(&[a.clone(), zero.clone()]), Err(ShamirError::InvalidShard));
    assert_eq!(combine(&[a.clone(), short.clone()]), Err(ShamirError::LengthMismatch));
    assert_eq!(combine(&[a.clone(), b.clone(), twin.clone()]), Err(ShamirError::DuplicateShard));
    // The first rule that fails gives the error.
    assert_eq!(combine(&[short.clone(), zero.clone(), twin]), Err(ShamirError::InvalidShard));
    assert_eq!(combine(&[a.clone(), a.clone(), short]), Err(ShamirError::LengthMismatch));
    assert!(combine(&[a, b]).is_ok());
}

#[test]
fn combine_interpolates_at_zero() {
    // The line through (1, 0x11) and (2, 0x12) is 0x10 + x.
    let a = Shard { x: 1, ys: vec![0x11] };
    let b = Shard { x: 2, ys: vec![0x12] };
    assert_eq!(combine(&[a, b]), Ok(vec![0x10]));
}

#[test]
fn shards_extend_to_the_shards_of_the_dealer() {
    let secret = b"the quick brown fox".to_vec();
    let mut dealer = Dealer::new(3, &secret).unwrap();
    let shards: Vec<Shard> = (0..3).map(|_| dealer.next_shard().unwrap()).collect();
    for x in [4u8, 5, 100, 255] {
        assert_eq!(extend(&shards, x), dealer.shard_at(x));
    }
    // The line through (1, 0x11) and (2, 0x12) is 0x10 + x.
    let a = Shard { x: 1, ys: vec![0x11] };
    let b = Shard { x: 2, ys: vec![0x12] };
    assert_eq!(extend(&[a, b], 3), Ok(Shard { x: 3, ys: vec![0x13] }));
}

#[test]
fn extend_refuses_bad_points_and_shards() {
    let a = Shard { x: 1, ys: vec![0x11] };
    let b = Shard { x: 2, ys: vec![0x12] };
    let short = Shard { x: 3, ys: vec![] };
    assert_eq!(extend(&[a.clone(), b.clone()], 0), Err(ShamirError::InvalidShard));
    assert_eq!(extend(&[a.clone(), b.clone()], 2), Err(ShamirError::DuplicateShard));
    assert_eq!(extend(&[], 2), Err(ShamirError::NoShards));
    assert_eq!(extend(&[a.clone(), short], 7), Err(ShamirError::LengthMismatch));
    assert_eq!(extend(&[a.clone(), a], 7), Err(ShamirError::DuplicateShard));
    assert!(extend(&[b], 7).is_ok());
}
