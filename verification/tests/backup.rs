use paperback_core::shamir::{Dealer, ShamirError};
use paperback_core::v0::backup::Backup;
use paperback_core::v0::recover::UntrustedQuorum;
use paperback_core::v0::{
    EncryptedKeyShard, Error, KeyShard, KeyShardBuilder, MainDocument, MainDocumentBuilder,
    MainDocumentMeta, ShardSecret,
};

fn roundtrip(quorum_size: u32, secret: &[u8]) {
    // Construct a backup.
    let mut backup = Backup::new(quorum_size, secret).unwrap();
    let main_document = backup.main_document();
    let mut shards = Vec::new();
    for _ in 0..quorum_size {
        shards.push(backup.next_shard().unwrap().encrypt().unwrap());
    }

    // Go through a round-trip through serialisation.
    let main_document = {
        let bytes = main_document.to_wire();
        MainDocument::from_wire(&bytes).unwrap()
    };
    let shards: Vec<_> = shards
        .iter()
        .map(|(shard, codewords)| {
            let bytes = shard.to_wire();
            let shard = EncryptedKeyShard::from_wire(&bytes).unwrap();
            (shard, codewords)
        })
        .collect();

    // Construct a quorum.
    let mut quorum = UntrustedQuorum::new();
    quorum.main_document(main_document);
    for (shard, codewords) in shards {
        let shard = shard.decrypt(codewords).unwrap();
        quorum.push_shard(shard.clone());
    }
    let quorum = quorum.validate().unwrap();

    // Recover the secret.
    let recovered_secret = quorum.recover_document().unwrap();
    assert_eq!(recovered_secret, secret);
}

fn plain_shards(backup: &mut Backup, n: usize) -> Vec<KeyShard> {
    (0..n).map(|_| backup.next_shard().unwrap()).collect()
}

#[test]
fn paperback_roundtrip_smoke() {
    roundtrip(2, b"hello");
    roundtrip(2, b"");
    roundtrip(3, &[0u8; 256]);
    roundtrip(5, &[0xffu8; 1]);
    roundtrip(64, b"a secret of some length that is split among many holders");
}

#[test]
fn hello_from_any_two_of_three() {
    let mut backup = Backup::new(2, b"hello").unwrap();
    let main_document = backup.main_document();
    let encrypted: Vec<_> =
        (0..3).map(|_| backup.next_shard().unwrap().encrypt().unwrap()).collect();
    for (i, j) in [(0usize, 1usize), (0, 2), (1, 2), (2, 0)] {
        let mut quorum = UntrustedQuorum::new();
        quorum.main_document(main_document.clone());
        for k in [i, j] {
            let (shard, codewords) = &encrypted[k];
            quorum.push_shard(shard.clone().decrypt(codewords).unwrap());
        }
        let quorum = quorum.validate().unwrap();
        assert_eq!(quorum.recover_document(), Ok(b"hello".to_vec()));
    }
}

#[test]
fn two_of_three_needed_are_not_enough() {
    let mut backup = Backup::new(3, &[0u8; 256]).unwrap();
    let shards = plain_shards(&mut backup, 5);
    let mut quorum = UntrustedQuorum::new();
    quorum.main_document(backup.main_document());
    quorum.push_shard(shards[0].clone());
    quorum.push_shard(shards[4].clone());
    assert_eq!(quorum.num_untrusted_shards(), 2);
    assert_eq!(quorum.validate().err(), Some(Error::InsufficientQuorum));
}

#[test]
fn one_shard_less_than_the_quorum_fails() {
    for k in 2..6u32 {
        let mut backup = Backup::new(k, b"secret").unwrap();
        let shards = plain_shards(&mut backup, k as usize);
        let mut quorum = UntrustedQuorum::new();
        quorum.main_document(backup.main_document());
        for shard in shards.iter().skip(1) {
            quorum.push_shard(shard.clone());
        }
        assert_eq!(quorum.validate().err(), Some(Error::InsufficientQuorum));
    }
}

#[test]
fn shards_of_two_backups_do_not_mix() {
    let mut a = Backup::new(2, b"first").unwrap();
    let mut b = Backup::new(2, b"second").unwrap();
    let a1 = a.next_shard().unwrap();
    let _b0 = b.next_shard().unwrap();
    let b1 = b.next_shard().unwrap();
    let mut quorum = UntrustedQuorum::new();
    quorum.main_document(a.main_document());
    quorum.push_shard(a1);
    quorum.push_shard(b1);
    assert_eq!(quorum.validate().err(), Some(Error::GroupingMismatch));
}

#[test]
fn shard_for_another_document_of_the_same_signer_does_not_mix() {
    let key = [1u8; 32];
    let mut a =
        Backup::with_randomness(2, b"first", &[2; 32], &[3; 12], &key, &[4; 69]).unwrap();
    let mut b =
        Backup::with_randomness(2, b"second", &[2; 32], &[3; 12], &key, &[4; 69]).unwrap();
    let a1 = a.next_shard().unwrap();
    let b1 = b.next_shard().unwrap();
    let b2 = b.next_shard().unwrap();
    assert_eq!(a1.identity.id_public_key, b2.identity.id_public_key);
    assert_eq!(a1.inner.shard, b1.inner.shard);
    let mut quorum = UntrustedQuorum::new();
    quorum.main_document(a.main_document());
    quorum.push_shard(a1);
    quorum.push_shard(b2);
    assert_eq!(quorum.validate().err(), Some(Error::GroupingMismatch));
}

#[test]
fn validation_without_a_document() {
    let mut backup = Backup::new(2, b"x").unwrap();
    let mut quorum = UntrustedQuorum::new();
    assert_eq!(quorum.num_untrusted_shards(), 0);
    quorum.push_shard(backup.next_shard().unwrap());
    quorum.push_shard(backup.next_shard().unwrap());
    assert_eq!(quorum.validate().err(), Some(Error::MissingMainDocument));
    assert_eq!(UntrustedQuorum::new().validate().err(), Some(Error::MissingMainDocument));
}

#[test]
fn validation_notices_bad_signatures() {
    let mut backup = Backup::new(2, b"x").unwrap();
    let shards = plain_shards(&mut backup, 2);
    let mut doc = backup.main_document();
    doc.inner.meta.quorum_size = 1;
    let mut quorum = UntrustedQuorum::new();
    quorum.main_document(doc);
    quorum.push_shard(shards[0].clone());
    assert_eq!(quorum.validate().err(), Some(Error::InvariantViolation));

    let mut bad = shards[1].clone();
    bad.inner.shard.ys[0] ^= 1;
    let mut quorum = UntrustedQuorum::new();
    quorum.main_document(backup.main_document());
    quorum.push_shard(shards[0].clone());
    quorum.push_shard(bad);
    assert_eq!(quorum.validate().err(), Some(Error::InvariantViolation));
}

#[test]
fn validation_notices_a_shard_twice() {
    let mut backup = Backup::new(2, b"x").unwrap();
    let shards = plain_shards(&mut backup, 2);
    let mut quorum = UntrustedQuorum::new();
    quorum.main_document(backup.main_document());
    quorum.push_shard(shards[0].clone());
    quorum.push_shard(shards[1].clone());
    quorum.push_shard(shards[0].clone());
    assert_eq!(quorum.validate().err(), Some(Error::Shamir(ShamirError::DuplicateShard)));
}

#[test]
fn the_first_failing_rule_gives_the_error() {
    let mut a = Backup::new(3, b"first").unwrap();
    let mut b = Backup::new(3, b"second").unwrap();
    let a1 = a.next_shard().unwrap();
    let b1 = b.next_shard().unwrap();
    // A foreign shard, twice, and too few shards: grouping comes first.
    let mut quorum = UntrustedQuorum::new();
    quorum.main_document(a.main_document());
    quorum.push_shard(b1.clone());
    quorum.push_shard(b1);
    assert_eq!(quorum.validate().err(), Some(Error::GroupingMismatch));
    // A shard twice and too few shards: the duplicate comes first.
    let mut quorum = UntrustedQuorum::new();
    quorum.main_document(a.main_document());
    quorum.push_shard(a1.clone());
    quorum.push_shard(a1);
    assert_eq!(quorum.validate().err(), Some(Error::Shamir(ShamirError::DuplicateShard)));
}

#[test]
fn more_shards_than_the_quorum_still_recover() {
    let mut backup = Backup::new(2, b"plenty").unwrap();
    let shards = plain_shards(&mut backup, 7);
    let mut quorum = UntrustedQuorum::new();
    quorum.main_document(backup.main_document());
    for shard in shards.into_iter().rev() {
        quorum.push_shard(shard);
    }
    assert_eq!(quorum.validate().unwrap().recover_document(), Ok(b"plenty".to_vec()));
}

#[test]
fn setting_the_document_again_replaces_it() {
    let mut a = Backup::new(2, b"first").unwrap();
    let mut b = Backup::new(2, b"second").unwrap();
    let mut quorum = UntrustedQuorum::new();
    quorum.main_document(a.main_document());
    quorum.push_shard(b.next_shard().unwrap());
    quorum.push_shard(b.next_shard().unwrap());
    quorum.main_document(b.main_document());
    assert_eq!(quorum.validate().unwrap().recover_document(), Ok(b"second".to_vec()));
    let _ = a.next_shard();
}

#[test]
fn flipped_document_ciphertext_is_noticed() {
    let mut backup = Backup::new(2, b"precious").unwrap();
    let shards = plain_shards(&mut backup, 2);
    let doc = backup.main_document();
    for i in 0..doc.inner.ciphertext.len() {
        let mut tampered = doc.clone();
        tampered.inner.ciphertext[i] ^= 0x10;
        // The signature no longer fits, so validation refuses the document.
        let mut quorum = UntrustedQuorum::new();
        quorum.main_document(tampered);
        quorum.push_shard(shards[0].clone());
        quorum.push_shard(shards[1].clone());
        assert_eq!(quorum.validate().err(), Some(Error::InvariantViolation));
    }
}

#[test]
fn resigned_document_with_flipped_ciphertext_does_not_open() {
    // Whoever holds the private key can sign a changed document; the key
    // of the shards then does not open it.
    let key = [1u8; 32];
    let mut backup =
        Backup::with_randomness(2, b"precious", &[2; 32], &[3; 12], &key, &[4; 69]).unwrap();
    let doc = backup.main_document();
    let mut inner = doc.inner.clone();
    inner.ciphertext[0] ^= 1;
    let forged = inner.sign(&key);
    let mut forged_backup_shards = Vec::new();
    for _ in 0..2 {
        let mut shard = backup.next_shard().unwrap().inner;
        shard.doc_chksum = forged.checksum();
        forged_backup_shards.push(shard.sign(&key));
    }
    let mut quorum = UntrustedQuorum::new();
    quorum.main_document(forged);
    for shard in forged_backup_shards {
        quorum.push_shard(shard);
    }
    assert_eq!(quorum.validate().unwrap().recover_document(), Err(Error::AeadDecryption));
}

#[test]
fn shards_that_hide_no_shard_secret() {
    // Shares of the right document and signer that lie on other polynomials.
    let key = [1u8; 32];
    let mut backup =
        Backup::with_randomness(2, b"precious", &[2; 32], &[3; 12], &key, &[4; 69]).unwrap();
    let mut shards = Vec::new();
    for _ in 0..2 {
        let mut shard = backup.next_shard().unwrap().inner;
        for y in shard.shard.ys.iter_mut() {
            *y = 0;
        }
        shards.push(shard.sign(&key));
    }
    let mut quorum = UntrustedQuorum::new();
    quorum.main_document(backup.main_document());
    for shard in shards {
        quorum.push_shard(shard);
    }
    assert_eq!(quorum.validate().unwrap().recover_document(), Err(Error::ShardSecretDecode));
}

#[test]
fn shards_of_different_lengths_do_not_combine() {
    let key = [1u8; 32];
    let mut backup =
        Backup::with_randomness(2, b"precious", &[2; 32], &[3; 12], &key, &[4; 69]).unwrap();
    let first = backup.next_shard().unwrap();
    let mut second = backup.next_shard().unwrap().inner;
    second.shard.ys.pop();
    let second = second.sign(&key);
    let mut quorum = UntrustedQuorum::new();
    quorum.main_document(backup.main_document());
    quorum.push_shard(first);
    quorum.push_shard(second);
    assert_eq!(
        quorum.validate().unwrap().recover_document(),
        Err(Error::Shamir(ShamirError::LengthMismatch))
    );
}

#[test]
fn backup_refuses_bad_quorum_sizes() {
    for k in [0u32, 1, 256, u32::MAX] {
        assert_eq!(Backup::new(k, b"x").err(), Some(Error::Shamir(ShamirError::InvalidThreshold)));
    }
    assert!(Backup::new(2, b"x").is_ok());
    assert!(Backup::new(255, b"x").is_ok());
    assert_eq!(
        Backup::with_randomness(2, b"x", &[0; 32], &[0; 12], &[0; 32], &[0; 68]).err(),
        Some(Error::Shamir(ShamirError::RandomnessLength))
    );
    assert_eq!(
        Backup::with_randomness(1, b"x", &[0; 32], &[0; 12], &[0; 32], &[]).err(),
        Some(Error::Shamir(ShamirError::InvalidThreshold))
    );
}

#[test]
fn backup_from_given_randomness_is_determined() {
    let make = || {
        Backup::with_randomness(3, b"same", &[2; 32], &[3; 12], &[1; 32], &[4; 138]).unwrap()
    };
    let mut a = make();
    let mut b = make();
    assert_eq!(a.main_document(), b.main_document());
    assert_eq!(a.next_shard(), b.next_shard());
    let doc = a.main_document();
    assert_eq!(doc.inner.meta.version, 0);
    assert_eq!(doc.quorum_size(), 3);
    assert_eq!(doc.inner.nonce, [3; 12]);
    assert_eq!(doc.inner.ciphertext.len(), 4 + 16);
    assert!(doc.verify());
    let shard = a.next_shard().unwrap();
    assert_eq!(shard.inner.version, 0);
    assert_eq!(shard.inner.doc_chksum, doc.checksum());
    assert_eq!(shard.inner.shard.x, 2);
    assert_eq!(shard.inner.shard.ys.len(), 69);
    assert_eq!(shard.identity.id_public_key, doc.identity.id_public_key);
    assert!(shard.verify());
}

#[test]
fn backup_hands_out_255_shards() {
    let mut backup = Backup::new(2, b"x").unwrap();
    for x in 1..=255u8 {
        assert_eq!(backup.next_shard().unwrap().inner.shard.x, x);
    }
    assert_eq!(backup.next_shard().err(), Some(Error::Shamir(ShamirError::Exhausted)));
}

#[test]
fn fresh_backups_differ() {
    let a = Backup::new(2, b"x").unwrap().main_document();
    let b = Backup::new(2, b"x").unwrap().main_document();
    assert_ne!(a.identity.id_public_key, b.identity.id_public_key);
    assert_ne!(a.inner.nonce, b.inner.nonce);
    assert_ne!(a.inner.nonce, [0u8; 12]);
}

#[test]
fn a_quorum_makes_the_shards_of_the_backup_again() {
    let mut backup = Backup::new(3, b"dealt again").unwrap();
    let shards = plain_shards(&mut backup, 6);
    let mut quorum = UntrustedQuorum::new();
    quorum.main_document(backup.main_document());
    for shard in shards.iter().take(4) {
        quorum.push_shard(shard.clone());
    }
    let quorum = quorum.validate().unwrap();
    // The fourth shard is not among the first three, so it is made again too.
    assert_eq!(quorum.new_shard(4), Ok(shards[3].clone()));
    assert_eq!(quorum.new_shard(5), Ok(shards[4].clone()));
    assert_eq!(quorum.new_shard(6), Ok(shards[5].clone()));
    let made = quorum.new_shard(200).unwrap();
    assert!(made.verify());
    // The new shard takes the place of an old one.
    let mut again = UntrustedQuorum::new();
    again.main_document(backup.main_document());
    again.push_shard(made);
    again.push_shard(shards[5].clone());
    again.push_shard(shards[0].clone());
    assert_eq!(again.validate().unwrap().recover_document(), Ok(b"dealt again".to_vec()));
}

#[test]
fn new_shards_are_refused_at_bad_points() {
    let mut backup = Backup::new(2, b"x").unwrap();
    let shards = plain_shards(&mut backup, 2);
    let mut quorum = UntrustedQuorum::new();
    quorum.main_document(backup.main_document());
    quorum.push_shard(shards[0].clone());
    quorum.push_shard(shards[1].clone());
    let quorum = quorum.validate().unwrap();
    assert_eq!(quorum.new_shard(0), Err(Error::Shamir(ShamirError::InvalidShard)));
    assert_eq!(quorum.new_shard(1), Err(Error::Shamir(ShamirError::DuplicateShard)));
    assert_eq!(quorum.new_shard(2), Err(Error::Shamir(ShamirError::DuplicateShard)));
    assert!(quorum.new_shard(3).is_ok());
}

fn backup_without_dealer_key(id_private_key: &[u8; 32]) -> (MainDocument, Vec<KeyShard>) {
    let doc = MainDocumentBuilder {
        meta: MainDocumentMeta { version: 0, quorum_size: 2 },
        nonce: [0; 12],
        ciphertext: vec![0; 16],
    }
    .sign(id_private_key);
    let shard_secret = ShardSecret { doc_key: [9; 32], id_private_key: None };
    let bytes = shard_secret.to_wire();
    let mut dealer = Dealer::with_coefficients(2, &bytes, &vec![7; bytes.len()]).unwrap();
    let shards = (0..2)
        .map(|_| {
            KeyShardBuilder {
                version: 0,
                doc_chksum: doc.checksum(),
                shard: dealer.next_shard().unwrap(),
            }
            .sign(id_private_key)
        })
        .collect();
    (doc, shards)
}

#[test]
fn no_new_shards_without_the_private_key() {
    let (doc, shards) = backup_without_dealer_key(&[1; 32]);
    let mut quorum = UntrustedQuorum::new();
    quorum.main_document(doc);
    for shard in shards {
        quorum.push_shard(shard);
    }
    let quorum = quorum.validate().unwrap();
    assert_eq!(quorum.new_shard(3), Err(Error::MissingCapability));
    // The key is there, and does not open a ciphertext that it did not make.
    assert_eq!(quorum.recover_document(), Err(Error::AeadDecryption));
}

#[test]
fn no_new_shards_with_a_foreign_private_key() {
    // The shards hide another private key than that of the signer.
    let key = [1u8; 32];
    let doc = MainDocumentBuilder {
        meta: MainDocumentMeta { version: 0, quorum_size: 2 },
        nonce: [0; 12],
        ciphertext: vec![0; 16],
    }
    .sign(&key);
    let shard_secret = ShardSecret { doc_key: [9; 32], id_private_key: Some([2; 32]) };
    let bytes = shard_secret.to_wire();
    let mut dealer = Dealer::with_coefficients(2, &bytes, &vec![7; bytes.len()]).unwrap();
    let mut quorum = UntrustedQuorum::new();
    quorum.main_document(doc.clone());
    for _ in 0..2 {
        quorum.push_shard(
            KeyShardBuilder {
                version: 0,
                doc_chksum: doc.checksum(),
                shard: dealer.next_shard().unwrap(),
            }
            .sign(&key),
        );
    }
    assert_eq!(quorum.validate().unwrap().new_shard(3), Err(Error::InvariantViolation));
}

#[test]
fn flipped_byte_in_the_first_shard_of_a_backup() {
    let mut backup = Backup::new(2, &[0xffu8; 1]).unwrap();
    let (encrypted, codewords) = backup.next_shard().unwrap().encrypt().unwrap();
    let mut tampered = encrypted.clone();
    tampered.ciphertext[0] ^= 0x01;
    assert_eq!(tampered.decrypt(&codewords).err(), Some(Error::AeadDecryption));
    assert!(encrypted.decrypt(&codewords).is_ok());
}

#[test]
fn a_shard_off_the_polynomials_makes_the_quorum_inconsistent() {
    // Whoever holds the private key can sign a share that the dealer did
    // not deal. Behind the quorum size it is noticed.
    let key = [1u8; 32];
    let mut backup =
        Backup::with_randomness(2, b"precious", &[2; 32], &[3; 12], &key, &[4; 69]).unwrap();
    let shards = plain_shards(&mut backup, 3);
    let mut forged = shards[2].inner.clone();
    forged.shard.ys[10] ^= 0x40;
    let forged = forged.sign(&key);

    let mut quorum = UntrustedQuorum::new();
    quorum.main_document(backup.main_document());
    quorum.push_shard(shards[0].clone());
    quorum.push_shard(shards[1].clone());
    quorum.push_shard(forged.clone());
    assert_eq!(quorum.validate().unwrap().recover_document(), Err(Error::QuorumInconsistent));

    // Among the first shards it leads to another secret, which the other
    // shards do not agree with.
    let mut quorum = UntrustedQuorum::new();
    quorum.main_document(backup.main_document());
    quorum.push_shard(forged);
    quorum.push_shard(shards[0].clone());
    quorum.push_shard(shards[1].clone());
    assert_eq!(quorum.validate().unwrap().recover_document(), Err(Error::QuorumInconsistent));

    // Without it the shards agree.
    let mut quorum = UntrustedQuorum::new();
    quorum.main_document(backup.main_document());
    for shard in shards {
        quorum.push_shard(shard);
    }
    assert_eq!(quorum.validate().unwrap().recover_document(), Ok(b"precious".to_vec()));
}

#[test]
fn a_shard_at_zero_behind_the_quorum_makes_it_inconsistent() {
    let key = [1u8; 32];
    let mut backup =
        Backup::with_randomness(2, b"precious", &[2; 32], &[3; 12], &key, &[4; 69]).unwrap();
    let shards = plain_shards(&mut backup, 3);
    let mut at_zero = shards[2].inner.clone();
    at_zero.shard.x = 0;
    let mut quorum = UntrustedQuorum::new();
    quorum.main_document(backup.main_document());
    quorum.push_shard(shards[0].clone());
    quorum.push_shard(shards[1].clone());
    quorum.push_shard(at_zero.sign(&key));
    assert_eq!(quorum.validate().unwrap().recover_document(), Err(Error::QuorumInconsistent));
}
