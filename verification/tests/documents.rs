use aead::{Aead, NewAead};
use ed25519_dalek::{PublicKey, SecretKey};
use multihash::{Code, MultihashDigest};
use paperback_core::shamir::{ShamirError, Shard};
use paperback_core::v0::wire::DecodeError;
use paperback_core::v0::{
    bytes_eq, EncryptedKeyShard, Error, KeyShard, KeyShardBuilder, MainDocument,
    MainDocumentBuilder, MainDocumentMeta,
};

fn sample_document() -> MainDocument {
    MainDocumentBuilder {
        meta: MainDocumentMeta { version: 0, quorum_size: 2 },
        nonce: [7u8; 12],
        ciphertext: vec![1, 2, 3, 4, 5],
    }
    .sign(&[42u8; 32])
}

fn sample_key_shard() -> KeyShard {
    KeyShardBuilder {
        version: 0,
        doc_chksum: sample_document().checksum(),
        shard: Shard { x: 9, ys: vec![10, 20, 30] },
    }
    .sign(&[42u8; 32])
}

fn words_of_zero_key() -> [String; 24] {
    let mut words: Vec<String> = vec!["abandon".to_string(); 23];
    words.push("art".to_string());
    words.try_into().unwrap()
}

#[test]
fn bytes_eq_compares_contents() {
    assert!(bytes_eq(&[], &[]));
    assert!(bytes_eq(&[1, 2], &[1, 2]));
    assert!(!bytes_eq(&[1, 2], &[1, 3]));
    assert!(!bytes_eq(&[1, 2], &[1, 2, 3]));
}

#[test]
fn signing_names_the_public_key_of_the_private_key() {
    let secret = SecretKey::from_bytes(&[42u8; 32]).unwrap();
    let public = PublicKey::from(&secret);
    let doc = sample_document();
    assert_eq!(doc.identity.id_public_key, public.to_bytes());
    assert_ne!(doc.identity.id_public_key, [42u8; 32]);
    assert_ne!(doc.identity.id_signature, [0u8; 64]);
    assert!(doc.verify());
    let shard = sample_key_shard();
    assert_eq!(shard.identity.id_public_key, public.to_bytes());
    assert!(shard.verify());
}

#[test]
fn signable_bytes_end_with_prefix_and_key() {
    let doc = sample_document();
    let bytes = doc.inner.signable_bytes(&doc.identity.id_public_key);
    let mut expected = doc.inner.to_wire();
    expected.extend_from_slice(&[0xed, 0x01]);
    expected.extend_from_slice(&doc.identity.id_public_key);
    assert_eq!(bytes, expected);
    let shard = sample_key_shard();
    let bytes = shard.inner.signable_bytes(&shard.identity.id_public_key);
    let mut expected = shard.inner.to_wire();
    expected.extend_from_slice(&[0xed, 0x01]);
    expected.extend_from_slice(&shard.identity.id_public_key);
    assert_eq!(bytes, expected);
}

#[test]
fn aad_is_meta_letter_key() {
    let meta = MainDocumentMeta { version: 0, quorum_size: 2 };
    let mut expected = vec![0x00, 0x02, 0x6b];
    expected.extend_from_slice(&[9u8; 32]);
    assert_eq!(meta.aad(&[9u8; 32]), expected);
}

#[test]
fn tampering_with_a_signed_region_is_noticed() {
    let doc = sample_document();
    for i in 0..doc.inner.ciphertext.len() {
        let mut tampered = doc.clone();
        tampered.inner.ciphertext[i] ^= 1;
        assert!(!tampered.verify());
    }
    let mut tampered = doc.clone();
    tampered.inner.meta.quorum_size = 1;
    assert!(!tampered.verify());
    let mut tampered = doc.clone();
    tampered.inner.nonce[0] ^= 0x80;
    assert!(!tampered.verify());
    let mut tampered = doc.clone();
    tampered.identity.id_signature[5] ^= 1;
    assert!(!tampered.verify());
    let mut tampered = doc.clone();
    tampered.identity.id_public_key = [0xffu8; 32];
    assert!(!tampered.verify());
    let shard = sample_key_shard();
    let mut tampered = shard.clone();
    tampered.inner.shard.ys[0] ^= 1;
    assert!(!tampered.verify());
    let mut tampered = shard.clone();
    tampered.inner.doc_chksum.digest[31] ^= 1;
    assert!(!tampered.verify());
}

#[test]
fn checksum_is_the_blake2b_multihash_of_the_wire_form() {
    let doc = sample_document();
    let expected = Code::Blake2b256.digest(&doc.to_wire());
    let chksum = doc.checksum();
    assert_eq!(chksum.code, 0xb220);
    assert_eq!(chksum.digest, expected.digest().to_vec());
    assert_eq!(chksum.to_bytes(), expected.to_bytes());
    assert_eq!(chksum.to_bytes().len(), 36);
    assert!(chksum.same(&chksum.clone()));
}

#[test]
fn document_id_is_the_end_of_the_encoded_checksum() {
    let doc = sample_document();
    let encoded = zbase32::encode_full_bytes(&doc.checksum().to_bytes());
    assert_eq!(encoded.len(), 58);
    let id = doc.id();
    assert_eq!(id.len(), MainDocument::ID_LENGTH);
    assert_eq!(id, &encoded[50..]);
}

#[test]
fn document_id_survives_a_roundtrip() {
    let doc = sample_document();
    let doc2 = MainDocument::from_wire(&doc.to_wire()).unwrap();
    assert_eq!(doc.id(), doc2.id());
    assert_eq!(doc.checksum(), doc2.checksum());
    assert_eq!(doc.quorum_size(), 2);
    assert_eq!(doc2.quorum_size(), 2);
}

#[test]
fn shard_id_is_the_encoded_point() {
    let shard = sample_key_shard();
    assert_eq!(shard.id(), zbase32::encode_full_bytes(&[9]));
    assert_eq!(shard.id().len(), KeyShard::ID_LENGTH);
    assert_eq!(shard.id().len(), Shard::ID_LENGTH);
    assert_eq!(shard.id(), shard.inner.shard.id());
}

#[test]
fn code_words_of_the_zero_key() {
    let (encrypted, codewords) =
        sample_key_shard().encrypt_with(&[0u8; 32], &[1u8; 12]).unwrap();
    assert_eq!(codewords, words_of_zero_key());
    assert_eq!(encrypted.nonce, [1u8; 12]);
    let wire = sample_key_shard().to_wire();
    assert_eq!(encrypted.ciphertext.len(), wire.len() + 16);
    assert_ne!(&encrypted.ciphertext[..wire.len()], &wire[..]);
    assert_eq!(encrypted.decrypt(&codewords), Ok(sample_key_shard()));
}

#[test]
fn key_shard_encryption_roundtrip() {
    let shard = sample_key_shard();
    let (enc_shard, codewords) = shard.clone().encrypt().unwrap();
    let shard2 = enc_shard.decrypt(&codewords).unwrap();
    assert_eq!(shard, shard2);
}

#[test]
fn fresh_keys_differ() {
    let (a, words_a) = sample_key_shard().encrypt().unwrap();
    let (b, words_b) = sample_key_shard().encrypt().unwrap();
    assert_ne!(words_a, words_b);
    assert_ne!(a, b);
    for word in words_a.iter() {
        assert!(!word.is_empty());
        assert!(word.chars().all(|c| c.is_ascii_lowercase()));
    }
}

#[test]
fn code_words_are_read_in_any_case() {
    let (encrypted, codewords) = sample_key_shard().encrypt().unwrap();
    let mut upper = codewords.clone();
    for word in upper.iter_mut() {
        *word = word.to_uppercase();
    }
    assert_eq!(encrypted.decrypt(&upper), Ok(sample_key_shard()));
}

#[test]
fn wrong_code_words_do_not_decrypt() {
    let (encrypted, _) = sample_key_shard().encrypt_with(&[3u8; 32], &[1u8; 12]).unwrap();
    assert_eq!(encrypted.decrypt(&words_of_zero_key()), Err(Error::AeadDecryption));
}

#[test]
fn unknown_word_is_a_bad_mnemonic() {
    let (encrypted, mut codewords) = sample_key_shard().encrypt().unwrap();
    codewords[7] = "notaword".to_string();
    assert_eq!(encrypted.decrypt(&codewords), Err(Error::Bip39));
}

#[test]
fn bad_checksum_is_a_bad_mnemonic() {
    let (encrypted, _) = sample_key_shard().encrypt().unwrap();
    let words: Vec<String> = vec!["abandon".to_string(); 24];
    let words: [String; 24] = words.try_into().unwrap();
    assert_eq!(encrypted.decrypt(&words), Err(Error::Bip39));
}

#[test]
fn short_phrase_is_a_bad_mnemonic() {
    let (encrypted, _) = sample_key_shard().encrypt().unwrap();
    // Twelve words are a valid phrase, for a key of half the length.
    let mut words: Vec<String> = vec!["abandon".to_string(); 11];
    words.push("about".to_string());
    words.resize(24, String::new());
    let words: [String; 24] = words.try_into().unwrap();
    assert_eq!(encrypted.decrypt(&words), Err(Error::Bip39));
}

#[test]
fn flipped_ciphertext_byte_fails_decryption() {
    let shard = KeyShardBuilder {
        version: 0,
        doc_chksum: sample_document().checksum(),
        shard: Shard { x: 1, ys: vec![0xff] },
    }
    .sign(&[42u8; 32]);
    let (encrypted, codewords) = shard.encrypt().unwrap();
    for i in 0..encrypted.ciphertext.len() {
        let mut tampered = encrypted.clone();
        tampered.ciphertext[i] ^= 0x01;
        assert_eq!(tampered.decrypt(&codewords), Err(Error::AeadDecryption));
    }
    let mut tampered = encrypted.clone();
    tampered.nonce[0] ^= 1;
    assert_eq!(tampered.decrypt(&codewords), Err(Error::AeadDecryption));
}

#[test]
fn decrypted_bytes_have_to_be_a_key_shard() {
    // An encrypted document is no key shard.
    let doc = sample_document();
    let shard = sample_key_shard();
    let (encrypted, codewords) = shard.encrypt_with(&[0u8; 32], &[1u8; 12]).unwrap();
    assert_eq!(encrypted.clone().decrypt(&codewords).map(|s| s.inner.version), Ok(0));
    // Seal the wire form of a main document under the same key by hand.
    let cipher = chacha20poly1305::ChaCha20Poly1305::new(&[0u8; 32].into());
    let sealed = cipher.encrypt(&[1u8; 12].into(), &doc.to_wire()[..]).unwrap();
    let forged = EncryptedKeyShard { nonce: [1u8; 12], ciphertext: sealed };
    assert_eq!(forged.decrypt(&codewords), Err(Error::Decode(DecodeError::Malformed)));
}

#[test]
fn errors_have_messages() {
    assert_eq!(Error::InvariantViolation.message(), "security invariant violated");
    assert_eq!(
        Error::MissingCapability.message(),
        "missing necessary capabilities to complete request"
    );
    assert_eq!(Error::AeadEncryption.message(), "aead encryption cryptographic error");
    assert_eq!(Error::AeadDecryption.message(), "aead decryption cryptographic error");
    assert_eq!(
        Error::Shamir(ShamirError::DuplicateShard).message(),
        "shamir algorithm operation: two shards lie at one point"
    );
    assert_eq!(Error::ShardSecretDecode.message(), "failed to decode shard secret");
    assert_eq!(Error::Bip39.message(), "bip39 phrase failure");
    assert_eq!(
        Error::Decode(DecodeError::UnsupportedVersion).message(),
        "failed to decode: version must be 0"
    );
    assert_eq!(
        Error::Decode(DecodeError::TrailingBytes).message(),
        "failed to decode: trailing bytes"
    );
    assert_eq!(DecodeError::Malformed.message(), "malformed or truncated input");
    assert_eq!(ShamirError::Exhausted.message(), "all 255 shards have been dealt");
    assert_eq!(Error::InsufficientQuorum.message(), "fewer shards than the quorum size");
    assert_eq!(Error::QuorumInconsistent.message(), "shards combine to different secrets");
    assert_eq!(Error::MissingMainDocument.message(), "quorum has no main document");
    assert_eq!(
        Error::GroupingMismatch.message(),
        "shard does not belong to the main document"
    );
}
