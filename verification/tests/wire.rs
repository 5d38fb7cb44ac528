use paperback_core::shamir::Shard;
use paperback_core::v0::wire::DecodeError;
use paperback_core::v0::{
    EncryptedKeyShard, Identity, KeyShard, KeyShardBuilder, MainDocument, MainDocumentBuilder,
    MainDocumentMeta, Multihash, ShardSecret,
};
use paperback_core::varint::{put_u32, put_u64, put_usize};

fn varint32(n: u32) -> Vec<u8> {
    let mut out = Vec::new();
    put_u32(&mut out, n);
    out
}

fn sample_builder() -> MainDocumentBuilder {
    MainDocumentBuilder {
        meta: MainDocumentMeta { version: 0, quorum_size: 3 },
        nonce: [7u8; 12],
        ciphertext: vec![1, 2, 3, 4, 5],
    }
}

fn sample_document() -> MainDocument {
    sample_builder().sign(&[42u8; 32])
}

fn sample_key_shard() -> KeyShard {
    KeyShardBuilder {
        version: 0,
        doc_chksum: sample_document().checksum(),
        shard: Shard { x: 9, ys: vec![10, 20, 30] },
    }
    .sign(&[42u8; 32])
}

#[test]
fn varint_exact_bytes() {
    assert_eq!(varint32(0), vec![0x00]);
    assert_eq!(varint32(1), vec![0x01]);
    assert_eq!(varint32(127), vec![0x7f]);
    assert_eq!(varint32(128), vec![0x80, 0x01]);
    assert_eq!(varint32(300), vec![0xac, 0x02]);
    assert_eq!(varint32(u32::MAX), vec![0xff, 0xff, 0xff, 0xff, 0x0f]);
    let mut out = vec![0xaa];
    put_u64(&mut out, u64::MAX);
    assert_eq!(out, vec![0xaa, 0xff, 0xff, 0xff, 0xff, 0xff, 0xff, 0xff, 0xff, 0xff, 0x01]);
    let mut out = Vec::new();
    put_usize(&mut out, 16384);
    assert_eq!(out, vec![0x80, 0x80, 0x01]);
}

#[test]
fn meta_exact_bytes() {
    let meta = MainDocumentMeta { version: 0, quorum_size: 300 };
    assert_eq!(meta.to_wire(), vec![0x00, 0xac, 0x02]);
    assert_eq!(MainDocumentMeta::from_wire(&[0x00, 0xac, 0x02]), Ok(meta));
}

#[test]
fn meta_decoder_follows_the_varint_decoder() {
    // A final zero byte behind the first byte is refused.
    assert_eq!(MainDocumentMeta::from_wire(&[0x80, 0x00, 0x03]), Err(DecodeError::Malformed));
    // A sixth byte is refused.
    assert_eq!(
        MainDocumentMeta::from_wire(&[0x00, 0x80, 0x80, 0x80, 0x80, 0x80, 0x01]),
        Err(DecodeError::Malformed)
    );
    // The input ends inside a number.
    assert_eq!(MainDocumentMeta::from_wire(&[0x00, 0x80]), Err(DecodeError::Malformed));
    assert_eq!(MainDocumentMeta::from_wire(&[]), Err(DecodeError::Malformed));
    // The bits of a fifth byte that do not fit are dropped.
    assert_eq!(
        MainDocumentMeta::from_wire(&[0x00, 0x81, 0x80, 0x80, 0x80, 0x70]),
        Ok(MainDocumentMeta { version: 0, quorum_size: 1 })
    );
}

#[test]
fn builder_exact_bytes() {
    let mut expected = vec![0x00, 0x03];
    expected.extend_from_slice(&[0x81, 0xc0, 0x02]);
    expected.extend_from_slice(&[7u8; 12]);
    expected.extend_from_slice(&[0x82, 0xc0, 0x02]);
    expected.push(5);
    expected.extend_from_slice(&[1, 2, 3, 4, 5]);
    assert_eq!(sample_builder().to_wire(), expected);
}

#[test]
fn identity_exact_bytes() {
    let identity = Identity { id_public_key: [1u8; 32], id_signature: [2u8; 64] };
    let mut expected = vec![0xed, 0x01];
    expected.extend_from_slice(&[1u8; 32]);
    expected.extend_from_slice(&[0xed, 0xa1, 0x03]);
    expected.extend_from_slice(&[2u8; 64]);
    assert_eq!(identity.to_wire(), expected);
    assert_eq!(Identity::from_wire(&expected), Ok(identity));
}

#[test]
fn identity_wrong_prefix() {
    let identity = Identity { id_public_key: [1u8; 32], id_signature: [2u8; 64] };
    let mut bytes = identity.to_wire();
    bytes[0] = 0xee;
    assert_eq!(Identity::from_wire(&bytes), Err(DecodeError::Malformed));
}

#[test]
fn main_document_roundtrip() {
    let main = sample_document();
    let main2 = MainDocument::from_wire(&main.to_wire()).unwrap();
    assert_eq!(main, main2);

    let inner2 = MainDocumentBuilder::from_wire(&main.inner.to_wire()).unwrap();
    assert_eq!(main.inner, inner2);

    let meta2 = MainDocumentMeta::from_wire(&main.inner.meta.to_wire()).unwrap();
    assert_eq!(main.inner.meta, meta2);
}

#[test]
fn main_document_roundtrip_empty_and_long_ciphertext() {
    for len in [0usize, 1, 127, 128, 1000] {
        let main = MainDocumentBuilder {
            meta: MainDocumentMeta { version: 0, quorum_size: u32::MAX },
            nonce: [0xffu8; 12],
            ciphertext: vec![0x5a; len],
        }
        .sign(&[1u8; 32]);
        assert_eq!(MainDocument::from_wire(&main.to_wire()), Ok(main));
    }
}

#[test]
fn key_shard_roundtrip() {
    let shard = sample_key_shard();
    assert_eq!(KeyShard::from_wire(&shard.to_wire()), Ok(shard.clone()));
    assert_eq!(KeyShardBuilder::from_wire(&shard.inner.to_wire()), Ok(shard.inner.clone()));
}

#[test]
fn key_shard_builder_exact_bytes() {
    let builder = KeyShardBuilder {
        version: 0,
        doc_chksum: Multihash { code: 0xb220, digest: vec![0x11; 32] },
        shard: Shard { x: 9, ys: vec![10, 20, 30] },
    };
    let mut expected = vec![0x00, 0xa0, 0xe4, 0x02, 0x20];
    expected.extend_from_slice(&[0x11; 32]);
    expected.extend_from_slice(&[9, 3, 10, 20, 30]);
    assert_eq!(builder.to_wire(), expected);
}

#[test]
fn encrypted_key_shard_roundtrip() {
    let shard = EncryptedKeyShard { nonce: [3u8; 12], ciphertext: vec![9; 77] };
    let bytes = shard.to_wire();
    assert_eq!(EncryptedKeyShard::from_wire(&bytes), Ok(shard));
}

#[test]
fn shard_secret_roundtrip_keeps_the_dealer_key() {
    let with_key = ShardSecret { doc_key: [5u8; 32], id_private_key: Some([6u8; 32]) };
    let without_key = ShardSecret { doc_key: [5u8; 32], id_private_key: None };
    assert_eq!(with_key.to_wire().len(), 69);
    assert_eq!(ShardSecret::from_wire(&with_key.to_wire()), Some(with_key));
    assert_eq!(ShardSecret::from_wire(&without_key.to_wire()), Some(without_key));
}

#[test]
fn shard_secret_malformed() {
    let with_key = ShardSecret { doc_key: [5u8; 32], id_private_key: Some([6u8; 32]) };
    let mut bytes = with_key.to_wire();
    bytes.push(0);
    assert_eq!(ShardSecret::from_wire(&bytes), None);
    bytes.truncate(60);
    assert_eq!(ShardSecret::from_wire(&bytes), None);
    assert_eq!(ShardSecret::from_wire(&[]), None);
}

#[test]
fn trailing_bytes_are_refused() {
    let mut bytes = sample_document().to_wire();
    bytes.push(0);
    assert_eq!(MainDocument::from_wire(&bytes), Err(DecodeError::TrailingBytes));
    let (doc, rest) = MainDocument::from_wire_partial(&bytes).unwrap();
    assert_eq!(doc, sample_document());
    assert_eq!(rest, &[0u8][..]);
}

#[test]
fn truncated_input_is_refused() {
    let bytes = sample_document().to_wire();
    for len in 0..bytes.len() {
        assert_eq!(MainDocument::from_wire(&bytes[..len]), Err(DecodeError::Malformed));
    }
    let bytes = sample_key_shard().to_wire();
    for len in 0..bytes.len() {
        assert_eq!(KeyShard::from_wire(&bytes[..len]), Err(DecodeError::Malformed));
    }
}

#[test]
fn main_document_version_gate() {
    let mut bytes = sample_document().to_wire();
    assert_eq!(bytes[0], 0);
    bytes[0] = 1;
    assert_eq!(MainDocument::from_wire(&bytes), Err(DecodeError::UnsupportedVersion));
    assert_eq!(
        MainDocumentMeta::from_wire(&[1, 3]),
        Err(DecodeError::UnsupportedVersion)
    );
}

#[test]
fn key_shard_version_gate() {
    let mut shard = sample_key_shard();
    shard.inner.version = 1;
    let bytes = shard.to_wire();
    assert_eq!(KeyShard::from_wire(&bytes), Err(DecodeError::UnsupportedVersion));
    assert_eq!(
        KeyShardBuilder::from_wire(&shard.inner.to_wire()),
        Err(DecodeError::UnsupportedVersion)
    );
}

#[test]
fn shard_at_zero_is_refused() {
    let mut shard = sample_key_shard();
    shard.inner.shard.x = 0;
    assert_eq!(KeyShard::from_wire(&shard.to_wire()), Err(DecodeError::Malformed));
}

#[test]
fn long_digest_is_refused() {
    let mut shard = sample_key_shard();
    shard.inner.doc_chksum.digest = vec![0; 65];
    assert_eq!(KeyShard::from_wire(&shard.to_wire()), Err(DecodeError::Malformed));
    shard.inner.doc_chksum.digest = vec![0; 64];
    assert_eq!(KeyShard::from_wire(&shard.to_wire()), Ok(shard));
}
