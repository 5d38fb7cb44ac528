//! What holds of the library as a whole, beyond what each function states
//! of itself.

use crate::shamir::interpolation::{lemma_combined_is_secret, lemma_extended_is_shard};
use crate::shamir::{combined, extended, points, ShamirError};
use crate::v0::backup::BackupView;
use crate::v0::recover::{
    all_belong_to, all_signed_by, all_verify, minted, recovered, shard_points, shares,
    validation,
};
use crate::v0::wire::DecodeError;
use crate::v0::{
    EncryptedKeyShardView, Error, KeyShardBuilderView, KeyShardView, MainDocumentBuilderView,
    MainDocumentMeta, MainDocumentView,
};
use vstd::prelude::*;

verus! {

/// Decoding the wire form of well-formed meta data gives them back.
pub proof fn lemma_meta_roundtrip(meta: MainDocumentMeta)
    requires
        meta.wf(),
    ensures
        MainDocumentMeta::parse_all(meta.wire()) == Ok::<_, DecodeError>(meta),
{
    meta.lemma_parse_wire(Seq::<u8>::empty());
}

/// Decoding the wire form of a well-formed builder of a main document gives
/// it back.
pub proof fn lemma_main_document_builder_roundtrip(builder: MainDocumentBuilderView)
    requires
        builder.wf(),
    ensures
        MainDocumentBuilderView::parse_all(builder.wire()) == Ok::<_, DecodeError>(builder),
{
    builder.lemma_parse_wire(Seq::<u8>::empty());
}

/// Decoding the wire form of a well-formed main document gives it back.
pub proof fn lemma_main_document_roundtrip(main_document: MainDocumentView)
    requires
        main_document.wf(),
    ensures
        MainDocumentView::parse_all(main_document.wire()) == Ok::<_, DecodeError>(main_document),
{
    main_document.lemma_parse_wire(Seq::<u8>::empty());
}

/// Decoding the wire form of a well-formed builder of a key shard gives it
/// back.
pub proof fn lemma_key_shard_builder_roundtrip(builder: KeyShardBuilderView)
    requires
        builder.wf(),
    ensures
        KeyShardBuilderView::parse_all(builder.wire()) == Ok::<_, DecodeError>(builder),
{
    builder.lemma_parse_wire(Seq::<u8>::empty());
}

/// Decoding the wire form of a well-formed key shard gives it back.
pub proof fn lemma_key_shard_roundtrip(shard: KeyShardView)
    requires
        shard.wf(),
    ensures
        KeyShardView::parse_all(shard.wire()) == Ok::<_, DecodeError>(shard),
{
    shard.lemma_parse_wire(Seq::<u8>::empty());
}

/// Decoding the wire form of a well-formed encrypted key shard gives it
/// back.
pub proof fn lemma_encrypted_key_shard_roundtrip(shard: EncryptedKeyShardView)
    requires
        shard.wf(),
    ensures
        EncryptedKeyShardView::parse_all(shard.wire()) == Ok::<_, DecodeError>(shard),
{
    shard.lemma_parse_wire(Seq::<u8>::empty());
}

/// Whatever is decoded is well formed: of version 0, with fields of their
/// lengths.
pub proof fn lemma_decoded_is_well_formed(input: Seq<u8>)
    ensures
        MainDocumentMeta::parse(input) matches Ok((v, _)) ==> v.wf(),
        MainDocumentBuilderView::parse(input) matches Ok((v, _)) ==> v.wf(),
        MainDocumentView::parse(input) matches Ok((v, _)) ==> v.wf(),
        KeyShardBuilderView::parse(input) matches Ok((v, _)) ==> v.wf(),
        KeyShardView::parse(input) matches Ok((v, _)) ==> v.wf(),
        EncryptedKeyShardView::parse(input) matches Ok((v, _)) ==> v.wf(),
{
}

/// Decoding the wire form of a main document of another version than 0
/// fails on the version.
pub proof fn lemma_main_document_version_gate(main_document: MainDocumentView)
    requires
        main_document.inner.meta.version != 0,
    ensures
        MainDocumentMeta::parse_all(main_document.inner.meta.wire()) == Err::<MainDocumentMeta, _>(
            DecodeError::UnsupportedVersion,
        ),
        MainDocumentBuilderView::parse_all(main_document.inner.wire()) == Err::<
            MainDocumentBuilderView,
            _,
        >(DecodeError::UnsupportedVersion),
        MainDocumentView::parse_all(main_document.wire()) == Err::<MainDocumentView, _>(
            DecodeError::UnsupportedVersion,
        ),
{
    let meta = main_document.inner.meta;
    let inner = main_document.inner;
    meta.lemma_parse_wire_version(Seq::<u8>::empty());
    let t1 = inner.wire().skip(meta.wire().len() as int);
    assert(inner.wire() =~= meta.wire() + t1);
    meta.lemma_parse_wire_version(t1);
    let t2 = main_document.wire().skip(meta.wire().len() as int);
    assert(main_document.wire() =~= meta.wire() + t2);
    meta.lemma_parse_wire_version(t2);
}

/// Decoding the wire form of a key shard of another version than 0, and
/// well formed but for that, fails on the version.
pub proof fn lemma_key_shard_version_gate(shard: KeyShardView)
    requires
        shard.inner.version != 0,
        shard.inner.doc_chksum.wf(),
        shard.inner.shard.wf(),
    ensures
        KeyShardBuilderView::parse_all(shard.inner.wire()) == Err::<KeyShardBuilderView, _>(
            DecodeError::UnsupportedVersion,
        ),
        KeyShardView::parse_all(shard.wire()) == Err::<KeyShardView, _>(
            DecodeError::UnsupportedVersion,
        ),
{
    shard.inner.lemma_parse_wire_version(Seq::<u8>::empty());
    shard.inner.lemma_parse_wire_version(shard.identity.wire());
}

/// The identifier of a well-formed main document is that of the document
/// that its wire form decodes to.
pub proof fn lemma_id_stable(main_document: MainDocumentView)
    requires
        main_document.wf(),
    ensures
        MainDocumentView::parse_all(main_document.wire()) matches Ok(decoded) && decoded.id()
            == main_document.id() && decoded.checksum() == main_document.checksum(),
{
    lemma_main_document_roundtrip(main_document);
}

/// Fewer shards than the quorum size of the main document never pass
/// validation, and where nothing else is wrong the error says so.
pub proof fn lemma_threshold(main_document: MainDocumentView, shards: Seq<KeyShardView>)
    requires
        shards.len() < main_document.inner.meta.quorum_size,
    ensures
        validation(Some(main_document), shards) is Err,
        recovered(main_document, shards) == Err::<Seq<u8>, _>(Error::InsufficientQuorum),
        main_document.verifies() && all_verify(shards) && all_signed_by(
            shards,
            main_document.identity.id_public_key,
        ) && all_belong_to(shards, main_document.checksum()) && crate::shamir::distinct(
            shard_points(shards),
        ) ==> validation(Some(main_document), shards) == Err::<(), _>(Error::InsufficientQuorum),
{
}

/// Shards with accepted signatures, one of which names another public key
/// than the main document or carries another checksum than that of the main
/// document, fail validation with a grouping mismatch, however many they
/// are.
pub proof fn lemma_grouping(main_document: MainDocumentView, shards: Seq<KeyShardView>, i: int)
    requires
        main_document.verifies(),
        all_verify(shards),
        0 <= i < shards.len(),
        shards[i].identity.id_public_key != main_document.identity.id_public_key
            || shards[i].inner.doc_chksum != main_document.checksum(),
    ensures
        validation(Some(main_document), shards) == Err::<(), _>(Error::GroupingMismatch),
{
}

/// With fewer shards of its own than its quorum size, a backup is not
/// recovered: validation says that the quorum is insufficient.
pub proof fn lemma_backup_threshold(backup: BackupView, shards: Seq<KeyShardView>)
    requires
        backup.wf(),
        forall|i: int| 0 <= i < shards.len() ==> backup.issues(#[trigger] shards[i]),
        crate::shamir::distinct(shard_points(shards)),
        shards.len() < backup.main_document.inner.meta.quorum_size,
    ensures
        validation(Some(backup.main_document), shards) == Err::<(), _>(Error::InsufficientQuorum),
{
}

/// Shards of a backup at distinct points, as many as its quorum size or
/// more, pass validation with its main document and recover its secret. The
/// shards may have been encrypted and decrypted and the main document
/// written and read in between: both come back as they were.
pub proof fn lemma_backup_roundtrip(backup: BackupView, shards: Seq<KeyShardView>)
    requires
        backup.wf(),
        forall|i: int| 0 <= i < shards.len() ==> backup.issues(#[trigger] shards[i]),
        crate::shamir::distinct(shard_points(shards)),
        shards.len() >= backup.main_document.inner.meta.quorum_size,
    ensures
        validation(Some(backup.main_document), shards) == Ok::<_, Error>(()),
        backup.secret() matches Some(secret) && recovered(backup.main_document, shards) == Ok::<
            _,
            Error,
        >(secret),
{
    let quorum_size = backup.main_document.inner.meta.quorum_size as int;
    let first = shares(shards.take(quorum_size));
    let others = shares(shards.skip(quorum_size));
    assert forall|i: int, j: int| 0 <= i < j < points(first).len() implies points(first)[i]
        != points(first)[j] by {
        assert(shard_points(shards)[i] != shard_points(shards)[j]);
    }
    lemma_combined_is_secret(backup.dealer, first);
    assert forall|j: int| 0 <= j < others.len() implies extended(first, (#[trigger] others[j]).x)
        == Ok::<_, ShamirError>(others[j]) by {
        assert(backup.issues(shards[quorum_size + j]));
        assert forall|i: int| 0 <= i < first.len() implies (#[trigger] first[i]).x
            != others[j].x by {
            assert(shard_points(shards)[i] != shard_points(shards)[quorum_size + j]);
        }
        lemma_extended_is_shard(backup.dealer, first, others[j].x);
    }
}

/// Shards that pass validation and combine, one of which beyond the quorum
/// size does not lie on the polynomials through the first, are not
/// recovered from: the quorum is inconsistent.
pub proof fn lemma_inconsistent(main_document: MainDocumentView, shards: Seq<KeyShardView>, i: int)
    requires
        main_document.inner.meta.quorum_size <= i < shards.len(),
        combined(shares(shards.take(main_document.inner.meta.quorum_size as int))) is Ok,
        extended(
            shares(shards.take(main_document.inner.meta.quorum_size as int)),
            shards[i].inner.shard.x,
        ) != Ok::<_, ShamirError>(shards[i].inner.shard),
    ensures
        recovered(main_document, shards) == Err::<Seq<u8>, _>(Error::QuorumInconsistent),
{
    let quorum_size = main_document.inner.meta.quorum_size as int;
    let others = shares(shards.skip(quorum_size));
    assert(others[i - quorum_size] == shards[i].inner.shard);
}

/// From shards of a backup at distinct points, as many as its quorum size
/// or more, the key shard at any point other than 0 at which none of the
/// first of them lies is made again: it is the shard that the backup has for
/// that point.
pub proof fn lemma_minted_is_issued(backup: BackupView, shards: Seq<KeyShardView>, x: u8)
    requires
        backup.wf(),
        forall|i: int| 0 <= i < shards.len() ==> backup.issues(#[trigger] shards[i]),
        crate::shamir::distinct(shard_points(shards)),
        shards.len() >= backup.main_document.inner.meta.quorum_size,
        x != 0,
        forall|i: int|
            0 <= i < backup.main_document.inner.meta.quorum_size ==> (
            #[trigger] shards[i]).inner.shard.x != x,
    ensures
        minted(backup.main_document, shards, x) == Ok::<_, Error>(backup.key_shard_at(x)),
{
    let quorum_size = backup.main_document.inner.meta.quorum_size as int;
    let first = shares(shards.take(quorum_size));
    assert forall|i: int, j: int| 0 <= i < j < points(first).len() implies points(first)[i]
        != points(first)[j] by {
        assert(shard_points(shards)[i] != shard_points(shards)[j]);
    }
    lemma_combined_is_secret(backup.dealer, first);
    lemma_extended_is_shard(backup.dealer, first, x);
}

} // verus!
