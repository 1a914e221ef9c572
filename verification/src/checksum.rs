//! The checksum of a content record.
//!
//! The digest is taken over bytes, not over values: the metadata as the
//! record field under tag 2 (nothing where there is none), the legacy length
//! as the integer field under tag 3 (nothing where it is zero), and the data
//! as the field of bytes under tag 4, which is always written. The legacy
//! length goes in exactly as the record holds it. It is never recomputed
//! from the data: a backup made when the field was still filled carries a
//! digest over that very value.
use crate::digest::sha256;
use crate::digest::sha256_digest;
use crate::digest::DIGEST_LEN;
use crate::encode::write_uint32;
use crate::format::content_stepper;
use crate::format::decode_content;
use crate::format::encode_metadata;
use crate::format::encode_optional_metadata;
use crate::format::record_field;
use crate::format::uint32_field;
use crate::format::ContentParts;
use crate::laws::fits;
use crate::laws::lemma_fold_bytes;
use crate::laws::lemma_fold_record;
use crate::laws::lemma_fold_uint32;
use crate::laws::lemma_metadata_roundtrip;
use crate::schema::option_view;
use crate::schema::BackupContent;
use crate::schema::BackupContentView;
use crate::schema::BackupMetaData;
use crate::schema::BackupMetaDataView;
use crate::wire::bytes_equal;
use crate::wire::bytes_field;
use crate::wire::lemma_fold_fields_end;
use crate::wire::write_bytes_field;
use vstd::prelude::*;

verus! {

/// The bytes that the digest is taken over.
pub open spec fn checksum_preimage(
    metadata: Option<BackupMetaDataView>,
    length: u32,
    data: Seq<u8>,
) -> Seq<u8> {
    record_field(2, encode_optional_metadata(metadata)) + uint32_field(3, length) + bytes_field(
        4,
        data,
    )
}

/// The checksum that belongs to the three parts of a content record.
pub open spec fn checksum_of(metadata: Option<BackupMetaDataView>, length: u32, data: Seq<u8>) -> Seq<
    u8,
> {
    sha256(checksum_preimage(metadata, length, data))
}

/// Whether a content record holds the checksum that belongs to its parts.
pub open spec fn authentic(c: BackupContentView) -> bool {
    c.checksum == checksum_of(c.metadata, c.length, c.data)
}

/// The bytes that the digest is taken over.
pub fn preimage(metadata: &Option<BackupMetaData>, length: u32, data: &[u8]) -> (out: Vec<u8>)
    ensures
        out@ == checksum_preimage(option_view(*metadata), length, data@),
{
    let mut buf: Vec<u8> = Vec::new();
    match metadata {
        Some(m) => {
            let body = m.encode_to_vec();
            write_bytes_field(&mut buf, 2, body.as_slice());
        },
        None => {},
    }
    write_uint32(&mut buf, 3, length);
    write_bytes_field(&mut buf, 4, data);
    assert(buf@ =~= checksum_preimage(option_view(*metadata), length, data@));
    buf
}

/// The checksum that belongs to the three parts of a content record.
pub fn compute(metadata: &Option<BackupMetaData>, length: u32, data: &[u8]) -> (digest: Vec<u8>)
    ensures
        digest@ == checksum_of(option_view(*metadata), length, data@),
        digest@.len() == DIGEST_LEN,
{
    let bytes = preimage(metadata, length, data);
    sha256_digest(bytes.as_slice())
}

/// Whether `checksum` is the digest `digest`. Every byte of a checksum of
/// the right length is looked at, wherever the first difference lies.
pub fn matches_digest(checksum: &[u8], digest: &[u8]) -> (same: bool)
    ensures
        same == (checksum@ == digest@),
{
    bytes_equal(checksum, digest)
}

/// Whether a content record holds the checksum that belongs to its parts as
/// they stand: true on an exact match only.
pub fn verify(content: &BackupContent) -> (ok: bool)
    ensures
        ok == authentic(content@),
{
    let digest = compute(&content.metadata, content.length, content.data.as_slice());
    matches_digest(content.checksum.as_slice(), digest.as_slice())
}

impl BackupContent {
    /// A content record of the three parts, with the checksum that belongs
    /// to them.
    pub fn with_checksum(metadata: Option<BackupMetaData>, length: u32, data: Vec<u8>) -> (content:
        BackupContent)
        ensures
            content@ == (BackupContentView {
                checksum: checksum_of(option_view(metadata), length, data@),
                metadata: option_view(metadata),
                length,
                data: data@,
            }),
            authentic(content@),
    {
        let checksum = compute(&metadata, length, data.as_slice());
        BackupContent { checksum, metadata, length, data }
    }
}

/// A record that holds the checksum computed from its parts is authentic.
pub proof fn lemma_computed_checksum_verifies(
    metadata: Option<BackupMetaDataView>,
    length: u32,
    data: Seq<u8>,
)
    ensures
        authentic(
            BackupContentView {
                checksum: checksum_of(metadata, length, data),
                metadata,
                length,
                data,
            },
        ),
{
}

/// The checksum that belongs to the parts of a record, with any one of its
/// bytes changed, is refused.
pub proof fn lemma_changed_checksum_fails(
    metadata: Option<BackupMetaDataView>,
    length: u32,
    data: Seq<u8>,
    i: int,
    byte: u8,
)
    ensures
        ({
            let sum = checksum_of(metadata, length, data);
            0 <= i < sum.len() && byte != sum[i] ==> !authentic(
                BackupContentView { checksum: sum.update(i, byte), metadata, length, data },
            )
        }),
{
    let sum = checksum_of(metadata, length, data);
    if 0 <= i < sum.len() && byte != sum[i] {
        assert(sum.update(i, byte)[i] != sum[i]);
    }
}

/// Whether the parts of a record are short enough to be framed.
pub open spec fn framable(metadata: Option<BackupMetaDataView>, data: Seq<u8>) -> bool {
    &&& fits(data)
    &&& match metadata {
        Some(m) => m.representable() && fits(encode_metadata(m)),
        None => true,
    }
}

/// The bytes that the digest is taken over decode to the parts they were
/// made from, with no checksum.
pub proof fn lemma_preimage_decodes(
    metadata: Option<BackupMetaDataView>,
    length: u32,
    data: Seq<u8>,
)
    requires
        framable(metadata, data),
    ensures
        decode_content(checksum_preimage(metadata, length, data)) == Some(
            BackupContentView { checksum: Seq::empty(), metadata, length, data },
        ),
{
    let step = content_stepper();
    let body = encode_optional_metadata(metadata);
    let f3 = uint32_field(3, length);
    let f4 = bytes_field(4, data);
    let a0 = ContentParts { checksum: None, metadata: None, length: None, data: None };
    let a2 = ContentParts { metadata, ..a0 };
    let a3 = ContentParts { length: if length == 0 { None } else { Some(length) }, ..a2 };
    let a4 = ContentParts { data: Some(data), ..a3 };
    let none = Seq::<u8>::empty();
    if let Some(m) = metadata {
        lemma_metadata_roundtrip(m);
    }
    assert(checksum_preimage(metadata, length, data) =~= record_field(2, body) + (f3 + (f4
        + none)));
    lemma_fold_record(2, body, f3 + (f4 + none), a0, step);
    lemma_fold_uint32(3, length, f4 + none, a2, step);
    lemma_fold_bytes(4, data, none, a3, step);
    lemma_fold_fields_end(a4, step);
}

/// Different parts give different bytes to the digest: whoever changes the
/// data, the metadata or the legacy length changes what is hashed. So a
/// record that was tampered with can only pass for authentic where SHA-256
/// maps two different byte strings to one digest.
pub proof fn lemma_preimage_injective(
    metadata: Option<BackupMetaDataView>,
    length: u32,
    data: Seq<u8>,
    metadata2: Option<BackupMetaDataView>,
    length2: u32,
    data2: Seq<u8>,
)
    requires
        framable(metadata, data),
        framable(metadata2, data2),
        checksum_preimage(metadata, length, data) == checksum_preimage(metadata2, length2, data2),
    ensures
        metadata == metadata2,
        length == length2,
        data == data2,
{
    lemma_preimage_decodes(metadata, length, data);
    lemma_preimage_decodes(metadata2, length2, data2);
}

/// Changing any one byte of the data changes the bytes that the digest is
/// taken over.
pub proof fn lemma_changed_data_changes_preimage(
    metadata: Option<BackupMetaDataView>,
    length: u32,
    data: Seq<u8>,
    i: int,
    byte: u8,
)
    requires
        framable(metadata, data),
        0 <= i < data.len(),
        byte != data[i],
    ensures
        checksum_preimage(metadata, length, data.update(i, byte)) != checksum_preimage(
            metadata,
            length,
            data,
        ),
{
    let changed = data.update(i, byte);
    assert(changed[i] != data[i]);
    if checksum_preimage(metadata, length, changed) == checksum_preimage(metadata, length, data) {
        lemma_preimage_injective(metadata, length, changed, metadata, length, data);
    }
}

} // verus!
