//! Encoding: every record to its canonical bytes.
use crate::backup::BackupVersion;
use crate::error::BackupError;
use crate::format::decode_backup;
use crate::format::decode_content;
use crate::format::decode_data;
use crate::format::decode_metadata;
use crate::format::decode_v1;
use crate::format::encodable;
use crate::format::encode_backup;
use crate::format::encode_content;
use crate::format::encode_data;
use crate::format::encode_metadata;
use crate::format::encode_v1;
use crate::format::int32_field;
use crate::format::nonempty_bytes_field;
use crate::format::string_field;
use crate::format::uint32_field;
use crate::laws::lemma_backup_roundtrip;
use crate::laws::lemma_content_roundtrip;
use crate::laws::lemma_data_roundtrip;
use crate::laws::lemma_metadata_roundtrip;
use crate::laws::lemma_v1_roundtrip;
use crate::schema::Backup;
use crate::schema::BackupContent;
use crate::schema::BackupData;
use crate::schema::BackupMetaData;
use crate::schema::BackupV1;
use crate::wire::valid_tag;
use crate::wire::write_bytes_field;
use crate::wire::write_varint_field;
use vstd::prelude::*;

verus! {

/// Appends an unsigned 32-bit field to `buf`, unless the value is zero.
pub fn write_uint32(buf: &mut Vec<u8>, tag: u32, value: u32)
    requires
        valid_tag(tag),
    ensures
        final(buf)@ == old(buf)@ + uint32_field(tag, value),
{
    if value != 0 {
        write_varint_field(buf, tag, value as u64);
    } else {
        assert(buf@ =~= old(buf)@ + uint32_field(tag, value));
    }
}

/// Appends a signed 32-bit field to `buf`, unless the value is zero.
pub fn write_int32(buf: &mut Vec<u8>, tag: u32, value: i32)
    requires
        valid_tag(tag),
    ensures
        final(buf)@ == old(buf)@ + int32_field(tag, value),
{
    if value > 0 {
        write_varint_field(buf, tag, value as u64);
    } else if value < 0 {
        let below: u64 = (-(value as i64) - 1) as u64;
        write_varint_field(buf, tag, u64::MAX - below);
    } else {
        assert(buf@ =~= old(buf)@ + int32_field(tag, value));
    }
}

/// Appends a field of bytes to `buf`, unless there are none.
pub fn write_nonempty_bytes(buf: &mut Vec<u8>, tag: u32, payload: &[u8])
    requires
        valid_tag(tag),
    ensures
        final(buf)@ == old(buf)@ + nonempty_bytes_field(tag, payload@),
{
    if payload.len() != 0 {
        write_bytes_field(buf, tag, payload);
    } else {
        assert(buf@ =~= old(buf)@ + nonempty_bytes_field(tag, payload@));
    }
}

/// Appends a field of text to `buf`, unless the text is empty.
pub fn write_string(buf: &mut Vec<u8>, tag: u32, text: &str)
    requires
        valid_tag(tag),
    ensures
        final(buf)@ == old(buf)@ + string_field(tag, text@),
{
    if !text.is_empty() {
        write_bytes_field(buf, tag, text.as_bytes());
    } else {
        assert(buf@ =~= old(buf)@ + string_field(tag, text@));
    }
}

impl BackupMetaData {
    /// The canonical encoding of this record. Decoding it gives the record
    /// back.
    pub fn encode_to_vec(&self) -> (out: Vec<u8>)
        ensures
            out@ == encode_metadata(self@),
            self@.representable(),
            decode_metadata(out@) == Some(self@),
    {
        let mut buf: Vec<u8> = Vec::new();
        write_uint32(&mut buf, 1, self.timestamp);
        write_string(&mut buf, 2, self.name.as_str());
        write_int32(&mut buf, 3, self.mode);
        let name_len: usize = self.name.as_str().as_bytes().len();
        proof {
            assert(buf@ =~= encode_metadata(self@));
            lemma_metadata_roundtrip(self@);
        }
        buf
    }
}

impl BackupData {
    /// The canonical encoding of this record. Decoding it gives the record
    /// back.
    pub fn encode_to_vec(&self) -> (out: Vec<u8>)
        ensures
            out@ == encode_data(self@),
            self@.representable(),
            decode_data(out@) == Some(self@),
    {
        let mut buf: Vec<u8> = Vec::new();
        write_uint32(&mut buf, 1, self.seed_length);
        write_nonempty_bytes(&mut buf, 2, self.seed.as_slice());
        write_uint32(&mut buf, 3, self.birthdate);
        write_string(&mut buf, 4, self.generator.as_str());
        let seed_len: usize = self.seed.len();
        let generator_len: usize = self.generator.as_str().as_bytes().len();
        proof {
            assert(buf@ =~= encode_data(self@));
            lemma_data_roundtrip(self@);
        }
        buf
    }
}

impl BackupContent {
    /// The canonical encoding of this record. Decoding it gives the record
    /// back.
    pub fn encode_to_vec(&self) -> (out: Vec<u8>)
        ensures
            out@ == encode_content(self@),
            self@.representable(),
            decode_content(out@) == Some(self@),
    {
        let mut buf: Vec<u8> = Vec::new();
        write_nonempty_bytes(&mut buf, 1, self.checksum.as_slice());
        let ghost after_checksum = buf@;
        match &self.metadata {
            Some(m) => {
                let body = m.encode_to_vec();
                let body_len: usize = body.len();
                write_bytes_field(&mut buf, 2, body.as_slice());
            },
            None => {
                assert(buf@ =~= after_checksum + Seq::<u8>::empty());
            },
        }
        write_uint32(&mut buf, 3, self.length);
        write_nonempty_bytes(&mut buf, 4, self.data.as_slice());
        let checksum_len: usize = self.checksum.len();
        let data_len: usize = self.data.len();
        proof {
            assert(buf@ =~= encode_content(self@));
            lemma_content_roundtrip(self@);
        }
        buf
    }
}

impl BackupV1 {
    /// The canonical encoding of this record. Decoding it gives the record
    /// back.
    pub fn encode_to_vec(&self) -> (out: Vec<u8>)
        ensures
            out@ == encode_v1(self@),
            self@.representable(),
            decode_v1(out@) == Some(self@),
    {
        let mut buf: Vec<u8> = Vec::new();
        match &self.content {
            Some(c) => {
                let body = c.encode_to_vec();
                let body_len: usize = body.len();
                write_bytes_field(&mut buf, 1, body.as_slice());
            },
            None => {},
        }
        proof {
            assert(buf@ =~= encode_v1(self@));
            lemma_v1_roundtrip(self@);
        }
        buf
    }
}

impl Backup {
    /// The canonical encoding of this envelope; decoding it gives the
    /// envelope back. An envelope that holds a format that this build does
    /// not know cannot be written: that is `UnsupportedVersion`.
    pub fn encode_to_vec(&self) -> (out: Result<Vec<u8>, BackupError>)
        ensures
            match out {
                Ok(bytes) => encodable(self@) && bytes@ == encode_backup(self@)
                    && self@.representable() && decode_backup(bytes@) == Some(self@),
                Err(e) => !encodable(self@) && e == BackupError::UnsupportedVersion,
            },
    {
        let mut buf: Vec<u8> = Vec::new();
        match &self.backup_version {
            Some(BackupVersion::BackupV1(v)) => {
                let body = v.encode_to_vec();
                let body_len: usize = body.len();
                write_bytes_field(&mut buf, 1, body.as_slice());
                proof {
                    assert(buf@ =~= encode_backup(self@));
                    lemma_backup_roundtrip(self@);
                }
                Ok(buf)
            },
            Some(BackupVersion::Unrecognized(_)) => Err(BackupError::UnsupportedVersion),
            None => {
                proof {
                    lemma_backup_roundtrip(self@);
                }
                Ok(buf)
            },
        }
    }
}

} // verus!
