//! Decoding: bytes to records, with every check that the format asks for.
//! A record comes back whole or not at all.
use crate::backup::BackupVersion;
use crate::error::BackupError;
use crate::format::backup_stepper;
use crate::format::content_stepper;
use crate::format::data_stepper;
use crate::format::decode_backup;
use crate::format::decode_content;
use crate::format::decode_data;
use crate::format::decode_metadata;
use crate::format::decode_v1;
use crate::format::low_i32;
use crate::format::low_u32;
use crate::format::metadata_stepper;
use crate::format::v1_stepper;
use crate::format::ContentParts;
use crate::format::DataParts;
use crate::format::MetaDataParts;
use crate::schema::option_view;
use crate::schema::Backup;
use crate::schema::BackupContent;
use crate::schema::BackupData;
use crate::schema::BackupMetaData;
use crate::schema::BackupV1;
use crate::schema::BackupV1View;
use crate::schema::BackupView;
use crate::text::text_of_bytes;
use crate::wire::fold_fields;
use crate::wire::lemma_fold_fields_end;
use crate::wire::lemma_fold_fields_unfold;
use crate::wire::read_field;
use crate::wire::WireType;
use vstd::prelude::*;
use vstd::slice::slice_subrange;
use vstd::slice::slice_to_vec;

verus! {

/// The low 32 bits of a varint's value.
pub fn take_u32(value: u64) -> (low: u32)
    ensures
        low == low_u32(value as nat),
{
    (value % 0x1_0000_0000) as u32
}

/// The low 32 bits of a varint's value, read as signed.
pub fn take_i32(value: u64) -> (low: i32)
    ensures
        low == low_i32(value as nat),
{
    let low: u64 = value % 0x1_0000_0000;
    if low < 0x8000_0000 {
        low as i32
    } else {
        (low as i64 - 0x1_0000_0000) as i32
    }
}

/// The views of the bytes that have been read into a field so far.
pub open spec fn bytes_view(o: Option<Vec<u8>>) -> Option<Seq<u8>> {
    match o {
        Some(v) => Some(v@),
        None => None,
    }
}

/// The value of a field that may be missing: zero where it is.
fn u32_or_zero(o: Option<u32>) -> (value: u32)
    ensures
        value == match o {
            Some(v) => v,
            None => 0,
        },
{
    match o {
        Some(v) => v,
        None => 0,
    }
}

/// The bytes of a field that may be missing: none where it is.
fn bytes_or_empty(o: Option<Vec<u8>>) -> (value: Vec<u8>)
    ensures
        value@ == match o {
            Some(v) => v@,
            None => Seq::empty(),
        },
{
    match o {
        Some(v) => v,
        None => Vec::new(),
    }
}

/// The text of a field that may be missing: empty where it is.
fn text_or_empty(o: Option<String>) -> (value: String)
    ensures
        value@ == match o {
            Some(v) => v@,
            None => Seq::empty(),
        },
{
    match o {
        Some(v) => v,
        None => String::new(),
    }
}

impl BackupMetaData {
    /// Decodes a metadata record. Fails with `MalformedEncoding` exactly
    /// where the format does not give `bytes` a meaning.
    pub fn decode(bytes: &[u8]) -> (out: Result<BackupMetaData, BackupError>)
        ensures
            match out {
                Ok(m) => decode_metadata(bytes@) == Some(m@),
                Err(e) => decode_metadata(bytes@) is None && e == BackupError::MalformedEncoding,
            },
    {
        let mut timestamp: Option<u32> = None;
        let mut name: Option<String> = None;
        let mut mode: Option<i32> = None;
        let mut rest: &[u8] = bytes;
        while rest.len() > 0
            invariant
                fold_fields(
                    bytes@,
                    MetaDataParts { timestamp: None, name: None, mode: None },
                    metadata_stepper(),
                ) == fold_fields(
                    rest@,
                    MetaDataParts { timestamp, name: option_view(name), mode },
                    metadata_stepper(),
                ),
            decreases rest@.len(),
        {
            proof {
                lemma_fold_fields_unfold(rest@, MetaDataParts { timestamp, name: option_view(name), mode }, metadata_stepper());
            }
            let (f, n) = match read_field(rest) {
                Some(read) => read,
                None => {
                    return Err(BackupError::MalformedEncoding);
                },
            };
            if f.tag == 1 {
                if f.wire != WireType::Varint || timestamp.is_some() {
                    return Err(BackupError::MalformedEncoding);
                }
                timestamp = Some(take_u32(f.value));
            } else if f.tag == 2 {
                if f.wire != WireType::LengthDelimited || name.is_some() {
                    return Err(BackupError::MalformedEncoding);
                }
                match text_of_bytes(f.payload) {
                    Some(text) => {
                        name = Some(text);
                    },
                    None => {
                        return Err(BackupError::MalformedEncoding);
                    },
                }
            } else if f.tag == 3 {
                if f.wire != WireType::Varint || mode.is_some() {
                    return Err(BackupError::MalformedEncoding);
                }
                mode = Some(take_i32(f.value));
            }
            rest = slice_subrange(rest, n, rest.len());
        }
        proof {
            assert(rest@ =~= Seq::<u8>::empty());
            lemma_fold_fields_end(
                MetaDataParts { timestamp, name: option_view(name), mode },
                metadata_stepper(),
            );
        }
        let mode: i32 = match mode {
            Some(m) => m,
            None => 0,
        };
        Ok(BackupMetaData { timestamp: u32_or_zero(timestamp), name: text_or_empty(name), mode })
    }
}

impl BackupData {
    /// Decodes a data record. Fails with `MalformedEncoding` exactly where
    /// the format does not give `bytes` a meaning. Whether the secret fits
    /// the buffer is not checked here: see [`BackupData::secret`].
    pub fn decode(bytes: &[u8]) -> (out: Result<BackupData, BackupError>)
        ensures
            match out {
                Ok(d) => decode_data(bytes@) == Some(d@),
                Err(e) => decode_data(bytes@) is None && e == BackupError::MalformedEncoding,
            },
    {
        let mut seed_length: Option<u32> = None;
        let mut seed: Option<Vec<u8>> = None;
        let mut birthdate: Option<u32> = None;
        let mut generator: Option<String> = None;
        let mut rest: &[u8] = bytes;
        while rest.len() > 0
            invariant
                fold_fields(
                    bytes@,
                    DataParts { seed_length: None, seed: None, birthdate: None, generator: None },
                    data_stepper(),
                ) == fold_fields(
                    rest@,
                    DataParts {
                        seed_length,
                        seed: bytes_view(seed),
                        birthdate,
                        generator: option_view(generator),
                    },
                    data_stepper(),
                ),
            decreases rest@.len(),
        {
            proof {
                lemma_fold_fields_unfold(rest@, DataParts {
                        seed_length,
                        seed: bytes_view(seed),
                        birthdate,
                        generator: option_view(generator),
                    }, data_stepper());
            }
            let (f, n) = match read_field(rest) {
                Some(read) => read,
                None => {
                    return Err(BackupError::MalformedEncoding);
                },
            };
            if f.tag == 1 {
                if f.wire != WireType::Varint || seed_length.is_some() {
                    return Err(BackupError::MalformedEncoding);
                }
                seed_length = Some(take_u32(f.value));
            } else if f.tag == 2 {
                if f.wire != WireType::LengthDelimited || seed.is_some() {
                    return Err(BackupError::MalformedEncoding);
                }
                seed = Some(slice_to_vec(f.payload));
            } else if f.tag == 3 {
                if f.wire != WireType::Varint || birthdate.is_some() {
                    return Err(BackupError::MalformedEncoding);
                }
                birthdate = Some(take_u32(f.value));
            } else if f.tag == 4 {
                if f.wire != WireType::LengthDelimited || generator.is_some() {
                    return Err(BackupError::MalformedEncoding);
                }
                match text_of_bytes(f.payload) {
                    Some(text) => {
                        generator = Some(text);
                    },
                    None => {
                        return Err(BackupError::MalformedEncoding);
                    },
                }
            }
            rest = slice_subrange(rest, n, rest.len());
        }
        proof {
            assert(rest@ =~= Seq::<u8>::empty());
            lemma_fold_fields_end(
                DataParts {
                    seed_length,
                    seed: bytes_view(seed),
                    birthdate,
                    generator: option_view(generator),
                },
                data_stepper(),
            );
        }
        Ok(
            BackupData {
                seed_length: u32_or_zero(seed_length),
                seed: bytes_or_empty(seed),
                birthdate: u32_or_zero(birthdate),
                generator: text_or_empty(generator),
            },
        )
    }
}

impl BackupContent {
    /// Decodes a content record, the metadata inside it included. Fails with
    /// `MalformedEncoding` exactly where the format does not give `bytes` a
    /// meaning. The legacy `length` is taken as it stands, zero or not, and
    /// the checksum is not verified here.
    pub fn decode(bytes: &[u8]) -> (out: Result<BackupContent, BackupError>)
        ensures
            match out {
                Ok(c) => decode_content(bytes@) == Some(c@),
                Err(e) => decode_content(bytes@) is None && e == BackupError::MalformedEncoding,
            },
    {
        let mut checksum: Option<Vec<u8>> = None;
        let mut metadata: Option<BackupMetaData> = None;
        let mut length: Option<u32> = None;
        let mut data: Option<Vec<u8>> = None;
        let mut rest: &[u8] = bytes;
        while rest.len() > 0
            invariant
                fold_fields(
                    bytes@,
                    ContentParts { checksum: None, metadata: None, length: None, data: None },
                    content_stepper(),
                ) == fold_fields(
                    rest@,
                    ContentParts {
                        checksum: bytes_view(checksum),
                        metadata: option_view(metadata),
                        length,
                        data: bytes_view(data),
                    },
                    content_stepper(),
                ),
            decreases rest@.len(),
        {
            proof {
                lemma_fold_fields_unfold(rest@, ContentParts {
                        checksum: bytes_view(checksum),
                        metadata: option_view(metadata),
                        length,
                        data: bytes_view(data),
                    }, content_stepper());
            }
            let (f, n) = match read_field(rest) {
                Some(read) => read,
                None => {
                    return Err(BackupError::MalformedEncoding);
                },
            };
            if f.tag == 1 {
                if f.wire != WireType::LengthDelimited || checksum.is_some() {
                    return Err(BackupError::MalformedEncoding);
                }
                checksum = Some(slice_to_vec(f.payload));
            } else if f.tag == 2 {
                if f.wire != WireType::LengthDelimited || metadata.is_some() {
                    return Err(BackupError::MalformedEncoding);
                }
                match BackupMetaData::decode(f.payload) {
                    Ok(m) => {
                        metadata = Some(m);
                    },
                    Err(e) => {
                        return Err(e);
                    },
                }
            } else if f.tag == 3 {
                if f.wire != WireType::Varint || length.is_some() {
                    return Err(BackupError::MalformedEncoding);
                }
                length = Some(take_u32(f.value));
            } else if f.tag == 4 {
                if f.wire != WireType::LengthDelimited || data.is_some() {
                    return Err(BackupError::MalformedEncoding);
                }
                data = Some(slice_to_vec(f.payload));
            }
            rest = slice_subrange(rest, n, rest.len());
        }
        proof {
            assert(rest@ =~= Seq::<u8>::empty());
            lemma_fold_fields_end(
                ContentParts {
                    checksum: bytes_view(checksum),
                    metadata: option_view(metadata),
                    length,
                    data: bytes_view(data),
                },
                content_stepper(),
            );
        }
        Ok(
            BackupContent {
                checksum: bytes_or_empty(checksum),
                metadata,
                length: u32_or_zero(length),
                data: bytes_or_empty(data),
            },
        )
    }
}

impl BackupV1 {
    /// Decodes a record of the first format, the content inside it included.
    /// Fails with `MalformedEncoding` exactly where the format does not give
    /// `bytes` a meaning.
    pub fn decode(bytes: &[u8]) -> (out: Result<BackupV1, BackupError>)
        ensures
            match out {
                Ok(v) => decode_v1(bytes@) == Some(v@),
                Err(e) => decode_v1(bytes@) is None && e == BackupError::MalformedEncoding,
            },
    {
        let mut content: Option<BackupContent> = None;
        let mut rest: &[u8] = bytes;
        while rest.len() > 0
            invariant
                fold_fields(bytes@, BackupV1View { content: None }, v1_stepper()) == fold_fields(
                    rest@,
                    BackupV1View { content: option_view(content) },
                    v1_stepper(),
                ),
            decreases rest@.len(),
        {
            proof {
                lemma_fold_fields_unfold(rest@, BackupV1View { content: option_view(content) }, v1_stepper());
            }
            let (f, n) = match read_field(rest) {
                Some(read) => read,
                None => {
                    return Err(BackupError::MalformedEncoding);
                },
            };
            if f.tag == 1 {
                if f.wire != WireType::LengthDelimited || content.is_some() {
                    return Err(BackupError::MalformedEncoding);
                }
                match BackupContent::decode(f.payload) {
                    Ok(c) => {
                        content = Some(c);
                    },
                    Err(e) => {
                        return Err(e);
                    },
                }
            }
            rest = slice_subrange(rest, n, rest.len());
        }
        proof {
            assert(rest@ =~= Seq::<u8>::empty());
            lemma_fold_fields_end(
                BackupV1View { content: option_view(content) },
                v1_stepper(),
            );
        }
        Ok(BackupV1 { content })
    }
}

impl Backup {
    /// Decodes an envelope, the record inside it included. Fails with
    /// `MalformedEncoding` exactly where the format does not give `bytes` a
    /// meaning. A field under a tag that stands for no known format is no
    /// error: once its framing has been checked, the envelope comes back
    /// holding that tag as unrecognized, unless it holds a known format.
    pub fn decode(bytes: &[u8]) -> (out: Result<Backup, BackupError>)
        ensures
            match out {
                Ok(b) => decode_backup(bytes@) == Some(b@),
                Err(e) => decode_backup(bytes@) is None && e == BackupError::MalformedEncoding,
            },
    {
        let mut version: Option<BackupVersion> = None;
        let mut rest: &[u8] = bytes;
        while rest.len() > 0
            invariant
                fold_fields(bytes@, BackupView { backup_version: None }, backup_stepper())
                    == fold_fields(
                    rest@,
                    BackupView { backup_version: option_view(version) },
                    backup_stepper(),
                ),
            decreases rest@.len(),
        {
            proof {
                lemma_fold_fields_unfold(rest@, BackupView { backup_version: option_view(version) }, backup_stepper());
            }
            let (f, n) = match read_field(rest) {
                Some(read) => read,
                None => {
                    return Err(BackupError::MalformedEncoding);
                },
            };
            if f.tag == 1 {
                if f.wire != WireType::LengthDelimited {
                    return Err(BackupError::MalformedEncoding);
                }
                match &version {
                    Some(BackupVersion::BackupV1(_)) => {
                        return Err(BackupError::MalformedEncoding);
                    },
                    _ => {},
                }
                match BackupV1::decode(f.payload) {
                    Ok(v) => {
                        version = Some(BackupVersion::BackupV1(v));
                    },
                    Err(e) => {
                        return Err(e);
                    },
                }
            } else if version.is_none() {
                version = Some(BackupVersion::Unrecognized(f.tag));
            }
            rest = slice_subrange(rest, n, rest.len());
        }
        proof {
            assert(rest@ =~= Seq::<u8>::empty());
            lemma_fold_fields_end(
                BackupView { backup_version: option_view(version) },
                backup_stepper(),
            );
        }
        Ok(Backup { backup_version: version })
    }
}

} // verus!
