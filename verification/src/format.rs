//! The byte format of every record, as mathematics: the one canonical
//! encoding of a record, and what a byte string decodes to.
//!
//! Encoding writes the fields in ascending tag order, each at most once,
//! integers in their shortest form, and leaves out every field that holds its
//! zero value (an empty string or byte string, the integer zero, an absent
//! record).
//!
//! Decoding reads fields to the end of the input. A field that the record
//! knows must have the wire type of its kind and may occur once; a field
//! that it does not know is passed over once its framing has been checked. A
//! field that is missing decodes to its zero value.
use crate::backup::BackupVersionView;
use crate::schema::BackupContentView;
use crate::schema::BackupDataView;
use crate::schema::BackupMetaDataView;
use crate::schema::BackupV1View;
use crate::schema::BackupView;
use crate::wire::bytes_field;
use crate::wire::fold_fields;
use crate::wire::varint_field;
use crate::wire::Field;
use crate::wire::WireType;
use vstd::prelude::*;
use vstd::utf8::decode_utf8;
use vstd::utf8::encode_utf8;
use vstd::utf8::valid_utf8;

verus! {

/// What a signed 32-bit field puts on the wire: its value extended to 64
/// bits, read as unsigned.
pub open spec fn int32_bits(value: i32) -> nat {
    if value >= 0 {
        value as nat
    } else {
        (0x1_0000_0000_0000_0000 + value) as nat
    }
}

/// What an unsigned 32-bit field takes from a varint: its low 32 bits.
pub open spec fn low_u32(value: nat) -> u32 {
    (value % 0x1_0000_0000) as u32
}

/// What a signed 32-bit field takes from a varint: its low 32 bits, read as
/// signed.
pub open spec fn low_i32(value: nat) -> i32 {
    let low = value % 0x1_0000_0000;
    if low < 0x8000_0000 {
        low as i32
    } else {
        (low - 0x1_0000_0000) as i32
    }
}

/// An unsigned 32-bit field; nothing where the value is zero.
pub open spec fn uint32_field(tag: u32, value: u32) -> Seq<u8> {
    if value == 0 {
        Seq::empty()
    } else {
        varint_field(tag, value as nat)
    }
}

/// A signed 32-bit field; nothing where the value is zero.
pub open spec fn int32_field(tag: u32, value: i32) -> Seq<u8> {
    if value == 0 {
        Seq::empty()
    } else {
        varint_field(tag, int32_bits(value))
    }
}

/// A field of bytes; nothing where there are none.
pub open spec fn nonempty_bytes_field(tag: u32, payload: Seq<u8>) -> Seq<u8> {
    if payload.len() == 0 {
        Seq::empty()
    } else {
        bytes_field(tag, payload)
    }
}

/// A field of text, as UTF-8; nothing where the text is empty.
pub open spec fn string_field(tag: u32, text: Seq<char>) -> Seq<u8> {
    if text.len() == 0 {
        Seq::empty()
    } else {
        bytes_field(tag, encode_utf8(text))
    }
}

/// A field that holds an encoded record; nothing where the record is absent.
/// A record that is present is written even where its encoding is empty.
pub open spec fn record_field(tag: u32, body: Option<Seq<u8>>) -> Seq<u8> {
    match body {
        Some(bytes) => bytes_field(tag, bytes),
        None => Seq::empty(),
    }
}

/// The canonical encoding of a [`BackupMetaDataView`]: `timestamp` under
/// tag 1, `name` under 2, `mode` under 3.
pub open spec fn encode_metadata(m: BackupMetaDataView) -> Seq<u8> {
    uint32_field(1, m.timestamp) + string_field(2, m.name) + int32_field(3, m.mode)
}

/// The canonical encoding of a [`BackupDataView`]: `seed_length` under tag 1,
/// `seed` under 2, `birthdate` under 3, `generator` under 4.
pub open spec fn encode_data(d: BackupDataView) -> Seq<u8> {
    uint32_field(1, d.seed_length) + nonempty_bytes_field(2, d.seed) + uint32_field(
        3,
        d.birthdate,
    ) + string_field(4, d.generator)
}

/// The encoding of the metadata inside a content record, if there is any.
pub open spec fn encode_optional_metadata(m: Option<BackupMetaDataView>) -> Option<Seq<u8>> {
    match m {
        Some(m) => Some(encode_metadata(m)),
        None => None,
    }
}

/// The canonical encoding of a [`BackupContentView`]: `checksum` under tag 1,
/// `metadata` under 2, `length` under 3, `data` under 4.
pub open spec fn encode_content(c: BackupContentView) -> Seq<u8> {
    nonempty_bytes_field(1, c.checksum) + record_field(2, encode_optional_metadata(c.metadata))
        + uint32_field(3, c.length) + nonempty_bytes_field(4, c.data)
}

/// The canonical encoding of a [`BackupV1View`]: `content` under tag 1.
pub open spec fn encode_v1(v: BackupV1View) -> Seq<u8> {
    record_field(
        1,
        match v.content {
            Some(c) => Some(encode_content(c)),
            None => None,
        },
    )
}

/// Whether an envelope can be written: it holds no format that this build
/// does not know.
pub open spec fn encodable(b: BackupView) -> bool {
    !(b.backup_version matches Some(BackupVersionView::Unrecognized(_)))
}

/// The canonical encoding of a [`BackupView`] that holds nothing
/// unrecognized: the first format under tag 1.
pub open spec fn encode_backup(b: BackupView) -> Seq<u8>
    recommends
        encodable(b),
{
    match b.backup_version {
        Some(BackupVersionView::BackupV1(v)) => bytes_field(1, encode_v1(v)),
        _ => Seq::empty(),
    }
}

/// The fields of a metadata record that have been read so far.
pub struct MetaDataParts {
    pub timestamp: Option<u32>,
    pub name: Option<Seq<char>>,
    pub mode: Option<i32>,
}

/// Takes one field into a metadata record.
pub open spec fn metadata_step(acc: MetaDataParts, f: Field) -> Option<MetaDataParts> {
    if f.tag == 1 {
        if f.wire == WireType::Varint && acc.timestamp is None {
            Some(MetaDataParts { timestamp: Some(low_u32(f.value)), ..acc })
        } else {
            None
        }
    } else if f.tag == 2 {
        if f.wire == WireType::LengthDelimited && acc.name is None && valid_utf8(f.payload) {
            Some(MetaDataParts { name: Some(decode_utf8(f.payload)), ..acc })
        } else {
            None
        }
    } else if f.tag == 3 {
        if f.wire == WireType::Varint && acc.mode is None {
            Some(MetaDataParts { mode: Some(low_i32(f.value)), ..acc })
        } else {
            None
        }
    } else {
        Some(acc)
    }
}

/// [`metadata_step`] as a value.
pub open spec fn metadata_stepper() -> spec_fn(MetaDataParts, Field) -> Option<MetaDataParts> {
    |acc: MetaDataParts, f: Field| metadata_step(acc, f)
}

/// The record that the fields read make, zero values in place of those that
/// were missing.
pub open spec fn metadata_of_parts(p: MetaDataParts) -> BackupMetaDataView {
    BackupMetaDataView {
        timestamp: match p.timestamp {
            Some(t) => t,
            None => 0,
        },
        name: match p.name {
            Some(n) => n,
            None => Seq::empty(),
        },
        mode: match p.mode {
            Some(m) => m,
            None => 0,
        },
    }
}

/// What `b` decodes to as a metadata record; `None` where it is malformed.
pub open spec fn decode_metadata(b: Seq<u8>) -> Option<BackupMetaDataView> {
    match fold_fields(
        b,
        MetaDataParts { timestamp: None, name: None, mode: None },
        metadata_stepper(),
    ) {
        Some(p) => Some(metadata_of_parts(p)),
        None => None,
    }
}

/// The fields of a data record that have been read so far.
pub struct DataParts {
    pub seed_length: Option<u32>,
    pub seed: Option<Seq<u8>>,
    pub birthdate: Option<u32>,
    pub generator: Option<Seq<char>>,
}

/// Takes one field into a data record.
pub open spec fn data_step(acc: DataParts, f: Field) -> Option<DataParts> {
    if f.tag == 1 {
        if f.wire == WireType::Varint && acc.seed_length is None {
            Some(DataParts { seed_length: Some(low_u32(f.value)), ..acc })
        } else {
            None
        }
    } else if f.tag == 2 {
        if f.wire == WireType::LengthDelimited && acc.seed is None {
            Some(DataParts { seed: Some(f.payload), ..acc })
        } else {
            None
        }
    } else if f.tag == 3 {
        if f.wire == WireType::Varint && acc.birthdate is None {
            Some(DataParts { birthdate: Some(low_u32(f.value)), ..acc })
        } else {
            None
        }
    } else if f.tag == 4 {
        if f.wire == WireType::LengthDelimited && acc.generator is None && valid_utf8(f.payload) {
            Some(DataParts { generator: Some(decode_utf8(f.payload)), ..acc })
        } else {
            None
        }
    } else {
        Some(acc)
    }
}

/// [`data_step`] as a value.
pub open spec fn data_stepper() -> spec_fn(DataParts, Field) -> Option<DataParts> {
    |acc: DataParts, f: Field| data_step(acc, f)
}

/// The record that the fields read make, zero values in place of those that
/// were missing.
pub open spec fn data_of_parts(p: DataParts) -> BackupDataView {
    BackupDataView {
        seed_length: match p.seed_length {
            Some(n) => n,
            None => 0,
        },
        seed: match p.seed {
            Some(s) => s,
            None => Seq::empty(),
        },
        birthdate: match p.birthdate {
            Some(t) => t,
            None => 0,
        },
        generator: match p.generator {
            Some(g) => g,
            None => Seq::empty(),
        },
    }
}

/// What `b` decodes to as a data record; `None` where it is malformed.
pub open spec fn decode_data(b: Seq<u8>) -> Option<BackupDataView> {
    match fold_fields(
        b,
        DataParts { seed_length: None, seed: None, birthdate: None, generator: None },
        data_stepper(),
    ) {
        Some(p) => Some(data_of_parts(p)),
        None => None,
    }
}

/// The fields of a content record that have been read so far.
pub struct ContentParts {
    pub checksum: Option<Seq<u8>>,
    pub metadata: Option<BackupMetaDataView>,
    pub length: Option<u32>,
    pub data: Option<Seq<u8>>,
}

/// Takes one field into a content record. The metadata inside it must
/// decode in its turn.
pub open spec fn content_step(acc: ContentParts, f: Field) -> Option<ContentParts> {
    if f.tag == 1 {
        if f.wire == WireType::LengthDelimited && acc.checksum is None {
            Some(ContentParts { checksum: Some(f.payload), ..acc })
        } else {
            None
        }
    } else if f.tag == 2 {
        if f.wire == WireType::LengthDelimited && acc.metadata is None && decode_metadata(
            f.payload,
        ) is Some {
            Some(ContentParts { metadata: decode_metadata(f.payload), ..acc })
        } else {
            None
        }
    } else if f.tag == 3 {
        if f.wire == WireType::Varint && acc.length is None {
            Some(ContentParts { length: Some(low_u32(f.value)), ..acc })
        } else {
            None
        }
    } else if f.tag == 4 {
        if f.wire == WireType::LengthDelimited && acc.data is None {
            Some(ContentParts { data: Some(f.payload), ..acc })
        } else {
            None
        }
    } else {
        Some(acc)
    }
}

/// [`content_step`] as a value.
pub open spec fn content_stepper() -> spec_fn(ContentParts, Field) -> Option<ContentParts> {
    |acc: ContentParts, f: Field| content_step(acc, f)
}

/// The record that the fields read make, zero values in place of those that
/// were missing.
pub open spec fn content_of_parts(p: ContentParts) -> BackupContentView {
    BackupContentView {
        checksum: match p.checksum {
            Some(c) => c,
            None => Seq::empty(),
        },
        metadata: p.metadata,
        length: match p.length {
            Some(n) => n,
            None => 0,
        },
        data: match p.data {
            Some(d) => d,
            None => Seq::empty(),
        },
    }
}

/// What `b` decodes to as a content record; `None` where it is malformed.
/// Neither `length` nor `checksum` is held against `data` here.
pub open spec fn decode_content(b: Seq<u8>) -> Option<BackupContentView> {
    match fold_fields(
        b,
        ContentParts { checksum: None, metadata: None, length: None, data: None },
        content_stepper(),
    ) {
        Some(p) => Some(content_of_parts(p)),
        None => None,
    }
}

/// Takes one field into a record of the first format. The content inside it
/// must decode in its turn.
pub open spec fn v1_step(acc: BackupV1View, f: Field) -> Option<BackupV1View> {
    if f.tag == 1 {
        if f.wire == WireType::LengthDelimited && acc.content is None && decode_content(
            f.payload,
        ) is Some {
            Some(BackupV1View { content: decode_content(f.payload) })
        } else {
            None
        }
    } else {
        Some(acc)
    }
}

/// [`v1_step`] as a value.
pub open spec fn v1_stepper() -> spec_fn(BackupV1View, Field) -> Option<BackupV1View> {
    |acc: BackupV1View, f: Field| v1_step(acc, f)
}

/// What `b` decodes to as a record of the first format; `None` where it is
/// malformed.
pub open spec fn decode_v1(b: Seq<u8>) -> Option<BackupV1View> {
    fold_fields(b, BackupV1View { content: None }, v1_stepper())
}

/// Takes one field into an envelope. Tag 1 is the first format, which must
/// decode in its turn and may occur once. Every other tag stands for a format
/// that this build does not know: where nothing else has been seen, the
/// envelope remembers the tag of the first such field. A known format, once
/// seen, stays.
pub open spec fn backup_step(acc: BackupView, f: Field) -> Option<BackupView> {
    if f.tag == 1 {
        if f.wire == WireType::LengthDelimited && !(acc.backup_version matches Some(
            BackupVersionView::BackupV1(_),
        )) {
            match decode_v1(f.payload) {
                Some(v) => Some(BackupView { backup_version: Some(BackupVersionView::BackupV1(v)) }),
                None => None,
            }
        } else {
            None
        }
    } else if acc.backup_version is None {
        Some(BackupView { backup_version: Some(BackupVersionView::Unrecognized(f.tag)) })
    } else {
        Some(acc)
    }
}

/// [`backup_step`] as a value.
pub open spec fn backup_stepper() -> spec_fn(BackupView, Field) -> Option<BackupView> {
    |acc: BackupView, f: Field| backup_step(acc, f)
}

/// What `b` decodes to as an envelope; `None` where it is malformed.
pub open spec fn decode_backup(b: Seq<u8>) -> Option<BackupView> {
    fold_fields(b, BackupView { backup_version: None }, backup_stepper())
}

} // verus!
