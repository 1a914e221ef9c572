//! What holds of the format as a whole: decoding undoes encoding.
use crate::backup::BackupVersionView;
use crate::format::backup_stepper;
use crate::format::content_of_parts;
use crate::format::content_step;
use crate::format::content_stepper;
use crate::format::data_of_parts;
use crate::format::data_stepper;
use crate::format::decode_backup;
use crate::format::decode_content;
use crate::format::decode_data;
use crate::format::decode_metadata;
use crate::format::decode_v1;
use crate::format::encodable;
use crate::format::encode_backup;
use crate::format::encode_content;
use crate::format::encode_data;
use crate::format::encode_metadata;
use crate::format::encode_optional_metadata;
use crate::format::encode_v1;
use crate::format::int32_bits;
use crate::format::int32_field;
use crate::format::low_i32;
use crate::format::metadata_of_parts;
use crate::format::metadata_stepper;
use crate::format::nonempty_bytes_field;
use crate::format::record_field;
use crate::format::string_field;
use crate::format::uint32_field;
use crate::format::v1_stepper;
use crate::format::ContentParts;
use crate::format::DataParts;
use crate::format::MetaDataParts;
use crate::schema::BackupContentView;
use crate::schema::BackupDataView;
use crate::schema::BackupMetaDataView;
use crate::schema::BackupV1View;
use crate::schema::BackupView;
use crate::wire::bytes_field;
use crate::wire::fold_fields;
use crate::wire::lemma_fold_fields_end;
use crate::wire::lemma_fold_fields_first;
use crate::wire::lemma_parse_bytes_field;
use crate::wire::lemma_parse_varint_field;
use crate::wire::valid_tag;
use crate::wire::Field;
use crate::wire::WireType;
use vstd::arithmetic::div_mod::lemma_fundamental_div_mod_converse;
use vstd::prelude::*;
use vstd::utf8::encode_utf8;
use vstd::utf8::encode_utf8_decode_utf8;
use vstd::utf8::encode_utf8_valid_utf8;

verus! {

/// A byte string whose length can stand in a length prefix.
pub open spec fn fits(b: Seq<u8>) -> bool {
    b.len() <= u64::MAX
}

impl BackupMetaDataView {
    /// Every value held by a [`crate::schema::BackupMetaData`] is
    /// representable: its text is short enough for a length prefix.
    pub open spec fn representable(self) -> bool {
        fits(encode_utf8(self.name))
    }
}

impl BackupDataView {
    /// Every value held by a [`crate::schema::BackupData`] is representable:
    /// its seed and its text are short enough for a length prefix.
    pub open spec fn representable(self) -> bool {
        fits(self.seed) && fits(encode_utf8(self.generator))
    }
}

impl BackupContentView {
    /// A content record whose byte strings, and whose encoded metadata, are
    /// short enough for a length prefix.
    pub open spec fn representable(self) -> bool {
        &&& fits(self.checksum)
        &&& fits(self.data)
        &&& match self.metadata {
            Some(m) => m.representable() && fits(encode_metadata(m)),
            None => true,
        }
    }
}

impl BackupV1View {
    /// A record whose content is representable and, encoded, short enough
    /// for a length prefix.
    pub open spec fn representable(self) -> bool {
        match self.content {
            Some(c) => c.representable() && fits(encode_content(c)),
            None => true,
        }
    }
}

impl BackupView {
    /// An envelope that can be written, and whose record is representable
    /// and, encoded, short enough for a length prefix.
    pub open spec fn representable(self) -> bool {
        match self.backup_version {
            Some(BackupVersionView::BackupV1(v)) => v.representable() && fits(encode_v1(v)),
            Some(BackupVersionView::Unrecognized(_)) => false,
            None => true,
        }
    }
}

/// A signed 32-bit value comes back from the varint it was written as.
pub proof fn lemma_low_i32_of_bits(value: i32)
    ensures
        low_i32(int32_bits(value)) == value,
        int32_bits(value) <= u64::MAX,
{
    if value < 0 {
        let bits = int32_bits(value) as int;
        let low = 0x1_0000_0000 + value;
        assert(bits == 0xFFFF_FFFF * 0x1_0000_0000 + low);
        lemma_fundamental_div_mod_converse(bits, 0x1_0000_0000, 0xFFFF_FFFF, low);
    }
}

/// What a fold comes to after one field has been handed to `step`.
pub open spec fn after_field<A>(
    acc: A,
    f: Field,
    rest: Seq<u8>,
    step: spec_fn(A, Field) -> Option<A>,
) -> Option<A> {
    match step(acc, f) {
        Some(next) => fold_fields(rest, next, step),
        None => None,
    }
}

/// Folding over an unsigned 32-bit field and what follows it.
pub proof fn lemma_fold_uint32<A>(
    tag: u32,
    value: u32,
    rest: Seq<u8>,
    acc: A,
    step: spec_fn(A, Field) -> Option<A>,
)
    requires
        valid_tag(tag),
    ensures
        fold_fields(uint32_field(tag, value) + rest, acc, step) == if value == 0 {
            fold_fields(rest, acc, step)
        } else {
            after_field(
                acc,
                Field { tag, wire: WireType::Varint, value: value as nat, payload: Seq::empty() },
                rest,
                step,
            )
        },
{
    if value == 0 {
        assert(uint32_field(tag, value) + rest =~= rest);
    } else {
        lemma_parse_varint_field(tag, value as nat, rest);
        lemma_fold_fields_first(
            uint32_field(tag, value),
            Field { tag, wire: WireType::Varint, value: value as nat, payload: Seq::empty() },
            rest,
            acc,
            step,
        );
    }
}

/// Folding over a signed 32-bit field and what follows it.
pub proof fn lemma_fold_int32<A>(
    tag: u32,
    value: i32,
    rest: Seq<u8>,
    acc: A,
    step: spec_fn(A, Field) -> Option<A>,
)
    requires
        valid_tag(tag),
    ensures
        fold_fields(int32_field(tag, value) + rest, acc, step) == if value == 0 {
            fold_fields(rest, acc, step)
        } else {
            after_field(
                acc,
                Field {
                    tag,
                    wire: WireType::Varint,
                    value: int32_bits(value),
                    payload: Seq::empty(),
                },
                rest,
                step,
            )
        },
{
    if value == 0 {
        assert(int32_field(tag, value) + rest =~= rest);
    } else {
        lemma_low_i32_of_bits(value);
        lemma_parse_varint_field(tag, int32_bits(value), rest);
        lemma_fold_fields_first(
            int32_field(tag, value),
            Field { tag, wire: WireType::Varint, value: int32_bits(value), payload: Seq::empty() },
            rest,
            acc,
            step,
        );
    }
}

/// Folding over a length-delimited field and what follows it.
pub proof fn lemma_fold_bytes<A>(
    tag: u32,
    payload: Seq<u8>,
    rest: Seq<u8>,
    acc: A,
    step: spec_fn(A, Field) -> Option<A>,
)
    requires
        valid_tag(tag),
        fits(payload),
    ensures
        fold_fields(bytes_field(tag, payload) + rest, acc, step) == after_field(
            acc,
            Field { tag, wire: WireType::LengthDelimited, value: 0, payload },
            rest,
            step,
        ),
{
    lemma_parse_bytes_field(tag, payload, rest);
    lemma_fold_fields_first(
        bytes_field(tag, payload),
        Field { tag, wire: WireType::LengthDelimited, value: 0, payload },
        rest,
        acc,
        step,
    );
}

/// Folding over a field of bytes that is left out when empty, and what
/// follows it.
pub proof fn lemma_fold_nonempty_bytes<A>(
    tag: u32,
    payload: Seq<u8>,
    rest: Seq<u8>,
    acc: A,
    step: spec_fn(A, Field) -> Option<A>,
)
    requires
        valid_tag(tag),
        fits(payload),
    ensures
        fold_fields(nonempty_bytes_field(tag, payload) + rest, acc, step) == if payload.len()
            == 0 {
            fold_fields(rest, acc, step)
        } else {
            after_field(
                acc,
                Field { tag, wire: WireType::LengthDelimited, value: 0, payload },
                rest,
                step,
            )
        },
{
    if payload.len() == 0 {
        assert(nonempty_bytes_field(tag, payload) + rest =~= rest);
    } else {
        lemma_fold_bytes(tag, payload, rest, acc, step);
    }
}

/// Folding over a field of text and what follows it.
pub proof fn lemma_fold_string<A>(
    tag: u32,
    text: Seq<char>,
    rest: Seq<u8>,
    acc: A,
    step: spec_fn(A, Field) -> Option<A>,
)
    requires
        valid_tag(tag),
        fits(encode_utf8(text)),
    ensures
        fold_fields(string_field(tag, text) + rest, acc, step) == if text.len() == 0 {
            fold_fields(rest, acc, step)
        } else {
            after_field(
                acc,
                Field { tag, wire: WireType::LengthDelimited, value: 0, payload: encode_utf8(text) },
                rest,
                step,
            )
        },
{
    if text.len() == 0 {
        assert(string_field(tag, text) + rest =~= rest);
    } else {
        lemma_fold_bytes(tag, encode_utf8(text), rest, acc, step);
    }
}

/// Folding over a field that holds a record, if there is one, and what
/// follows it.
pub proof fn lemma_fold_record<A>(
    tag: u32,
    body: Option<Seq<u8>>,
    rest: Seq<u8>,
    acc: A,
    step: spec_fn(A, Field) -> Option<A>,
)
    requires
        valid_tag(tag),
        body matches Some(b) ==> fits(b),
    ensures
        fold_fields(record_field(tag, body) + rest, acc, step) == match body {
            Some(b) => after_field(
                acc,
                Field { tag, wire: WireType::LengthDelimited, value: 0, payload: b },
                rest,
                step,
            ),
            None => fold_fields(rest, acc, step),
        },
{
    match body {
        Some(b) => {
            lemma_fold_bytes(tag, b, rest, acc, step);
        },
        None => {
            assert(record_field(tag, body) + rest =~= rest);
        },
    }
}

/// Decoding the canonical encoding of a metadata record gives the record
/// back.
pub proof fn lemma_metadata_roundtrip(m: BackupMetaDataView)
    requires
        m.representable(),
    ensures
        decode_metadata(encode_metadata(m)) == Some(m),
{
    let step = metadata_stepper();
    let none = Seq::<u8>::empty();
    let r2 = int32_field(3, m.mode) + none;
    let r1 = string_field(2, m.name) + r2;
    let r0 = uint32_field(1, m.timestamp) + r1;
    let a0 = MetaDataParts { timestamp: None, name: None, mode: None };
    let a1 = MetaDataParts { timestamp: if m.timestamp == 0 { None } else { Some(m.timestamp) }, ..a0 };
    let a2 = MetaDataParts { name: if m.name.len() == 0 { None } else { Some(m.name) }, ..a1 };
    let a3 = MetaDataParts { mode: if m.mode == 0 { None } else { Some(m.mode) }, ..a2 };
    assert(encode_metadata(m) == r0) by {
        assert(encode_metadata(m) =~= r0);
    }
    assert(fold_fields(r0, a0, step) == fold_fields(r1, a1, step)) by {
        lemma_fold_uint32(1, m.timestamp, r1, a0, step);
    }
    assert(fold_fields(r1, a1, step) == fold_fields(r2, a2, step)) by {
        encode_utf8_valid_utf8(m.name);
        encode_utf8_decode_utf8(m.name);
        lemma_fold_string(2, m.name, r2, a1, step);
    }
    assert(fold_fields(r2, a2, step) == fold_fields(none, a3, step)) by {
        lemma_low_i32_of_bits(m.mode);
        lemma_fold_int32(3, m.mode, none, a2, step);
    }
    lemma_fold_fields_end(a3, step);
    assert(metadata_of_parts(a3) == m) by {
        assert(m.name.len() == 0 ==> m.name =~= Seq::<char>::empty());
    }
}

/// Decoding the canonical encoding of a data record gives the record back.
pub proof fn lemma_data_roundtrip(d: BackupDataView)
    requires
        d.representable(),
    ensures
        decode_data(encode_data(d)) == Some(d),
{
    let step = data_stepper();
    let none = Seq::<u8>::empty();
    let r3 = string_field(4, d.generator) + none;
    let r2 = uint32_field(3, d.birthdate) + r3;
    let r1 = nonempty_bytes_field(2, d.seed) + r2;
    let r0 = uint32_field(1, d.seed_length) + r1;
    let a0 = DataParts { seed_length: None, seed: None, birthdate: None, generator: None };
    let a1 = DataParts {
        seed_length: if d.seed_length == 0 { None } else { Some(d.seed_length) },
        ..a0
    };
    let a2 = DataParts { seed: if d.seed.len() == 0 { None } else { Some(d.seed) }, ..a1 };
    let a3 = DataParts { birthdate: if d.birthdate == 0 { None } else { Some(d.birthdate) }, ..a2 };
    let a4 = DataParts {
        generator: if d.generator.len() == 0 { None } else { Some(d.generator) },
        ..a3
    };
    assert(encode_data(d) == r0) by {
        assert(encode_data(d) =~= r0);
    }
    assert(fold_fields(r0, a0, step) == fold_fields(r1, a1, step)) by {
        lemma_fold_uint32(1, d.seed_length, r1, a0, step);
    }
    assert(fold_fields(r1, a1, step) == fold_fields(r2, a2, step)) by {
        lemma_fold_nonempty_bytes(2, d.seed, r2, a1, step);
    }
    assert(fold_fields(r2, a2, step) == fold_fields(r3, a3, step)) by {
        lemma_fold_uint32(3, d.birthdate, r3, a2, step);
    }
    assert(fold_fields(r3, a3, step) == fold_fields(none, a4, step)) by {
        encode_utf8_valid_utf8(d.generator);
        encode_utf8_decode_utf8(d.generator);
        lemma_fold_string(4, d.generator, none, a3, step);
    }
    lemma_fold_fields_end(a4, step);
    assert(data_of_parts(a4) == d) by {
        assert(d.generator.len() == 0 ==> d.generator =~= Seq::<char>::empty());
        assert(d.seed.len() == 0 ==> d.seed =~= Seq::<u8>::empty());
    }
}

/// Folding a content record over its metadata field, if there is one, takes
/// the metadata in.
proof fn lemma_content_metadata_step(
    metadata: Option<BackupMetaDataView>,
    rest: Seq<u8>,
    acc: ContentParts,
)
    requires
        acc.metadata is None,
        metadata matches Some(m) ==> m.representable() && fits(encode_metadata(m)),
    ensures
        fold_fields(
            record_field(2, encode_optional_metadata(metadata)) + rest,
            acc,
            content_stepper(),
        ) == fold_fields(rest, ContentParts { metadata, ..acc }, content_stepper()),
{
    let body = encode_optional_metadata(metadata);
    lemma_fold_record(2, body, rest, acc, content_stepper());
    match metadata {
        Some(m) => {
            lemma_metadata_roundtrip(m);
            let f = Field {
                tag: 2,
                wire: WireType::LengthDelimited,
                value: 0,
                payload: encode_metadata(m),
            };
            assert(content_step(acc, f) == Some(ContentParts { metadata, ..acc }));
        },
        None => {},
    }
}

/// Decoding the canonical encoding of a content record gives the record
/// back.
pub proof fn lemma_content_roundtrip(c: BackupContentView)
    requires
        c.representable(),
    ensures
        decode_content(encode_content(c)) == Some(c),
{
    let step = content_stepper();
    let body = encode_optional_metadata(c.metadata);
    let none = Seq::<u8>::empty();
    let r3 = nonempty_bytes_field(4, c.data) + none;
    let r2 = uint32_field(3, c.length) + r3;
    let r1 = record_field(2, body) + r2;
    let r0 = nonempty_bytes_field(1, c.checksum) + r1;
    let a0 = ContentParts { checksum: None, metadata: None, length: None, data: None };
    let a1 = ContentParts {
        checksum: if c.checksum.len() == 0 { None } else { Some(c.checksum) },
        ..a0
    };
    let a2 = ContentParts { metadata: c.metadata, ..a1 };
    let a3 = ContentParts { length: if c.length == 0 { None } else { Some(c.length) }, ..a2 };
    let a4 = ContentParts { data: if c.data.len() == 0 { None } else { Some(c.data) }, ..a3 };
    assert(encode_content(c) == r0) by {
        assert(encode_content(c) =~= r0);
    }
    assert(fold_fields(r0, a0, step) == fold_fields(r1, a1, step)) by {
        lemma_fold_nonempty_bytes(1, c.checksum, r1, a0, step);
    }
    assert(fold_fields(r1, a1, step) == fold_fields(r2, a2, step)) by {
        lemma_content_metadata_step(c.metadata, r2, a1);
    }
    assert(fold_fields(r2, a2, step) == fold_fields(r3, a3, step)) by {
        lemma_fold_uint32(3, c.length, r3, a2, step);
    }
    assert(fold_fields(r3, a3, step) == fold_fields(none, a4, step)) by {
        lemma_fold_nonempty_bytes(4, c.data, none, a3, step);
    }
    lemma_fold_fields_end(a4, step);
    assert(content_of_parts(a4) == c) by {
        assert(c.checksum.len() == 0 ==> c.checksum =~= Seq::<u8>::empty());
        assert(c.data.len() == 0 ==> c.data =~= Seq::<u8>::empty());
    }
}

/// Decoding the canonical encoding of a record of the first format gives
/// the record back.
pub proof fn lemma_v1_roundtrip(v: BackupV1View)
    requires
        v.representable(),
    ensures
        decode_v1(encode_v1(v)) == Some(v),
{
    let step = v1_stepper();
    let a0 = BackupV1View { content: None };
    let none = Seq::<u8>::empty();
    let body = match v.content {
        Some(c) => Some(encode_content(c)),
        None => None,
    };
    if let Some(c) = v.content {
        lemma_content_roundtrip(c);
    }
    assert(encode_v1(v) =~= record_field(1, body) + none);
    lemma_fold_record(1, body, none, a0, step);
    lemma_fold_fields_end(v, step);
}

/// Decoding the canonical encoding of an envelope gives the envelope back.
pub proof fn lemma_backup_roundtrip(b: BackupView)
    requires
        b.representable(),
    ensures
        encodable(b),
        decode_backup(encode_backup(b)) == Some(b),
{
    let step = backup_stepper();
    let a0 = BackupView { backup_version: None };
    let none = Seq::<u8>::empty();
    match b.backup_version {
        Some(BackupVersionView::BackupV1(v)) => {
            lemma_v1_roundtrip(v);
            assert(encode_backup(b) =~= bytes_field(1, encode_v1(v)) + none);
            lemma_fold_bytes(1, encode_v1(v), none, a0, step);
            lemma_fold_fields_end(b, step);
        },
        _ => {
            lemma_fold_fields_end(a0, step);
        },
    }
}

/// No bytes at all decode to the record of zero values: a field that is
/// missing reads as zero, as empty, or as absent.
pub proof fn lemma_nothing_decodes_to_zero_values()
    ensures
        decode_metadata(Seq::empty()) == Some(BackupMetaDataView::zero()),
        decode_data(Seq::empty()) == Some(BackupDataView::zero()),
        decode_content(Seq::empty()) == Some(BackupContentView::zero()),
        decode_v1(Seq::empty()) == Some(BackupV1View { content: None }),
        decode_backup(Seq::empty()) == Some(BackupView { backup_version: None }),
{
    lemma_fold_fields_end(
        MetaDataParts { timestamp: None, name: None, mode: None },
        metadata_stepper(),
    );
    lemma_fold_fields_end(
        DataParts { seed_length: None, seed: None, birthdate: None, generator: None },
        data_stepper(),
    );
    lemma_fold_fields_end(
        ContentParts { checksum: None, metadata: None, length: None, data: None },
        content_stepper(),
    );
    lemma_fold_fields_end(BackupV1View { content: None }, v1_stepper());
    lemma_fold_fields_end(BackupView { backup_version: None }, backup_stepper());
}

/// A well-framed field under a tag that a data record does not know makes
/// no difference to what the record decodes to.
pub proof fn lemma_data_passes_over_unknown_field(tag: u32, payload: Seq<u8>, rest: Seq<u8>)
    requires
        valid_tag(tag),
        tag > 4,
        fits(payload),
    ensures
        decode_data(bytes_field(tag, payload) + rest) == decode_data(rest),
{
    let a0 = DataParts { seed_length: None, seed: None, birthdate: None, generator: None };
    lemma_fold_bytes(tag, payload, rest, a0, data_stepper());
}

/// Two data records with one encoding are one record: the encoding loses
/// nothing.
pub proof fn lemma_data_encoding_injective(d1: BackupDataView, d2: BackupDataView)
    requires
        d1.representable(),
        d2.representable(),
        encode_data(d1) == encode_data(d2),
    ensures
        d1 == d2,
{
    lemma_data_roundtrip(d1);
    lemma_data_roundtrip(d2);
}

/// A data record in which a known field stands twice is malformed, whatever
/// the two fields hold: shown here for the seed length in front of any
/// other bytes.
pub proof fn lemma_duplicate_seed_length_rejected(first: u32, second: u32, rest: Seq<u8>)
    requires
        first != 0,
        second != 0,
    ensures
        decode_data(uint32_field(1, first) + (uint32_field(1, second) + rest)) is None,
{
    let step = data_stepper();
    let a0 = DataParts { seed_length: None, seed: None, birthdate: None, generator: None };
    let a1 = DataParts { seed_length: Some(first), ..a0 };
    lemma_fold_uint32(1, first, uint32_field(1, second) + rest, a0, step);
    lemma_fold_uint32(1, second, rest, a1, step);
}

} // verus!
