//! The tagged, length-delimited wire encoding: base-128 varints, field keys
//! and single fields.
use crate::groups::left_behind_group;
use crate::groups::skip_group;
use vstd::prelude::*;
use vstd::slice::slice_subrange;

verus! {

/// The canonical (shortest) base-128 encoding of `v`: seven bits per byte,
/// least significant group first, the high bit set on every byte but the last.
pub open spec fn varint(v: nat) -> Seq<u8>
    decreases v,
{
    if v < 128 {
        seq![v as u8]
    } else {
        seq![(128 + v % 128) as u8] + varint(v / 128)
    }
}

/// A varint is between one and ten bytes long when its value fits 64 bits.
pub proof fn lemma_varint_len(v: nat)
    ensures
        1 <= varint(v).len(),
        v <= u64::MAX ==> varint(v).len() <= 10,
{
    lemma_weight_nine();
    lemma_varint_len_bounded(v, 10);
}

/// The weight of the byte at index `i` of a varint: `128^i`.
pub open spec fn weight(i: nat) -> nat
    decreases i,
{
    if i == 0 {
        1
    } else {
        128 * weight((i - 1) as nat)
    }
}

/// The tenth byte of a varint weighs `2^63`.
pub proof fn lemma_weight_nine()
    ensures
        weight(9) == 0x8000_0000_0000_0000,
{
    reveal_with_fuel(weight, 10);
}

proof fn lemma_varint_len_bounded(v: nat, k: nat)
    requires
        k >= 1,
    ensures
        1 <= varint(v).len(),
        v < 2 * weight((k - 1) as nat) ==> varint(v).len() <= k,
    decreases v,
{
    if v >= 128 {
        if k >= 2 {
            lemma_varint_len_bounded(v / 128, (k - 1) as nat);
        } else {
            lemma_varint_len_bounded(v / 128, k);
        }
    }
}

/// Appends the canonical varint of `value` to `buf`.
pub fn write_varint(buf: &mut Vec<u8>, value: u64)
    ensures
        final(buf)@ == old(buf)@ + varint(value as nat),
{
    let mut v: u64 = value;
    while v >= 128
        invariant
            old(buf)@ + varint(value as nat) == buf@ + varint(v as nat),
        decreases v,
    {
        let ghost before = buf@;
        buf.push((128 + v % 128) as u8);
        proof {
            assert(before + varint(v as nat) =~= buf@ + varint((v / 128) as nat));
        }
        v = v / 128;
    }
    let ghost before = buf@;
    buf.push(v as u8);
    proof {
        assert(before + varint(v as nat) =~= buf@);
    }
}

/// Reads a varint from the front of `b`, looking at no more than `budget`
/// bytes: the value and the number of bytes it took. Encodings longer than
/// needed are accepted; the last of ten bytes may carry one bit only, so that
/// the value fits 64 bits.
pub open spec fn parse_varint_within(b: Seq<u8>, budget: nat) -> Option<(nat, nat)>
    decreases budget,
{
    if budget == 0 || b.len() == 0 {
        None
    } else if b[0] < 128 {
        if budget == 1 && b[0] >= 2 {
            None
        } else {
            Some((b[0] as nat, 1nat))
        }
    } else {
        match parse_varint_within(b.skip(1), (budget - 1) as nat) {
            Some((v, n)) => Some(((b[0] - 128) as nat + 128 * v, n + 1)),
            None => None,
        }
    }
}

/// Reads a varint of at most ten bytes from the front of `b`.
pub open spec fn parse_varint(b: Seq<u8>) -> Option<(nat, nat)> {
    parse_varint_within(b, 10)
}

/// What a varint read yields: a value that fits the budget, and a length
/// between one and the budget that stays within the input.
pub proof fn lemma_parse_varint_within_bounds(b: Seq<u8>, budget: nat)
    ensures
        match parse_varint_within(b, budget) {
            Some((v, n)) => 1 <= n <= budget && n <= b.len() && v < 2 * weight((budget - 1) as nat),
            None => true,
        },
    decreases budget,
{
    if budget != 0 && b.len() != 0 {
        if b[0] >= 128 {
            lemma_parse_varint_within_bounds(b.skip(1), (budget - 1) as nat);
            if budget == 1 {
                assert(parse_varint_within(b.skip(1), 0) is None);
            } else {
                assert(weight((budget - 1) as nat) == 128 * weight((budget - 2) as nat));
            }
        } else if budget >= 2 {
            lemma_weight_monotone(1, (budget - 1) as nat);
            assert(weight(1) == 128) by {
                reveal_with_fuel(weight, 2);
            }
        }
    }
}

/// A varint read yields a 64-bit value and consumes one to ten bytes.
pub proof fn lemma_parse_varint_bounds(b: Seq<u8>)
    ensures
        match parse_varint(b) {
            Some((v, n)) => 1 <= n <= 10 && n <= b.len() && v <= u64::MAX,
            None => true,
        },
{
    lemma_weight_nine();
    lemma_parse_varint_within_bounds(b, 10);
}

/// Reading back a canonical varint gives the value, whatever follows it.
pub proof fn lemma_parse_varint_of_varint(v: nat, rest: Seq<u8>)
    requires
        v <= u64::MAX,
    ensures
        parse_varint(varint(v) + rest) == Some((v, varint(v).len())),
{
    lemma_weight_nine();
    lemma_parse_within_of_varint(v, rest, 10);
}

proof fn lemma_parse_within_of_varint(v: nat, rest: Seq<u8>, budget: nat)
    requires
        budget >= 1,
        v < 2 * weight((budget - 1) as nat),
    ensures
        parse_varint_within(varint(v) + rest, budget) == Some((v, varint(v).len())),
    decreases v,
{
    let b = varint(v) + rest;
    if v < 128 {
        assert(b[0] == v as u8);
    } else {
        assert(b[0] == (128 + v % 128) as u8);
        assert(b.skip(1) =~= varint(v / 128) + rest);
        assert(budget >= 2) by {
            if budget == 1 {
                assert(weight(0) == 1);
            }
        }
        lemma_parse_within_of_varint(v / 128, rest, (budget - 1) as nat);
    }
}

/// No encoding of a value is shorter than the canonical one: whatever bytes
/// read as `v`, they are at least as many as `varint(v)`.
pub proof fn lemma_varint_is_shortest(b: Seq<u8>)
    ensures
        parse_varint(b) matches Some((v, n)) ==> varint(v).len() <= n,
{
    lemma_within_is_no_shorter(b, 10);
}

proof fn lemma_within_is_no_shorter(b: Seq<u8>, budget: nat)
    ensures
        parse_varint_within(b, budget) matches Some((v, n)) ==> varint(v).len() <= n,
    decreases budget,
{
    if budget != 0 && b.len() != 0 && b[0] >= 128 {
        lemma_within_is_no_shorter(b.skip(1), (budget - 1) as nat);
        match parse_varint_within(b.skip(1), (budget - 1) as nat) {
            Some((rest, n)) => {
                let v = (b[0] - 128) as nat + 128 * rest;
                if v >= 128 {
                    assert(v / 128 == rest);
                }
                lemma_parse_varint_within_bounds(b.skip(1), (budget - 1) as nat);
            },
            None => {},
        }
    }
}

/// The result of a varint read after `i` continuation bytes have added up to
/// `acc`: the rest's value moves up by `scale`, the length by `i`.
spec fn lifted(r: Option<(nat, nat)>, acc: nat, scale: nat, i: nat) -> Option<(nat, nat)> {
    match r {
        Some((v, n)) => Some((acc + scale * v, n + i)),
        None => None,
    }
}

/// Reads a varint from the front of `b`: the value and the number of bytes
/// it took, or `None` where the bytes do not start with one.
pub fn read_varint(b: &[u8]) -> (r: Option<(u64, usize)>)
    ensures
        match r {
            Some((v, n)) => parse_varint(b@) == Some((v as nat, n as nat)) && 1 <= n <= 10 && n
                <= b@.len(),
            None => parse_varint(b@) is None,
        },
{
    let mut acc: u64 = 0;
    let mut scale: u64 = 1;
    let mut i: usize = 0;
    proof {
        lemma_weight_nine();
        reveal_with_fuel(weight, 10);
        assert(b@.skip(0) =~= b@);
    }
    while i < b.len()
        invariant
            i <= 9,
            i <= b@.len(),
            scale == weight(i as nat),
            acc < scale,
            scale <= 0x8000_0000_0000_0000,
            weight(9) == 0x8000_0000_0000_0000,
            parse_varint(b@) == lifted(
                parse_varint_within(b@.skip(i as int), (10 - i) as nat),
                acc as nat,
                scale as nat,
                i as nat,
            ),
        decreases b@.len() - i,
    {
        let byte: u8 = b[i];
        let ghost tail = b@.skip(i as int);
        proof {
            assert(tail[0] == byte);
            assert(tail.skip(1) =~= b@.skip(i + 1));
        }
        if byte < 128 {
            if i == 9 && byte >= 2 {
                return None;
            }
            proof {
                assert(byte * scale <= 127 * scale) by (nonlinear_arith)
                    requires
                        byte <= 127,
                        scale >= 0,
                ;
                assert(scale * byte == byte * scale) by (nonlinear_arith);
                if i < 9 {
                    assert(128 * weight(i as nat) == weight((i + 1) as nat));
                    lemma_weight_monotone((i + 1) as nat, 9);
                }
            }
            return Some((acc + (byte as u64) * scale, i + 1));
        }
        if i == 9 {
            proof {
                assert(parse_varint_within(tail.skip(1), 0) is None);
            }
            return None;
        }
        proof {
            let low = (byte - 128) as nat;
            assert(low * scale <= 127 * scale) by (nonlinear_arith)
                requires
                    low <= 127,
                    scale >= 0,
            ;
            assert(128 * weight(i as nat) == weight((i + 1) as nat));
            lemma_weight_monotone((i + 1) as nat, 9);
            match parse_varint_within(tail.skip(1), (9 - i) as nat) {
                Some((v, n)) => {
                    assert(acc + scale * (low + 128 * v) == (acc + low * scale) + (scale * 128)
                        * v) by (nonlinear_arith);
                },
                None => {},
            }
        }
        acc = acc + ((byte - 128) as u64) * scale;
        scale = scale * 128;
        i = i + 1;
    }
    None
}

/// Weights grow with the index.
pub proof fn lemma_weight_monotone(i: nat, j: nat)
    requires
        i <= j,
    ensures
        weight(i) <= weight(j),
    decreases j,
{
    if i < j {
        lemma_weight_monotone(i, (j - 1) as nat);
    }
}

/// How the payload of a field is framed.
#[derive(Clone, Copy, Debug, PartialEq, Eq, Structural)]
pub enum WireType {
    /// A varint.
    Varint,
    /// Eight bytes.
    Fixed64,
    /// A varint length, then that many bytes.
    LengthDelimited,
    /// The start of a group: fields up to the end marker with the same tag.
    StartGroup,
    /// The end of a group.
    EndGroup,
    /// Four bytes.
    Fixed32,
}

impl WireType {
    /// The number that stands for this wire type in the low three bits of a key.
    pub open spec fn number(self) -> nat {
        match self {
            WireType::Varint => 0,
            WireType::Fixed64 => 1,
            WireType::LengthDelimited => 2,
            WireType::StartGroup => 3,
            WireType::EndGroup => 4,
            WireType::Fixed32 => 5,
        }
    }

    /// The wire type that `n` stands for, if any.
    pub open spec fn of_number(n: nat) -> Option<WireType> {
        if n == 0 {
            Some(WireType::Varint)
        } else if n == 1 {
            Some(WireType::Fixed64)
        } else if n == 2 {
            Some(WireType::LengthDelimited)
        } else if n == 3 {
            Some(WireType::StartGroup)
        } else if n == 4 {
            Some(WireType::EndGroup)
        } else if n == 5 {
            Some(WireType::Fixed32)
        } else {
            None
        }
    }
}

/// The largest field tag that a key can carry.
pub const MAX_TAG: u32 = 0x1FFF_FFFF;

/// A tag that a key can carry: at least one, at most [`MAX_TAG`].
pub open spec fn valid_tag(tag: u32) -> bool {
    1 <= tag <= MAX_TAG
}

/// The key of a field: the varint of the tag, shifted by three bits, plus the
/// wire type's number.
pub open spec fn key(tag: u32, wire: WireType) -> Seq<u8> {
    varint(tag as nat * 8 + wire.number())
}

/// Reads a key from the front of `b`: tag, wire type and the number of bytes
/// it took. The key must fit 32 bits, carry a tag of at least one and one of
/// the six wire types.
pub open spec fn parse_key(b: Seq<u8>) -> Option<(u32, WireType, nat)> {
    match parse_varint(b) {
        Some((k, n)) => if k <= u32::MAX && k / 8 >= 1 {
            match WireType::of_number(k % 8) {
                Some(wire) => Some(((k / 8) as u32, wire, n)),
                None => None,
            }
        } else {
            None
        },
        None => None,
    }
}

/// One field as it stands on the wire. `value` is what a varint field
/// carries (zero otherwise); `payload` holds the bytes of a length-delimited
/// or fixed-width field (empty otherwise). Of a group nothing is kept but
/// its tag.
pub struct Field {
    pub tag: u32,
    pub wire: WireType,
    pub value: nat,
    pub payload: Seq<u8>,
}

/// Reads one field from the front of `b`: the field and the number of bytes
/// it took. Fails on a bad key, a bad varint, a payload that runs past the
/// end of `b`, a group that does not end as it should, or an end marker
/// without a start.
pub open spec fn parse_field(b: Seq<u8>) -> Option<(Field, nat)> {
    match parse_key(b) {
        None => None,
        Some((tag, wire, n)) => {
            let rest = b.skip(n as int);
            match wire {
                WireType::Varint => match parse_varint(rest) {
                    Some((v, m)) => Some(
                        (Field { tag, wire, value: v, payload: Seq::empty() }, n + m),
                    ),
                    None => None,
                },
                WireType::Fixed64 => if rest.len() >= 8 {
                    Some((Field { tag, wire, value: 0, payload: rest.subrange(0, 8) }, n + 8))
                } else {
                    None
                },
                WireType::Fixed32 => if rest.len() >= 4 {
                    Some((Field { tag, wire, value: 0, payload: rest.subrange(0, 4) }, n + 4))
                } else {
                    None
                },
                WireType::StartGroup => match left_behind_group(tag, rest) {
                    Some(left) => if left <= rest.len() {
                        Some(
                            (
                                Field { tag, wire, value: 0, payload: Seq::empty() },
                                (n + rest.len() - left) as nat,
                            ),
                        )
                    } else {
                        None
                    },
                    None => None,
                },
                WireType::EndGroup => None,
                WireType::LengthDelimited => match parse_varint(rest) {
                    Some((len, m)) => if m + len <= rest.len() {
                        Some(
                            (
                                Field {
                                    tag,
                                    wire,
                                    value: 0,
                                    payload: rest.subrange(m as int, (m + len) as int),
                                },
                                n + m + len,
                            ),
                        )
                    } else {
                        None
                    },
                    None => None,
                },
            }
        },
    }
}

/// A field read consumes at least one byte and stays within the input.
pub proof fn lemma_parse_field_bounds(b: Seq<u8>)
    ensures
        match parse_field(b) {
            Some((f, n)) => 1 <= n <= b.len() && f.value <= u64::MAX && valid_tag(f.tag),
            None => true,
        },
{
    lemma_parse_varint_bounds(b);
    match parse_key(b) {
        Some((tag, wire, n)) => {
            lemma_parse_varint_bounds(b.skip(n as int));
        },
        None => {},
    }
}

/// A varint field: its key, then the canonical varint of the value.
pub open spec fn varint_field(tag: u32, value: nat) -> Seq<u8> {
    key(tag, WireType::Varint) + varint(value)
}

/// A length-delimited field: its key, the varint of the payload's length,
/// then the payload.
pub open spec fn bytes_field(tag: u32, payload: Seq<u8>) -> Seq<u8> {
    key(tag, WireType::LengthDelimited) + varint(payload.len()) + payload
}

/// Reading back a key gives its tag and wire type, whatever follows it.
pub proof fn lemma_parse_key_of_key(tag: u32, wire: WireType, rest: Seq<u8>)
    requires
        valid_tag(tag),
    ensures
        parse_key(key(tag, wire) + rest) == Some((tag, wire, key(tag, wire).len())),
{
    lemma_parse_varint_of_varint(tag as nat * 8 + wire.number(), rest);
}

/// Reading back a varint field gives its tag and value, whatever follows it.
pub proof fn lemma_parse_varint_field(tag: u32, value: nat, rest: Seq<u8>)
    requires
        valid_tag(tag),
        value <= u64::MAX,
    ensures
        parse_field(varint_field(tag, value) + rest) == Some(
            (
                Field { tag, wire: WireType::Varint, value, payload: Seq::empty() },
                varint_field(tag, value).len(),
            ),
        ),
        varint_field(tag, value).len() >= 2,
{
    let k = key(tag, WireType::Varint);
    let b = varint_field(tag, value) + rest;
    assert(b =~= k + (varint(value) + rest));
    lemma_parse_key_of_key(tag, WireType::Varint, varint(value) + rest);
    assert(b.skip(k.len() as int) =~= varint(value) + rest);
    lemma_parse_varint_of_varint(value, rest);
    lemma_varint_len(value);
    lemma_varint_len(tag as nat * 8);
}

/// Reading back a length-delimited field gives its tag and payload, whatever
/// follows it.
pub proof fn lemma_parse_bytes_field(tag: u32, payload: Seq<u8>, rest: Seq<u8>)
    requires
        valid_tag(tag),
        payload.len() <= u64::MAX,
    ensures
        parse_field(bytes_field(tag, payload) + rest) == Some(
            (
                Field { tag, wire: WireType::LengthDelimited, value: 0, payload },
                bytes_field(tag, payload).len(),
            ),
        ),
        bytes_field(tag, payload).len() >= 2,
{
    let k = key(tag, WireType::LengthDelimited);
    let len = varint(payload.len());
    let b = bytes_field(tag, payload) + rest;
    let after_key = len + (payload + rest);
    assert(b =~= k + after_key);
    lemma_parse_key_of_key(tag, WireType::LengthDelimited, after_key);
    assert(b.skip(k.len() as int) =~= after_key);
    lemma_parse_varint_of_varint(payload.len(), payload + rest);
    assert(after_key.subrange(len.len() as int, (len.len() + payload.len()) as int) =~= payload);
    lemma_varint_len(payload.len());
    lemma_varint_len(tag as nat * 8 + 2);
}

/// Reads a record field by field from the front of `b` to its end, handing
/// each field to `step` together with what the fields before it came to.
/// Fails where a field is malformed or `step` refuses one.
#[verifier::opaque]
pub open spec fn fold_fields<A>(b: Seq<u8>, acc: A, step: spec_fn(A, Field) -> Option<A>) -> Option<
    A,
>
    decreases b.len(),
{
    if b.len() == 0 {
        Some(acc)
    } else {
        match parse_field(b) {
            Some((f, n)) => if 1 <= n <= b.len() {
                match step(acc, f) {
                    Some(next) => fold_fields(b.skip(n as int), next, step),
                    None => None,
                }
            } else {
                None
            },
            None => None,
        }
    }
}

/// Folding over bytes that start with a whole field handles that field and
/// goes on with the rest.
pub proof fn lemma_fold_fields_first<A>(
    first: Seq<u8>,
    f: Field,
    rest: Seq<u8>,
    acc: A,
    step: spec_fn(A, Field) -> Option<A>,
)
    requires
        first.len() >= 1,
        parse_field(first + rest) == Some((f, first.len())),
    ensures
        fold_fields(first + rest, acc, step) == match step(acc, f) {
            Some(next) => fold_fields(rest, next, step),
            None => None,
        },
{
    reveal(fold_fields);
    assert((first + rest).skip(first.len() as int) =~= rest);
}

/// Folding over no bytes at all leaves what has been read as it is.
pub proof fn lemma_fold_fields_end<A>(acc: A, step: spec_fn(A, Field) -> Option<A>)
    ensures
        fold_fields(Seq::<u8>::empty(), acc, step) == Some(acc),
{
    reveal(fold_fields);
}

/// Folding over bytes whose first field has been read: where the bytes do
/// not start with a well-framed field, or `step` refuses it, the fold fails;
/// else it goes on behind the field.
pub proof fn lemma_fold_fields_unfold<A>(b: Seq<u8>, acc: A, step: spec_fn(A, Field) -> Option<A>)
    requires
        b.len() > 0,
    ensures
        fold_fields(b, acc, step) == match parse_field(b) {
            Some((f, n)) => match step(acc, f) {
                Some(next) => fold_fields(b.skip(n as int), next, step),
                None => None,
            },
            None => None,
        },
{
    reveal(fold_fields);
    lemma_parse_field_bounds(b);
}

/// Appends the key of a field to `buf`.
pub fn write_key(buf: &mut Vec<u8>, tag: u32, wire: WireType)
    requires
        valid_tag(tag),
    ensures
        final(buf)@ == old(buf)@ + key(tag, wire),
{
    let number: u32 = match wire {
        WireType::Varint => 0,
        WireType::Fixed64 => 1,
        WireType::LengthDelimited => 2,
        WireType::StartGroup => 3,
        WireType::EndGroup => 4,
        WireType::Fixed32 => 5,
    };
    write_varint(buf, (tag * 8 + number) as u64);
}

/// Appends a varint field to `buf`.
pub fn write_varint_field(buf: &mut Vec<u8>, tag: u32, value: u64)
    requires
        valid_tag(tag),
    ensures
        final(buf)@ == old(buf)@ + varint_field(tag, value as nat),
{
    write_key(buf, tag, WireType::Varint);
    write_varint(buf, value);
    assert(buf@ =~= old(buf)@ + varint_field(tag, value as nat));
}

/// Appends a length-delimited field to `buf`.
pub fn write_bytes_field(buf: &mut Vec<u8>, tag: u32, payload: &[u8])
    requires
        valid_tag(tag),
    ensures
        final(buf)@ == old(buf)@ + bytes_field(tag, payload@),
{
    write_key(buf, tag, WireType::LengthDelimited);
    write_varint(buf, payload.len() as u64);
    let ghost before = buf@;
    buf.extend_from_slice(payload);
    assert(buf@ =~= before + payload@);
    assert(buf@ =~= old(buf)@ + bytes_field(tag, payload@));
}

/// One field as read from a buffer; `payload` borrows from that buffer.
#[derive(Clone, Copy, Debug, PartialEq, Eq)]
pub struct RawField<'a> {
    pub tag: u32,
    pub wire: WireType,
    pub value: u64,
    pub payload: &'a [u8],
}

impl<'a> View for RawField<'a> {
    type V = Field;

    open spec fn view(&self) -> Field {
        Field { tag: self.tag, wire: self.wire, value: self.value as nat, payload: self.payload@ }
    }
}

/// Reads a key from the front of `b`.
pub fn read_key(b: &[u8]) -> (r: Option<(u32, WireType, usize)>)
    ensures
        match r {
            Some((tag, wire, n)) => parse_key(b@) == Some((tag, wire, n as nat)) && 1 <= n
                <= b@.len() && valid_tag(tag),
            None => parse_key(b@) is None,
        },
{
    match read_varint(b) {
        None => None,
        Some((k, n)) => {
            if k > 0xFFFF_FFFF || k / 8 < 1 {
                return None;
            }
            let tag: u32 = (k / 8) as u32;
            let number: u64 = k % 8;
            if number == 0 {
                Some((tag, WireType::Varint, n))
            } else if number == 1 {
                Some((tag, WireType::Fixed64, n))
            } else if number == 2 {
                Some((tag, WireType::LengthDelimited, n))
            } else if number == 3 {
                Some((tag, WireType::StartGroup, n))
            } else if number == 4 {
                Some((tag, WireType::EndGroup, n))
            } else if number == 5 {
                Some((tag, WireType::Fixed32, n))
            } else {
                None
            }
        },
    }
}

/// The field that a group at the front of `b` makes, and the number of bytes
/// that it took, where `left` bytes of `b` are left behind it.
pub fn group_field<'a>(b: &'a [u8], tag: u32, left: usize) -> (r: (RawField<'a>, usize))
    requires
        left <= b@.len(),
    ensures
        r.0@ == (Field { tag, wire: WireType::StartGroup, value: 0, payload: Seq::empty() }),
        r.1 == b@.len() - left,
{
    let empty = slice_subrange(b, 0, 0);
    assert(empty@ =~= Seq::<u8>::empty());
    (RawField { tag, wire: WireType::StartGroup, value: 0, payload: empty }, b.len() - left)
}

/// Reads one field from the front of `b`: the field and the number of bytes
/// it took, or `None` where the bytes do not start with a well-framed field.
pub fn read_field<'a>(b: &'a [u8]) -> (r: Option<(RawField<'a>, usize)>)
    ensures
        match r {
            Some((f, n)) => parse_field(b@) == Some((f@, n as nat)) && 1 <= n <= b@.len(),
            None => parse_field(b@) is None,
        },
{
    let (tag, wire, n) = match read_key(b) {
        Some(k) => k,
        None => {
            return None;
        },
    };
    let rest = slice_subrange(b, n, b.len());
    let empty = slice_subrange(b, 0, 0);
    assert(empty@ =~= Seq::<u8>::empty());
    match wire {
        WireType::Varint => match read_varint(rest) {
            Some((value, m)) => Some((RawField { tag, wire, value, payload: empty }, n + m)),
            None => None,
        },
        WireType::Fixed64 => {
            if rest.len() >= 8 {
                let payload = slice_subrange(rest, 0, 8);
                Some((RawField { tag, wire, value: 0, payload }, n + 8))
            } else {
                None
            }
        },
        WireType::Fixed32 => {
            if rest.len() >= 4 {
                let payload = slice_subrange(rest, 0, 4);
                Some((RawField { tag, wire, value: 0, payload }, n + 4))
            } else {
                None
            }
        },
        WireType::StartGroup => match skip_group(tag, rest) {
            Some(left) => Some(group_field(b, tag, left)),
            None => None,
        },
        WireType::EndGroup => None,
        WireType::LengthDelimited => match read_varint(rest) {
            Some((len, m)) => {
                if len > (rest.len() - m) as u64 {
                    None
                } else {
                    let end: usize = m + len as usize;
                    let payload = slice_subrange(rest, m, end);
                    Some((RawField { tag, wire, value: 0, payload }, n + end))
                }
            },
            None => None,
        },
    }
}

/// Whether two byte strings are equal. For strings of one length the time
/// taken does not depend on where they differ: every byte is looked at.
pub fn bytes_equal(a: &[u8], b: &[u8]) -> (equal: bool)
    ensures
        equal == (a@ == b@),
{
    if a.len() != b.len() {
        return false;
    }
    let mut diff: u8 = 0;
    let mut i: usize = 0;
    assert(a@.subrange(0, 0) =~= b@.subrange(0, 0));
    while i < a.len()
        invariant
            a@.len() == b@.len(),
            i <= a@.len(),
            (diff != 0) == (a@.subrange(0, i as int) != b@.subrange(0, i as int)),
        decreases a@.len() - i,
    {
        let ghost upto = i as int;
        let x: u8 = a[i];
        let y: u8 = b[i];
        let ghost before = diff;
        diff = diff | (x ^ y);
        i = i + 1;
        proof {
            assert(((before | (x ^ y)) != 0) == (before != 0 || x != y)) by (bit_vector);
            let a0 = a@.subrange(0, upto);
            let b0 = b@.subrange(0, upto);
            let a1 = a@.subrange(0, upto + 1);
            let b1 = b@.subrange(0, upto + 1);
            assert(a1 =~= a0.push(a@[upto]));
            assert(b1 =~= b0.push(b@[upto]));
            if a1 == b1 {
                assert(a0 =~= a1.subrange(0, upto));
                assert(b0 =~= b1.subrange(0, upto));
                assert(a1[upto] == b1[upto]);
            }
        }
    }
    proof {
        assert(a@.subrange(0, i as int) =~= a@);
        assert(b@.subrange(0, i as int) =~= b@);
    }
    diff == 0
}

} // verus!
