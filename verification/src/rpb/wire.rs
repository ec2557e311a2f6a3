//! Protobuf fields, one at a time.
//!
//! A payload is a run of fields. Each field is a tag (field number and wire
//! type, packed into one varint) followed by a value whose shape the wire
//! type gives. Writing and reading single fields is left to the `protobuf`
//! crate; which fields a record has, and what their absence or repetition
//! means, is decided by the callers of this module.

use crate::errors::SchemaError;
use vstd::prelude::*;
use vstd::slice::slice_subrange;

verus! {

/// The largest field number a tag can carry.
pub const FIELD_NUMBER_MAX: u32 = 0x1fff_ffff;

/// The longest value a length prefix is written for.
pub const VALUE_LEN_MAX: usize = 0xffff_ffff;

/// The wire type of a value that is a varint.
pub const WIRE_VARINT: u8 = 0;

/// The wire type of a value that is eight bytes wide.
pub const WIRE_FIXED64: u8 = 1;

/// The wire type of a value that is a length-prefixed run of bytes.
pub const WIRE_LENGTH_DELIMITED: u8 = 2;

/// The wire type of the tag that begins a group.
pub const WIRE_START_GROUP: u8 = 3;

/// The wire type of the tag that ends a group.
pub const WIRE_END_GROUP: u8 = 4;

/// The wire type of a value that is four bytes wide.
pub const WIRE_FIXED32: u8 = 5;

/// Base-128 encoding, least significant group first; every byte but the
/// last has its high bit set.
pub open spec fn varint(value: nat) -> Seq<u8>
    decreases value,
{
    if value < 128 {
        seq![value as u8]
    } else {
        seq![(128 + value % 128) as u8] + varint(value / 128)
    }
}

/// The tag of field `number` with wire type `wire_type`.
pub open spec fn tag(number: nat, wire_type: nat) -> Seq<u8> {
    varint(number * 8 + wire_type)
}

/// A field whose value is a varint.
pub open spec fn varint_field(number: nat, value: nat) -> Seq<u8> {
    tag(number, WIRE_VARINT as nat) + varint(value)
}

/// A field whose value is a length-prefixed run of bytes.
pub open spec fn bytes_field(number: nat, data: Seq<u8>) -> Seq<u8> {
    tag(number, WIRE_LENGTH_DELIMITED as nat) + varint(data.len()) + data
}

/// A `bool` travels as the varint 1 or 0.
pub open spec fn bool_field(number: nat, value: bool) -> Seq<u8> {
    varint_field(number, if value { 1 } else { 0 })
}

/// Appends a `uint32` field with `CodedOutputStream::write_uint32`.
///
/// Trusted: the stream writes the tag `(number << 3) | 0` and then the value,
/// both as varints, and writing into a `Vec` cannot fail. The stream panics
/// on a field number outside `1..=FIELD_NUMBER_MAX`.
#[verifier::external_body]
pub(crate) fn put_uint32(out: &mut Vec<u8>, number: u32, value: u32)
    requires
        1 <= number <= FIELD_NUMBER_MAX,
    ensures
        final(out)@ == old(out)@ + varint_field(number as nat, value as nat),
{
    let mut stream = protobuf::CodedOutputStream::vec(out);
    stream.write_uint32(number, value).unwrap();
    stream.flush().unwrap();
}

/// Appends a `bool` field with `CodedOutputStream::write_bool`.
///
/// Trusted: the stream writes the tag `(number << 3) | 0` and then the single
/// byte 1 or 0, and writing into a `Vec` cannot fail. The stream panics on a
/// field number outside `1..=FIELD_NUMBER_MAX`.
#[verifier::external_body]
pub(crate) fn put_bool(out: &mut Vec<u8>, number: u32, value: bool)
    requires
        1 <= number <= FIELD_NUMBER_MAX,
    ensures
        final(out)@ == old(out)@ + bool_field(number as nat, value),
{
    let mut stream = protobuf::CodedOutputStream::vec(out);
    stream.write_bool(number, value).unwrap();
    stream.flush().unwrap();
}

/// Appends a `bytes` field with `CodedOutputStream::write_bytes`.
///
/// Trusted: the stream writes the tag `(number << 3) | 2`, the length as a
/// varint, and the bytes themselves, and writing into a `Vec` cannot fail.
/// The stream panics on a field number outside `1..=FIELD_NUMBER_MAX`, and
/// it writes the length as a `u32`, so a longer value is left out here.
#[verifier::external_body]
pub(crate) fn put_bytes(out: &mut Vec<u8>, number: u32, data: &[u8])
    requires
        1 <= number <= FIELD_NUMBER_MAX,
        data.len() <= VALUE_LEN_MAX,
    ensures
        final(out)@ == old(out)@ + bytes_field(number as nat, data@),
{
    let mut stream = protobuf::CodedOutputStream::vec(out);
    stream.write_bytes(number, data).unwrap();
    stream.flush().unwrap();
}

/// The most bytes a varint is read from.
pub const VARINT_LEN_MAX: usize = 10;

/// The varint at the head of `bytes`, looking at no more than `budget`
/// bytes: the number that its groups of seven bits spell, least significant
/// group first, and how many bytes it takes. The first byte without the
/// high bit ends it; there is none where the bytes or the budget run out
/// first.
pub open spec fn varint_head(bytes: Seq<u8>, budget: nat) -> Option<(nat, nat)>
    decreases budget,
{
    if budget == 0 || bytes.len() == 0 {
        None
    } else if bytes[0] < 128 {
        Some((bytes[0] as nat, 1))
    } else {
        match varint_head(bytes.drop_first(), (budget - 1) as nat) {
            Some((value, len)) => Some(((bytes[0] - 128) as nat + 128 * value, len + 1)),
            None => None,
        }
    }
}

/// The varint at the head of `bytes` as it is read: from ten bytes at
/// most, and cut to 64 bits.
pub open spec fn leading_varint(bytes: Seq<u8>) -> Option<(u64, nat)> {
    match varint_head(bytes, VARINT_LEN_MAX as nat) {
        Some((value, len)) => Some(((value % 0x1_0000_0000_0000_0000) as u64, len)),
        None => None,
    }
}

/// The tag at the head of `bytes`: a varint cut to 32 bits whose low three
/// bits are a wire type from 0 to 5 and whose other bits are a field number
/// that is not zero.
pub open spec fn leading_tag(bytes: Seq<u8>) -> Option<(u32, u8, nat)> {
    match leading_varint(bytes) {
        Some((value, len)) => {
            let key = value % 0x1_0000_0000;
            if key % 8 <= 5 && key / 8 != 0 {
                Some(((key / 8) as u32, (key % 8) as u8, len))
            } else {
                None
            }
        },
        None => None,
    }
}

/// The length-prefixed value at the head of `bytes`: a varint cut to 32
/// bits, and as many bytes after it as it says, if they are all there.
pub open spec fn leading_bytes(bytes: Seq<u8>) -> Option<(Seq<u8>, nat)> {
    match leading_varint(bytes) {
        Some((value, len)) => {
            let count = (value % 0x1_0000_0000) as nat;
            if count <= bytes.len() - len {
                Some((bytes.subrange(len as int, (len + count) as int), len + count))
            } else {
                None
            }
        },
        None => None,
    }
}

/// Reads a tag from the head of `bytes` with
/// `CodedInputStream::read_tag_unpack`.
///
/// Trusted: the stream reads a varint, keeps its low 32 bits, and takes the
/// low three of them for the wire type and the rest for the field number;
/// it reports an error for a wire type above 5 and for the field number 0.
/// Given are the field number, the wire type as a number, and the count of
/// bytes read.
#[verifier::external_body]
pub(crate) fn read_tag(bytes: &[u8]) -> (r: Option<(u32, u8, usize)>)
    ensures
        r == match leading_tag(bytes@) {
            Some((number, wire_type, len)) => Some((number, wire_type, len as usize)),
            None => None,
        },
{
    let mut input = protobuf::CodedInputStream::from_bytes(bytes);
    let (number, wire_type) = input.read_tag_unpack().ok()?;
    Some((number, wire_type as u8, input.pos() as usize))
}

/// Reads a varint from the head of `bytes` with
/// `CodedInputStream::read_raw_varint64`.
///
/// Trusted: the stream reads bytes up to the first one without the high
/// bit, ten at most, and joins their low seven bits, least significant
/// group first, into 64 bits; it reports an error where ten bytes all have
/// the high bit or the bytes end first. Given are the value and the count
/// of bytes read.
#[verifier::external_body]
pub(crate) fn read_varint(bytes: &[u8]) -> (r: Option<(u64, usize)>)
    ensures
        r == match leading_varint(bytes@) {
            Some((value, len)) => Some((value, len as usize)),
            None => None,
        },
{
    let mut input = protobuf::CodedInputStream::from_bytes(bytes);
    let value = input.read_raw_varint64().ok()?;
    Some((value, input.pos() as usize))
}

/// Reads a length-prefixed value from the head of `bytes` with
/// `CodedInputStream::read_bytes`.
///
/// Trusted: the stream reads a varint, keeps its low 32 bits as the count,
/// and copies that many bytes; it reports an error where fewer are left.
/// Given are the bytes copied and the count of bytes read.
#[verifier::external_body]
pub(crate) fn read_bytes(bytes: &[u8]) -> (r: Option<(Vec<u8>, usize)>)
    ensures
        match r {
            Some((data, len)) => leading_bytes(bytes@) == Some((data@, len as nat)),
            None => leading_bytes(bytes@) is None,
        },
{
    let mut input = protobuf::CodedInputStream::from_bytes(bytes);
    let data = input.read_bytes().ok()?;
    Some((data, input.pos() as usize))
}

/// The value of one field. The value of a fixed-width field and the fields
/// of a group are passed over, not kept.
#[derive(Debug)]
pub enum WireValue {
    Varint(u64),
    Fixed64,
    Bytes(Vec<u8>),
    Group,
    Fixed32,
}

/// What a `WireValue` holds.
pub enum WireValueView {
    Varint(u64),
    Fixed64,
    Bytes(Seq<u8>),
    Group,
    Fixed32,
}

impl View for WireValue {
    type V = WireValueView;

    open spec fn view(&self) -> WireValueView {
        match *self {
            WireValue::Varint(value) => WireValueView::Varint(value),
            WireValue::Fixed64 => WireValueView::Fixed64,
            WireValue::Bytes(data) => WireValueView::Bytes(data@),
            WireValue::Group => WireValueView::Group,
            WireValue::Fixed32 => WireValueView::Fixed32,
        }
    }
}

/// One field of a payload: its number and its value.
#[derive(Debug)]
pub struct WireField {
    pub number: u32,
    pub value: WireValue,
}

/// What a `WireField` holds.
pub struct WireFieldView {
    pub number: u32,
    pub value: WireValueView,
}

impl View for WireField {
    type V = WireFieldView;

    open spec fn view(&self) -> WireFieldView {
        WireFieldView { number: self.number, value: self.value@ }
    }
}

impl DeepView for WireField {
    type V = WireFieldView;

    open spec fn deep_view(&self) -> WireFieldView {
        self@
    }
}

/// The value at the head of `bytes` of a field that is not a group, and how
/// many bytes it takes: a varint, a length-prefixed run of bytes, or eight
/// or four bytes that are passed over.
pub open spec fn leading_value(bytes: Seq<u8>, wire_type: u8) -> Option<(WireValueView, nat)> {
    if wire_type == WIRE_VARINT {
        match leading_varint(bytes) {
            Some((value, len)) => Some((WireValueView::Varint(value), len)),
            None => None,
        }
    } else if wire_type == WIRE_LENGTH_DELIMITED {
        match leading_bytes(bytes) {
            Some((data, len)) => Some((WireValueView::Bytes(data), len)),
            None => None,
        }
    } else if wire_type == WIRE_FIXED64 {
        if bytes.len() >= 8 {
            Some((WireValueView::Fixed64, 8))
        } else {
            None
        }
    } else if wire_type == WIRE_FIXED32 {
        if bytes.len() >= 4 {
            Some((WireValueView::Fixed32, 4))
        } else {
            None
        }
    } else {
        None
    }
}

/// How many bytes the fields of a group take, the tag that ends the group
/// among them, where `bytes` start behind the tag that began it: field
/// after field up to the first tag of the wire type that ends a group,
/// whatever its number. A group within a group is not read.
pub open spec fn group_rest(bytes: Seq<u8>) -> Option<nat>
    decreases bytes.len(),
{
    match leading_tag(bytes) {
        None => None,
        Some((number, wire_type, at)) => {
            if wire_type == WIRE_END_GROUP {
                Some(at)
            } else {
                match leading_value(bytes.skip(at as int), wire_type) {
                    Some((value, len)) => {
                        if 0 < at + len <= bytes.len() {
                            match group_rest(bytes.skip((at + len) as int)) {
                                Some(more) => Some(at + len + more),
                                None => None,
                            }
                        } else {
                            None
                        }
                    },
                    None => None,
                }
            }
        },
    }
}

/// The field at the head of `bytes` and how many bytes it takes: a tag, and
/// a value of the shape that the wire type gives. A group is passed over as
/// a whole; a tag that ends a group where none began is not a field.
pub open spec fn leading_field(bytes: Seq<u8>) -> Option<(WireFieldView, nat)> {
    match leading_tag(bytes) {
        None => None,
        Some((number, wire_type, at)) => {
            if wire_type == WIRE_START_GROUP {
                match group_rest(bytes.skip(at as int)) {
                    Some(len) => Some(
                        (WireFieldView { number, value: WireValueView::Group }, at + len),
                    ),
                    None => None,
                }
            } else {
                match leading_value(bytes.skip(at as int), wire_type) {
                    Some((value, len)) => Some((WireFieldView { number, value }, at + len)),
                    None => None,
                }
            }
        },
    }
}

/// The fields of a payload, in order; `None` if the payload is not a run
/// of fields from its first byte to its last.
pub open spec fn fields_of(bytes: Seq<u8>) -> Option<Seq<WireFieldView>>
    decreases bytes.len(),
{
    if bytes.len() == 0 {
        Some(Seq::empty())
    } else {
        match leading_field(bytes) {
            Some((field, len)) => {
                if 0 < len <= bytes.len() {
                    match fields_of(bytes.skip(len as int)) {
                        Some(rest) => Some(seq![field] + rest),
                        None => None,
                    }
                } else {
                    None
                }
            },
            None => None,
        }
    }
}

/// A varint that is there takes at least one byte, no more than the budget
/// and no more than there are.
pub proof fn lemma_varint_head_bounds(bytes: Seq<u8>, budget: nat)
    ensures
        match varint_head(bytes, budget) {
            Some((value, len)) => 1 <= len <= budget && len <= bytes.len(),
            None => true,
        },
    decreases budget,
{
    if budget != 0 && bytes.len() != 0 && bytes[0] >= 128 {
        lemma_varint_head_bounds(bytes.drop_first(), (budget - 1) as nat);
    }
}

/// A tag that is there takes at least one byte and no more than there are.
pub proof fn lemma_leading_tag_bounds(bytes: Seq<u8>)
    ensures
        match leading_tag(bytes) {
            Some((number, wire_type, len)) => 1 <= len <= bytes.len(),
            None => true,
        },
{
    lemma_varint_head_bounds(bytes, VARINT_LEN_MAX as nat);
}

/// A value that is there takes at least one byte and no more than there
/// are.
pub proof fn lemma_leading_value_bounds(bytes: Seq<u8>, wire_type: u8)
    ensures
        match leading_value(bytes, wire_type) {
            Some((value, len)) => 1 <= len <= bytes.len(),
            None => true,
        },
{
    lemma_varint_head_bounds(bytes, VARINT_LEN_MAX as nat);
}

/// The fields of a group, where they are all there, take at least one byte
/// and no more than there are.
pub proof fn lemma_group_rest_bounds(bytes: Seq<u8>)
    ensures
        match group_rest(bytes) {
            Some(len) => 1 <= len <= bytes.len(),
            None => true,
        },
    decreases bytes.len(),
{
    lemma_leading_tag_bounds(bytes);
    match leading_tag(bytes) {
        Some((number, wire_type, at)) => {
            if wire_type != WIRE_END_GROUP {
                lemma_leading_value_bounds(bytes.skip(at as int), wire_type);
                match leading_value(bytes.skip(at as int), wire_type) {
                    Some((value, len)) => {
                        lemma_group_rest_bounds(bytes.skip((at + len) as int));
                    },
                    None => {},
                }
            }
        },
        None => {},
    }
}

/// A field that is there takes at least one byte and no more than there
/// are.
pub proof fn lemma_leading_field_bounds(bytes: Seq<u8>)
    ensures
        match leading_field(bytes) {
            Some((field, len)) => 1 <= len <= bytes.len(),
            None => true,
        },
{
    lemma_leading_tag_bounds(bytes);
    match leading_tag(bytes) {
        Some((number, wire_type, at)) => {
            lemma_leading_value_bounds(bytes.skip(at as int), wire_type);
            lemma_group_rest_bounds(bytes.skip(at as int));
        },
        None => {},
    }
}

/// Reads the value at the head of `bytes` of a field that is not a group,
/// and tells how many bytes it takes.
pub fn read_value(bytes: &[u8], wire_type: u8) -> (r: Option<(WireValue, usize)>)
    ensures
        match r {
            Some((value, len)) => 1 <= len <= bytes.len() && leading_value(bytes@, wire_type)
                == Some((value@, len as nat)),
            None => leading_value(bytes@, wire_type) is None,
        },
{
    proof {
        lemma_varint_head_bounds(bytes@, VARINT_LEN_MAX as nat);
    }
    if wire_type == WIRE_VARINT {
        match read_varint(bytes) {
            Some((value, len)) => Some((WireValue::Varint(value), len)),
            None => None,
        }
    } else if wire_type == WIRE_LENGTH_DELIMITED {
        match read_bytes(bytes) {
            Some((data, len)) => Some((WireValue::Bytes(data), len)),
            None => None,
        }
    } else if wire_type == WIRE_FIXED64 {
        if bytes.len() >= 8 {
            Some((WireValue::Fixed64, 8))
        } else {
            None
        }
    } else if wire_type == WIRE_FIXED32 {
        if bytes.len() >= 4 {
            Some((WireValue::Fixed32, 4))
        } else {
            None
        }
    } else {
        None
    }
}

/// Passes over the fields of a group, where `bytes` start behind the tag
/// that began it, and tells how many bytes they take, the tag that ends the
/// group among them.
pub fn skip_group(bytes: &[u8]) -> (r: Option<usize>)
    ensures
        match r {
            Some(len) => 1 <= len <= bytes.len() && group_rest(bytes@) == Some(len as nat),
            None => group_rest(bytes@) is None,
        },
{
    let mut pos: usize = 0;
    assert(bytes@.skip(0) =~= bytes@);
    loop
        invariant
            pos <= bytes.len(),
            group_rest(bytes@) == match group_rest(bytes@.skip(pos as int)) {
                Some(more) => Some((pos + more) as nat),
                None => None,
            },
        decreases bytes.len() - pos,
    {
        let tail = slice_subrange(bytes, pos, bytes.len());
        proof {
            lemma_leading_tag_bounds(tail@);
            lemma_group_rest_bounds(tail@);
        }
        let (wire_type, at) = match read_tag(tail) {
            Some((number, wire_type, at)) => (wire_type, at),
            None => {
                return None;
            },
        };
        if wire_type == WIRE_END_GROUP {
            return Some(pos + at);
        }
        let len = match read_value(slice_subrange(tail, at, tail.len()), wire_type) {
            Some((value, len)) => len,
            None => {
                return None;
            },
        };
        assert(tail@.skip((at + len) as int) =~= bytes@.skip((pos + at + len) as int));
        pos = pos + at + len;
    }
}

/// Reads the field that starts at `pos`, and tells where the next one
/// starts. There is none at or beyond the end.
pub fn read_field(bytes: &[u8], pos: usize) -> (r: Option<(WireField, usize)>)
    ensures
        match r {
            Some((field, next)) => pos < next <= bytes.len() && leading_field(
                bytes@.skip(pos as int),
            ) == Some((field@, (next - pos) as nat)),
            None => pos >= bytes.len() || leading_field(bytes@.skip(pos as int)) is None,
        },
{
    if pos >= bytes.len() {
        return None;
    }
    let tail = slice_subrange(bytes, pos, bytes.len());
    proof {
        lemma_leading_tag_bounds(tail@);
    }
    let (number, wire_type, at) = match read_tag(tail) {
        Some(tag) => tag,
        None => {
            return None;
        },
    };
    let rest = slice_subrange(tail, at, tail.len());
    if wire_type == WIRE_START_GROUP {
        match skip_group(rest) {
            Some(len) => Some((WireField { number, value: WireValue::Group }, pos + at + len)),
            None => None,
        }
    } else {
        match read_value(rest, wire_type) {
            Some((value, len)) => Some((WireField { number, value }, pos + at + len)),
            None => None,
        }
    }
}

/// Splits a payload into its fields. Fails with `Malformed` exactly when the
/// payload is not a run of readable fields.
pub fn scan_fields(bytes: &[u8]) -> (r: Result<Vec<WireField>, SchemaError>)
    ensures
        match r {
            Ok(fields) => fields_of(bytes@) == Some(fields.deep_view()),
            Err(error) => error == SchemaError::Malformed && fields_of(bytes@) is None,
        },
{
    let mut fields: Vec<WireField> = Vec::new();
    let mut pos: usize = 0;
    assert(bytes@.skip(0) =~= bytes@);
    while pos < bytes.len()
        invariant
            pos <= bytes.len(),
            fields_of(bytes@) == match fields_of(bytes@.skip(pos as int)) {
                Some(rest) => Some(fields.deep_view() + rest),
                None => None,
            },
        decreases bytes.len() - pos,
    {
        match read_field(bytes, pos) {
            None => {
                return Err(SchemaError::Malformed);
            },
            Some((field, next)) => {
                proof {
                    let before = fields.deep_view();
                    let after = before.push(field@);
                    assert(bytes@.skip(pos as int).skip(next - pos) =~= bytes@.skip(next as int));
                    assert forall|rest: Seq<WireFieldView>|
                        before + (seq![field@] + rest) == after + rest by {
                        assert(before + (seq![field@] + rest) =~= after + rest);
                    }
                }
                let ghost before = fields.deep_view();
                fields.push(field);
                assert(fields.deep_view() =~= before.push(field@));
                pos = next;
            },
        }
    }
    assert(fields.deep_view() + Seq::<WireFieldView>::empty() =~= fields.deep_view());
    Ok(fields)
}

/// Whether every field numbered `number` carries a varint.
#[verifier::opaque]
pub open spec fn varints_only(fields: Seq<WireFieldView>, number: u32) -> bool {
    forall|i: int|
        0 <= i < fields.len() && (#[trigger] fields[i]).number == number
            ==> fields[i].value is Varint
}

/// Whether every field numbered `number` carries a length-prefixed value.
#[verifier::opaque]
pub open spec fn bytes_only(fields: Seq<WireFieldView>, number: u32) -> bool {
    forall|i: int|
        0 <= i < fields.len() && (#[trigger] fields[i]).number == number
            ==> fields[i].value is Bytes
}

/// The varint of the last field numbered `number`, if there is one.
#[verifier::opaque]
pub open spec fn last_varint(fields: Seq<WireFieldView>, number: u32) -> Option<u64>
    decreases fields.len(),
{
    if fields.len() == 0 {
        None
    } else {
        match fields.last().value {
            WireValueView::Varint(value) if fields.last().number == number => Some(value),
            _ => last_varint(fields.drop_last(), number),
        }
    }
}

/// The bytes of the last field numbered `number`, if there is one.
#[verifier::opaque]
pub open spec fn last_bytes(fields: Seq<WireFieldView>, number: u32) -> Option<Seq<u8>>
    decreases fields.len(),
{
    if fields.len() == 0 {
        None
    } else {
        match fields.last().value {
            WireValueView::Bytes(data) if fields.last().number == number => Some(data),
            _ => last_bytes(fields.drop_last(), number),
        }
    }
}

/// The bytes of every field numbered `number`, in the order of arrival.
#[verifier::opaque]
pub open spec fn every_bytes(fields: Seq<WireFieldView>, number: u32) -> Seq<Seq<u8>>
    decreases fields.len(),
{
    if fields.len() == 0 {
        Seq::empty()
    } else {
        match fields.last().value {
            WireValueView::Bytes(data) if fields.last().number == number => every_bytes(
                fields.drop_last(),
                number,
            ).push(data),
            _ => every_bytes(fields.drop_last(), number),
        }
    }
}

/// An optional `uint32`: the low 32 bits of the varint.
pub open spec fn as_u32(value: Option<u64>) -> Option<u32> {
    match value {
        Some(v) => Some(v as u32),
        None => None,
    }
}

/// An optional `bool`: whether the low 32 bits of the varint are not zero.
pub open spec fn as_bool(value: Option<u64>) -> Option<bool> {
    match value {
        Some(v) => Some(v as u32 != 0),
        None => None,
    }
}

/// The view of an optional run of bytes.
pub open spec fn opt_bytes(value: Option<Vec<u8>>) -> Option<Seq<u8>> {
    match value {
        Some(v) => Some(v@),
        None => None,
    }
}

/// The deep view of a run of bytes is the run itself.
pub proof fn lemma_bytes_deep_view(bytes: Vec<u8>)
    ensures
        bytes.deep_view() == bytes@,
{
    assert(bytes.deep_view() =~= bytes@);
}

/// Copies an optional run of bytes.
pub fn copy_opt_bytes(value: &Option<Vec<u8>>) -> (r: Option<Vec<u8>>)
    ensures
        opt_bytes(r) == opt_bytes(*value),
{
    match value {
        Some(bytes) => Some(bytes.clone()),
        None => None,
    }
}

/// The last varint field numbered `number`. Fails with `UnexpectedWireType`
/// exactly when some field of that number carries anything else.
pub fn pick_varint(fields: &Vec<WireField>, number: u32) -> (r: Result<Option<u64>, SchemaError>)
    ensures
        match r {
            Ok(value) => varints_only(fields.deep_view(), number) && value == last_varint(
                fields.deep_view(),
                number,
            ),
            Err(error) => error == SchemaError::UnexpectedWireType && !varints_only(
                fields.deep_view(),
                number,
            ),
        },
{
    proof {
        reveal(varints_only);
        reveal(last_varint);
    }
    let ghost all = fields.deep_view();
    let mut found: Option<u64> = None;
    let mut i: usize = 0;
    while i < fields.len()
        invariant
            i <= fields.len(),
            all == fields.deep_view(),
            all.len() == fields.len(),
            varints_only(all.take(i as int), number),
            found == last_varint(all.take(i as int), number),
        decreases fields.len() - i,
    {
        proof {
            reveal(varints_only);
            reveal(last_varint);
        }
        assert(all.take(i + 1).drop_last() =~= all.take(i as int));
        assert(all[i as int] == fields[i as int]@);
        if fields[i].number == number {
            match &fields[i].value {
                WireValue::Varint(value) => {
                    found = Some(*value);
                },
                _ => {
                    return Err(SchemaError::UnexpectedWireType);
                },
            }
        }
        i += 1;
    }
    assert(all.take(i as int) =~= all);
    Ok(found)
}

/// The last length-prefixed field numbered `number`. Fails with
/// `UnexpectedWireType` exactly when some field of that number carries
/// anything else.
pub fn pick_bytes(fields: &Vec<WireField>, number: u32) -> (r: Result<
    Option<Vec<u8>>,
    SchemaError,
>)
    ensures
        match r {
            Ok(value) => bytes_only(fields.deep_view(), number) && opt_bytes(value) == last_bytes(
                fields.deep_view(),
                number,
            ),
            Err(error) => error == SchemaError::UnexpectedWireType && !bytes_only(
                fields.deep_view(),
                number,
            ),
        },
{
    proof {
        reveal(bytes_only);
        reveal(last_bytes);
        reveal(every_bytes);
    }
    let ghost all = fields.deep_view();
    let mut found: Option<Vec<u8>> = None;
    let mut i: usize = 0;
    while i < fields.len()
        invariant
            i <= fields.len(),
            all == fields.deep_view(),
            all.len() == fields.len(),
            bytes_only(all.take(i as int), number),
            opt_bytes(found) == last_bytes(all.take(i as int), number),
        decreases fields.len() - i,
    {
        proof {
            reveal(bytes_only);
            reveal(last_bytes);
            reveal(every_bytes);
        }
        assert(all.take(i + 1).drop_last() =~= all.take(i as int));
        assert(all[i as int] == fields[i as int]@);
        if fields[i].number == number {
            match &fields[i].value {
                WireValue::Bytes(data) => {
                    found = Some(data.clone());
                },
                _ => {
                    return Err(SchemaError::UnexpectedWireType);
                },
            }
        }
        i += 1;
    }
    assert(all.take(i as int) =~= all);
    Ok(found)
}

/// Every length-prefixed field numbered `number`, in the order of arrival.
/// Fails with `UnexpectedWireType` exactly when some field of that number
/// carries anything else.
pub fn pick_every_bytes(fields: &Vec<WireField>, number: u32) -> (r: Result<
    Vec<Vec<u8>>,
    SchemaError,
>)
    ensures
        match r {
            Ok(values) => bytes_only(fields.deep_view(), number) && values.deep_view()
                == every_bytes(fields.deep_view(), number),
            Err(error) => error == SchemaError::UnexpectedWireType && !bytes_only(
                fields.deep_view(),
                number,
            ),
        },
{
    proof {
        reveal(bytes_only);
        reveal(last_bytes);
        reveal(every_bytes);
    }
    let ghost all = fields.deep_view();
    let mut found: Vec<Vec<u8>> = Vec::new();
    let mut i: usize = 0;
    assert(found.deep_view() =~= Seq::<Seq<u8>>::empty());
    while i < fields.len()
        invariant
            i <= fields.len(),
            all == fields.deep_view(),
            all.len() == fields.len(),
            bytes_only(all.take(i as int), number),
            found.deep_view() == every_bytes(all.take(i as int), number),
        decreases fields.len() - i,
    {
        proof {
            reveal(bytes_only);
            reveal(last_bytes);
            reveal(every_bytes);
        }
        assert(all.take(i + 1).drop_last() =~= all.take(i as int));
        assert(all[i as int] == fields[i as int]@);
        if fields[i].number == number {
            match &fields[i].value {
                WireValue::Bytes(data) => {
                    let ghost before = found.deep_view();
                    let copy = data.clone();
                    proof {
                        lemma_bytes_deep_view(copy);
                    }
                    found.push(copy);
                    assert(found.deep_view() =~= before.push(data@));
                },
                _ => {
                    return Err(SchemaError::UnexpectedWireType);
                },
            }
        }
        i += 1;
    }
    assert(all.take(i as int) =~= all);
    Ok(found)
}

/// The low 32 bits of an optional varint.
pub fn low_u32(value: Option<u64>) -> (r: Option<u32>)
    ensures
        r == as_u32(value),
{
    match value {
        Some(v) => Some(#[verifier::truncate] (v as u32)),
        None => None,
    }
}

/// Whether the low 32 bits of an optional varint are not zero.
pub fn low_bool(value: Option<u64>) -> (r: Option<bool>)
    ensures
        r == as_bool(value),
{
    match value {
        Some(v) => Some(#[verifier::truncate] (v as u32) != 0),
        None => None,
    }
}

/// An optional varint field: nothing where the value is absent.
pub open spec fn opt_varint_field(number: nat, value: Option<u32>) -> Seq<u8> {
    match value {
        Some(v) => varint_field(number, v as nat),
        None => Seq::empty(),
    }
}

/// An optional `bool` field: nothing where the value is absent.
pub open spec fn opt_bool_field(number: nat, value: Option<bool>) -> Seq<u8> {
    match value {
        Some(v) => bool_field(number, v),
        None => Seq::empty(),
    }
}

/// An optional `bytes` field: nothing where the value is absent.
pub open spec fn opt_bytes_field(number: nat, value: Option<Seq<u8>>) -> Seq<u8> {
    match value {
        Some(v) => bytes_field(number, v),
        None => Seq::empty(),
    }
}

/// Whether an optional value is short enough for a length prefix.
pub open spec fn opt_fits(value: Option<Seq<u8>>) -> bool {
    match value {
        Some(v) => v.len() <= VALUE_LEN_MAX,
        None => true,
    }
}

/// Appends a `uint32` field if the value is present.
pub fn put_opt_uint32(out: &mut Vec<u8>, number: u32, value: Option<u32>)
    requires
        1 <= number <= FIELD_NUMBER_MAX,
    ensures
        final(out)@ == old(out)@ + opt_varint_field(number as nat, value),
{
    match value {
        Some(v) => put_uint32(out, number, v),
        None => {
            assert(out@ + Seq::<u8>::empty() =~= out@);
        },
    }
}

/// Appends a `bool` field if the value is present.
pub fn put_opt_bool(out: &mut Vec<u8>, number: u32, value: Option<bool>)
    requires
        1 <= number <= FIELD_NUMBER_MAX,
    ensures
        final(out)@ == old(out)@ + opt_bool_field(number as nat, value),
{
    match value {
        Some(v) => put_bool(out, number, v),
        None => {
            assert(out@ + Seq::<u8>::empty() =~= out@);
        },
    }
}

/// Appends a `bytes` field, unless the value is too long for its length
/// prefix: then nothing is appended and the error is `TooLong`.
pub fn put_checked_bytes(out: &mut Vec<u8>, number: u32, data: &[u8]) -> (r: Result<
    (),
    SchemaError,
>)
    requires
        1 <= number <= FIELD_NUMBER_MAX,
    ensures
        match r {
            Ok(()) => data.len() <= VALUE_LEN_MAX && final(out)@ == old(out)@ + bytes_field(
                number as nat,
                data@,
            ),
            Err(error) => error == SchemaError::TooLong && data.len() > VALUE_LEN_MAX
                && final(out)@ == old(out)@,
        },
{
    if data.len() > VALUE_LEN_MAX {
        Err(SchemaError::TooLong)
    } else {
        put_bytes(out, number, data);
        Ok(())
    }
}

/// Appends a `bytes` field if the value is present and short enough; a value
/// that is too long is reported as `TooLong` and nothing is appended.
pub fn put_opt_bytes(out: &mut Vec<u8>, number: u32, value: &Option<Vec<u8>>) -> (r: Result<
    (),
    SchemaError,
>)
    requires
        1 <= number <= FIELD_NUMBER_MAX,
    ensures
        match r {
            Ok(()) => opt_fits(opt_bytes(*value)) && final(out)@ == old(out)@ + opt_bytes_field(
                number as nat,
                opt_bytes(*value),
            ),
            Err(error) => error == SchemaError::TooLong && !opt_fits(opt_bytes(*value))
                && final(out)@ == old(out)@,
        },
{
    match value {
        Some(v) => put_checked_bytes(out, number, v.as_slice()),
        None => {
            assert(out@ + Seq::<u8>::empty() =~= out@);
            Ok(())
        },
    }
}

/// 128 to the power of `n`.
pub open spec fn pow128(n: nat) -> nat
    decreases n,
{
    if n == 0 {
        1
    } else {
        128 * pow128((n - 1) as nat)
    }
}

/// A varint is read back as it was written, whatever follows it, so long as
/// the budget allows for its length.
pub proof fn lemma_varint_head_of_varint(value: nat, rest: Seq<u8>, budget: nat)
    requires
        budget >= 1,
        value < pow128(budget),
    ensures
        varint_head(varint(value) + rest, budget) == Some((value, varint(value).len())),
    decreases value,
{
    let bytes = varint(value) + rest;
    if value < 128 {
        assert(bytes[0] == value as u8);
    } else {
        let low = (128 + value % 128) as u8;
        assert(varint(value) =~= seq![low] + varint(value / 128));
        assert(bytes[0] == low);
        assert(bytes.drop_first() =~= varint(value / 128) + rest);
        assert(pow128(1) == 128) by {
            reveal_with_fuel(pow128, 2);
        }
        assert(budget >= 2);
        assert(pow128(budget) == 128 * pow128((budget - 1) as nat));
        assert(value / 128 < pow128((budget - 1) as nat));
        lemma_varint_head_of_varint(value / 128, rest, (budget - 1) as nat);
        assert(value == value % 128 + 128 * (value / 128));
    }
}

/// A varint of 64 bits is read back as it was written, whatever follows it.
pub proof fn lemma_leading_varint_of_varint(value: u64, rest: Seq<u8>)
    ensures
        leading_varint(varint(value as nat) + rest) == Some((value, varint(value as nat).len())),
{
    assert(pow128(10) == 0x40_0000_0000_0000_0000) by {
        reveal_with_fuel(pow128, 11);
    }
    lemma_varint_head_of_varint(value as nat, rest, VARINT_LEN_MAX as nat);
}

/// A varint of 64 bits takes at least one byte and ten at most.
pub proof fn lemma_varint_len(value: u64)
    ensures
        1 <= varint(value as nat).len() <= VARINT_LEN_MAX,
{
    let bytes = varint(value as nat) + Seq::<u8>::empty();
    lemma_leading_varint_of_varint(value, Seq::<u8>::empty());
    lemma_varint_head_bounds(bytes, VARINT_LEN_MAX as nat);
}

/// A tag is read back as it was written, whatever follows it.
pub proof fn lemma_leading_tag_of_tag(number: u32, wire_type: u8, rest: Seq<u8>)
    requires
        1 <= number <= FIELD_NUMBER_MAX,
        wire_type <= 5,
    ensures
        leading_tag(tag(number as nat, wire_type as nat) + rest) == Some(
            (number, wire_type, tag(number as nat, wire_type as nat).len()),
        ),
{
    let key = (number * 8 + wire_type) as u64;
    lemma_leading_varint_of_varint(key, rest);
}

/// A varint field is read back as it was written, whatever follows it.
pub proof fn lemma_leading_varint_field(number: u32, value: u64, rest: Seq<u8>)
    requires
        1 <= number <= FIELD_NUMBER_MAX,
    ensures
        leading_field(varint_field(number as nat, value as nat) + rest) == Some(
            (
                WireFieldView { number, value: WireValueView::Varint(value) },
                varint_field(number as nat, value as nat).len(),
            ),
        ),
{
    let head = tag(number as nat, WIRE_VARINT as nat);
    let body = varint(value as nat);
    let bytes = varint_field(number as nat, value as nat) + rest;
    assert(bytes =~= head + (body + rest));
    lemma_leading_tag_of_tag(number, WIRE_VARINT, body + rest);
    assert(bytes.skip(head.len() as int) =~= body + rest);
    lemma_leading_varint_of_varint(value, rest);
}

/// A length-prefixed field is read back as it was written, whatever follows
/// it.
pub proof fn lemma_leading_bytes_field(number: u32, data: Seq<u8>, rest: Seq<u8>)
    requires
        1 <= number <= FIELD_NUMBER_MAX,
        data.len() <= VALUE_LEN_MAX,
    ensures
        leading_field(bytes_field(number as nat, data) + rest) == Some(
            (
                WireFieldView { number, value: WireValueView::Bytes(data) },
                bytes_field(number as nat, data).len(),
            ),
        ),
{
    let head = tag(number as nat, WIRE_LENGTH_DELIMITED as nat);
    let count = varint(data.len());
    let bytes = bytes_field(number as nat, data) + rest;
    assert(bytes =~= head + (count + (data + rest)));
    lemma_leading_tag_of_tag(number, WIRE_LENGTH_DELIMITED, count + (data + rest));
    let body = bytes.skip(head.len() as int);
    assert(body =~= count + (data + rest));
    lemma_leading_varint_of_varint(data.len() as u64, data + rest);
    assert(body.subrange(count.len() as int, (count.len() + data.len()) as int) =~= data);
}

/// A field as it is written: its tag and its value. Fixed-width fields are
/// not written.
pub open spec fn field_bytes(field: WireFieldView) -> Seq<u8> {
    match field.value {
        WireValueView::Varint(value) => varint_field(field.number as nat, value as nat),
        WireValueView::Bytes(data) => bytes_field(field.number as nat, data),
        _ => Seq::empty(),
    }
}

/// Whether a field can be written: its number is one a tag can carry, and
/// its value is a varint or a run of bytes short enough for its length
/// prefix.
pub open spec fn field_fits(field: WireFieldView) -> bool {
    &&& 1 <= field.number <= FIELD_NUMBER_MAX
    &&& match field.value {
        WireValueView::Varint(value) => true,
        WireValueView::Bytes(data) => data.len() <= VALUE_LEN_MAX,
        _ => false,
    }
}

/// A run of fields as it is written: one after the other.
pub open spec fn wire(fields: Seq<WireFieldView>) -> Seq<u8>
    decreases fields.len(),
{
    if fields.len() == 0 {
        Seq::empty()
    } else {
        field_bytes(fields.first()) + wire(fields.drop_first())
    }
}

/// A field as it is written is at least one byte long.
pub proof fn lemma_field_bytes_len(field: WireFieldView)
    requires
        field_fits(field),
    ensures
        field_bytes(field).len() >= 1,
{
    assert(varint((field.number * 8) as nat).len() >= 1);
    assert(varint((field.number * 8 + 2) as nat).len() >= 1);
}

/// A field is read back as it was written, whatever follows it.
pub proof fn lemma_leading_field_of_field(field: WireFieldView, rest: Seq<u8>)
    requires
        field_fits(field),
    ensures
        leading_field(field_bytes(field) + rest) == Some((field, field_bytes(field).len())),
{
    match field.value {
        WireValueView::Varint(value) => lemma_leading_varint_field(field.number, value, rest),
        WireValueView::Bytes(data) => lemma_leading_bytes_field(field.number, data, rest),
        _ => {},
    }
}

/// Reading is the inverse of writing: the fields of a run of fields as it
/// is written are those fields, in order.
pub proof fn lemma_fields_of_wire(fields: Seq<WireFieldView>)
    requires
        forall|i: int| 0 <= i < fields.len() ==> field_fits(#[trigger] fields[i]),
    ensures
        fields_of(wire(fields)) == Some(fields),
    decreases fields.len(),
{
    if fields.len() > 0 {
        let first = fields.first();
        let later = fields.drop_first();
        let bytes = wire(fields);
        assert(field_fits(fields[0]));
        assert forall|i: int| 0 <= i < later.len() implies field_fits(#[trigger] later[i]) by {
            assert(later[i] == fields[i + 1]);
        }
        lemma_field_bytes_len(first);
        lemma_leading_field_of_field(first, wire(later));
        lemma_fields_of_wire(later);
        assert(bytes.skip(field_bytes(first).len() as int) =~= wire(later));
        assert(seq![first] + later =~= fields);
    }
}

/// Writing one run of fields after another is writing the two as one.
pub proof fn lemma_wire_concat(a: Seq<WireFieldView>, b: Seq<WireFieldView>)
    ensures
        wire(a + b) == wire(a) + wire(b),
    decreases a.len(),
{
    if a.len() == 0 {
        assert(a + b =~= b);
        assert(wire(a) + wire(b) =~= wire(b));
    } else {
        assert((a + b).first() == a.first());
        assert((a + b).drop_first() =~= a.drop_first() + b);
        lemma_wire_concat(a.drop_first(), b);
        assert(wire(a + b) =~= wire(a) + wire(b));
    }
}

/// Both of two runs of fields are of the right wire type under a number
/// exactly if the one after the other is.
pub proof fn lemma_kinds_of_concat(a: Seq<WireFieldView>, b: Seq<WireFieldView>, n: u32)
    ensures
        bytes_only(a + b, n) == (bytes_only(a, n) && bytes_only(b, n)),
        varints_only(a + b, n) == (varints_only(a, n) && varints_only(b, n)),
{
    reveal(bytes_only);
    reveal(varints_only);
    let both = a + b;
    assert forall|i: int| 0 <= i < a.len() implies #[trigger] a[i] == both[i] by {}
    assert forall|i: int| 0 <= i < b.len() implies #[trigger] b[i] == both[a.len() + i] by {}
    assert forall|i: int| 0 <= i < both.len() implies #[trigger] both[i] == if i < a.len() {
        a[i]
    } else {
        b[i - a.len()]
    } by {}
}

/// What is picked under a number from one run of fields after another: the
/// last field is that of the second run if it has one, else that of the
/// first, and all fields are those of the first run, then those of the
/// second.
pub proof fn lemma_lasts_of_concat(a: Seq<WireFieldView>, b: Seq<WireFieldView>, n: u32)
    ensures
        last_bytes(a + b, n) == match last_bytes(b, n) {
            Some(data) => Some(data),
            None => last_bytes(a, n),
        },
        last_varint(a + b, n) == match last_varint(b, n) {
            Some(value) => Some(value),
            None => last_varint(a, n),
        },
        every_bytes(a + b, n) == every_bytes(a, n) + every_bytes(b, n),
    decreases b.len(),
{
    reveal(last_bytes);
    reveal(last_varint);
    reveal(every_bytes);
    if b.len() == 0 {
        assert(a + b =~= a);
        assert(every_bytes(a, n) + every_bytes(b, n) =~= every_bytes(a, n));
    } else {
        assert((a + b).last() == b.last());
        assert((a + b).drop_last() =~= a + b.drop_last());
        lemma_lasts_of_concat(a, b.drop_last(), n);
        assert(every_bytes(a + b, n) =~= every_bytes(a, n) + every_bytes(b, n));
    }
}

/// What is picked from one run of fields after another, under any number.
pub proof fn lemma_picks_of_concat(a: Seq<WireFieldView>, b: Seq<WireFieldView>)
    ensures
        forall|n: u32| #[trigger]
            last_bytes(a + b, n) == match last_bytes(b, n) {
                Some(data) => Some(data),
                None => last_bytes(a, n),
            },
        forall|n: u32| #[trigger]
            last_varint(a + b, n) == match last_varint(b, n) {
                Some(value) => Some(value),
                None => last_varint(a, n),
            },
        forall|n: u32| #[trigger] every_bytes(a + b, n) == every_bytes(a, n) + every_bytes(b, n),
        forall|n: u32| #[trigger] bytes_only(a + b, n) == (bytes_only(a, n) && bytes_only(b, n)),
        forall|n: u32| #[trigger]
            varints_only(a + b, n) == (varints_only(a, n) && varints_only(b, n)),
{
    assert forall|n: u32| #[trigger]
        last_bytes(a + b, n) == match last_bytes(b, n) {
            Some(data) => Some(data),
            None => last_bytes(a, n),
        } by {
        lemma_lasts_of_concat(a, b, n);
    }
    assert forall|n: u32| #[trigger]
        last_varint(a + b, n) == match last_varint(b, n) {
            Some(value) => Some(value),
            None => last_varint(a, n),
        } by {
        lemma_lasts_of_concat(a, b, n);
    }
    assert forall|n: u32| #[trigger]
        every_bytes(a + b, n) == every_bytes(a, n) + every_bytes(b, n) by {
        lemma_lasts_of_concat(a, b, n);
    }
    assert forall|n: u32| #[trigger]
        bytes_only(a + b, n) == (bytes_only(a, n) && bytes_only(b, n)) by {
        lemma_kinds_of_concat(a, b, n);
    }
    assert forall|n: u32| #[trigger]
        varints_only(a + b, n) == (varints_only(a, n) && varints_only(b, n)) by {
        lemma_kinds_of_concat(a, b, n);
    }
}

/// What is picked from a single field: the field, under its own number and
/// as what it is; nothing under any other number.
pub proof fn lemma_picks_of_one(field: WireFieldView)
    ensures
        forall|n: u32| #[trigger]
            last_bytes(seq![field], n) == match field.value {
                WireValueView::Bytes(data) if field.number == n => Some(data),
                _ => None,
            },
        forall|n: u32| #[trigger]
            last_varint(seq![field], n) == match field.value {
                WireValueView::Varint(value) if field.number == n => Some(value),
                _ => None,
            },
        forall|n: u32| #[trigger]
            every_bytes(seq![field], n) == match field.value {
                WireValueView::Bytes(data) if field.number == n => seq![data],
                _ => Seq::empty(),
            },
        forall|n: u32| #[trigger]
            bytes_only(seq![field], n) == (field.number == n ==> field.value is Bytes),
        forall|n: u32| #[trigger]
            varints_only(seq![field], n) == (field.number == n ==> field.value is Varint),
{
    reveal(bytes_only);
    reveal(varints_only);
    reveal(last_bytes);
    reveal(last_varint);
    reveal(every_bytes);
    let one = seq![field];
    assert(one.last() == field);
    assert(one.drop_last() =~= Seq::<WireFieldView>::empty());
    assert(one[0] == field);
    assert forall|n: u32| #[trigger]
        every_bytes(one, n) == match field.value {
            WireValueView::Bytes(data) if field.number == n => seq![data],
            _ => Seq::empty(),
        } by {
        assert(every_bytes(one.drop_last(), n) =~= Seq::<Seq<u8>>::empty());
        match field.value {
            WireValueView::Bytes(data) if field.number == n => {
                assert(every_bytes(one, n) =~= seq![data]);
            },
            _ => {},
        }
    }
    assert forall|n: u32| #[trigger]
        last_bytes(one, n) == match field.value {
            WireValueView::Bytes(data) if field.number == n => Some(data),
            _ => None,
        } by {
        assert(last_bytes(one.drop_last(), n) is None);
    }
    assert forall|n: u32| #[trigger]
        last_varint(one, n) == match field.value {
            WireValueView::Varint(value) if field.number == n => Some(value),
            _ => None,
        } by {
        assert(last_varint(one.drop_last(), n) is None);
    }
}

/// Nothing is picked from no fields.
pub proof fn lemma_picks_of_none()
    ensures
        forall|n: u32| #[trigger] last_bytes(Seq::<WireFieldView>::empty(), n) is None,
        forall|n: u32| #[trigger] last_varint(Seq::<WireFieldView>::empty(), n) is None,
        forall|n: u32| #[trigger]
            every_bytes(Seq::<WireFieldView>::empty(), n) == Seq::<Seq<u8>>::empty(),
        forall|n: u32| #[trigger] bytes_only(Seq::<WireFieldView>::empty(), n),
        forall|n: u32| #[trigger] varints_only(Seq::<WireFieldView>::empty(), n),
{
    reveal(bytes_only);
    reveal(varints_only);
    reveal(last_bytes);
    reveal(last_varint);
    reveal(every_bytes);
}

/// The field that carries a run of bytes.
pub open spec fn bytes_is(number: u32, data: Seq<u8>) -> WireFieldView {
    WireFieldView { number, value: WireValueView::Bytes(data) }
}

/// The field that carries a number.
pub open spec fn varint_is(number: u32, value: u64) -> WireFieldView {
    WireFieldView { number, value: WireValueView::Varint(value) }
}

/// The field that carries a `bool`.
pub open spec fn bool_is(number: u32, value: bool) -> WireFieldView {
    varint_is(number, if value { 1 } else { 0 })
}

/// The fields, none or one, of an optional run of bytes.
pub open spec fn opt_bytes_is(number: u32, value: Option<Seq<u8>>) -> Seq<WireFieldView> {
    match value {
        Some(data) => seq![bytes_is(number, data)],
        None => Seq::empty(),
    }
}

/// The fields, none or one, of an optional number.
pub open spec fn opt_varint_is(number: u32, value: Option<u32>) -> Seq<WireFieldView> {
    match value {
        Some(v) => seq![varint_is(number, v as u64)],
        None => Seq::empty(),
    }
}

/// The fields, none or one, of an optional `bool`.
pub open spec fn opt_bool_is(number: u32, value: Option<bool>) -> Seq<WireFieldView> {
    match value {
        Some(v) => seq![bool_is(number, v)],
        None => Seq::empty(),
    }
}

/// A single field is written as its bytes.
pub proof fn lemma_wire_of_one(field: WireFieldView)
    ensures
        wire(seq![field]) == field_bytes(field),
{
    let one = seq![field];
    assert(one.first() == field);
    assert(one.drop_first() =~= Seq::<WireFieldView>::empty());
    assert(wire(one.drop_first()) =~= Seq::<u8>::empty());
    assert(wire(one) =~= field_bytes(field));
}

/// A number that went out as a varint comes back as it was; so does a
/// `bool`.
pub proof fn lemma_low_bits(value: u32)
    ensures
        (value as u64) as u32 == value,
        (1u64 as u32 != 0) == true,
        (0u64 as u32 != 0) == false,
{
    assert((value as u64) as u32 == value) by (bit_vector);
    assert(1u64 as u32 == 1u32) by (bit_vector);
    assert(0u64 as u32 == 0u32) by (bit_vector);
}

/// Whether every field of a run can be written.
pub open spec fn all_fit(fields: Seq<WireFieldView>) -> bool {
    forall|i: int| 0 <= i < fields.len() ==> field_fits(#[trigger] fields[i])
}

/// One run of fields after another is written as the first, then the
/// second, and can be written if both can.
pub proof fn lemma_wire_append(a: Seq<WireFieldView>, b: Seq<WireFieldView>)
    ensures
        wire(a + b) == wire(a) + wire(b),
        all_fit(a) && all_fit(b) ==> all_fit(a + b),
{
    lemma_wire_concat(a, b);
    if all_fit(a) && all_fit(b) {
        assert forall|i: int| 0 <= i < (a + b).len() implies field_fits(#[trigger] (a + b)[i]) by {
            if i < a.len() {
                assert((a + b)[i] == a[i]);
            } else {
                assert((a + b)[i] == b[i - a.len()]);
            }
        }
    }
}

/// How a run of bytes under a number is written, and whether it can be.
pub proof fn lemma_wire_bytes_is(number: u32, data: Seq<u8>)
    ensures
        wire(seq![bytes_is(number, data)]) == bytes_field(number as nat, data),
        1 <= number <= FIELD_NUMBER_MAX && data.len() <= VALUE_LEN_MAX ==> all_fit(
            seq![bytes_is(number, data)],
        ),
{
    lemma_wire_of_one(bytes_is(number, data));
}

/// How an optional run of bytes under a number is written, and whether it
/// can be.
pub proof fn lemma_wire_opt_bytes_is(number: u32, value: Option<Seq<u8>>)
    ensures
        wire(opt_bytes_is(number, value)) == opt_bytes_field(number as nat, value),
        1 <= number <= FIELD_NUMBER_MAX && opt_fits(value) ==> all_fit(
            opt_bytes_is(number, value),
        ),
{
    match value {
        Some(data) => lemma_wire_of_one(bytes_is(number, data)),
        None => {},
    }
}

/// How an optional number under a field number is written, and that it can
/// be.
pub proof fn lemma_wire_opt_varint_is(number: u32, value: Option<u32>)
    ensures
        wire(opt_varint_is(number, value)) == opt_varint_field(number as nat, value),
        1 <= number <= FIELD_NUMBER_MAX ==> all_fit(opt_varint_is(number, value)),
{
    match value {
        Some(v) => lemma_wire_of_one(varint_is(number, v as u64)),
        None => {},
    }
}

/// How an optional `bool` under a field number is written, and that it can
/// be.
pub proof fn lemma_wire_opt_bool_is(number: u32, value: Option<bool>)
    ensures
        wire(opt_bool_is(number, value)) == opt_bool_field(number as nat, value),
        1 <= number <= FIELD_NUMBER_MAX ==> all_fit(opt_bool_is(number, value)),
{
    match value {
        Some(v) => lemma_wire_of_one(bool_is(number, v)),
        None => {},
    }
}

/// What is picked from a run of fields under one number.
pub struct Picked {
    /// The bytes of the last length-prefixed field.
    pub bytes: Option<Seq<u8>>,
    /// The number of the last varint field.
    pub varint: Option<u64>,
    /// The bytes of every length-prefixed field, in order.
    pub every: Seq<Seq<u8>>,
    /// Whether every field is length-prefixed.
    pub bytes_only: bool,
    /// Whether every field is a varint.
    pub varints_only: bool,
}

/// What is picked from `fields` under the number `n`.
#[verifier::opaque]
pub open spec fn picked(fields: Seq<WireFieldView>, n: u32) -> Picked {
    Picked {
        bytes: last_bytes(fields, n),
        varint: last_varint(fields, n),
        every: every_bytes(fields, n),
        bytes_only: bytes_only(fields, n),
        varints_only: varints_only(fields, n),
    }
}

/// What is picked where there is no field of the number.
pub open spec fn nothing() -> Picked {
    Picked {
        bytes: None,
        varint: None,
        every: Seq::empty(),
        bytes_only: true,
        varints_only: true,
    }
}

/// What is picked from a single length-prefixed field under its number.
pub open spec fn one_bytes(data: Seq<u8>) -> Picked {
    Picked {
        bytes: Some(data),
        varint: None,
        every: seq![data],
        bytes_only: true,
        varints_only: false,
    }
}

/// What is picked from a single varint field under its number.
pub open spec fn one_varint(value: u64) -> Picked {
    Picked {
        bytes: None,
        varint: Some(value),
        every: Seq::empty(),
        bytes_only: false,
        varints_only: true,
    }
}

/// What is picked from one run of fields after another, given what is
/// picked from each: the later field wins, the fields of the first run
/// come before those of the second, and both runs must be of the right wire
/// type.
pub open spec fn join(first: Picked, second: Picked) -> Picked {
    Picked {
        bytes: match second.bytes {
            Some(data) => Some(data),
            None => first.bytes,
        },
        varint: match second.varint {
            Some(value) => Some(value),
            None => first.varint,
        },
        every: if second.every.len() == 0 {
            first.every
        } else if first.every.len() == 0 {
            second.every
        } else {
            first.every + second.every
        },
        bytes_only: first.bytes_only && second.bytes_only,
        varints_only: first.varints_only && second.varints_only,
    }
}

/// What `picked` stands for.
pub proof fn lemma_picked_means(fields: Seq<WireFieldView>, n: u32)
    ensures
        picked(fields, n).bytes == last_bytes(fields, n),
        picked(fields, n).varint == last_varint(fields, n),
        picked(fields, n).every == every_bytes(fields, n),
        picked(fields, n).bytes_only == bytes_only(fields, n),
        picked(fields, n).varints_only == varints_only(fields, n),
{
    reveal(picked);
}

/// What is picked, under any number, from one run of fields after another.
pub proof fn lemma_picked_append(a: Seq<WireFieldView>, b: Seq<WireFieldView>)
    ensures
        forall|n: u32| #[trigger] picked(a + b, n) == join(picked(a, n), picked(b, n)),
{
    reveal(picked);
    lemma_picks_of_concat(a, b);
    assert forall|n: u32| #[trigger] picked(a + b, n) == join(picked(a, n), picked(b, n)) by {
        let first = every_bytes(a, n);
        let second = every_bytes(b, n);
        if second.len() == 0 {
            assert(first + second =~= first);
        } else if first.len() == 0 {
            assert(first + second =~= second);
        }
    }
}

/// What is picked, under any number, from a run of bytes under a number.
pub proof fn lemma_picked_bytes_is(number: u32, data: Seq<u8>)
    ensures
        forall|n: u32| #[trigger]
            picked(seq![bytes_is(number, data)], n) == if n == number {
                one_bytes(data)
            } else {
                nothing()
            },
{
    reveal(picked);
    lemma_picks_of_one(bytes_is(number, data));
}

/// What is picked, under any number, from a number under a field number.
pub proof fn lemma_picked_varint_is(number: u32, value: u64)
    ensures
        forall|n: u32| #[trigger]
            picked(seq![varint_is(number, value)], n) == if n == number {
                one_varint(value)
            } else {
                nothing()
            },
{
    reveal(picked);
    lemma_picks_of_one(varint_is(number, value));
}

/// What is picked, under any number, from an optional run of bytes under a
/// number.
pub proof fn lemma_picked_opt_bytes_is(number: u32, value: Option<Seq<u8>>)
    ensures
        forall|n: u32| #[trigger]
            picked(opt_bytes_is(number, value), n) == match value {
                Some(data) if n == number => one_bytes(data),
                _ => nothing(),
            },
{
    reveal(picked);
    match value {
        Some(data) => lemma_picks_of_one(bytes_is(number, data)),
        None => lemma_picks_of_none(),
    }
}

/// The varint that stands for a `bool`.
pub open spec fn flag(value: bool) -> u64 {
    if value {
        1
    } else {
        0
    }
}

/// What is picked, under any number, from an optional number under a field
/// number.
pub proof fn lemma_picked_opt_varint_is(number: u32, value: Option<u32>)
    ensures
        forall|n: u32| #[trigger]
            picked(opt_varint_is(number, value), n) == match value {
                Some(v) if n == number => one_varint(v as u64),
                _ => nothing(),
            },
        forall|v: u32| #[trigger] as_u32(Some(v as u64)) == Some(v),
{
    reveal(picked);
    match value {
        Some(v) => lemma_picks_of_one(varint_is(number, v as u64)),
        None => lemma_picks_of_none(),
    }
    assert forall|v: u32| #[trigger] as_u32(Some(v as u64)) == Some(v) by {
        lemma_low_bits(v);
    }
}

/// What is picked, under any number, from an optional `bool` under a field
/// number.
pub proof fn lemma_picked_opt_bool_is(number: u32, value: Option<bool>)
    ensures
        forall|n: u32| #[trigger]
            picked(opt_bool_is(number, value), n) == match value {
                Some(v) if n == number => one_varint(flag(v)),
                _ => nothing(),
            },
        forall|v: bool| #[trigger] as_bool(Some(flag(v))) == Some(v),
{
    reveal(picked);
    match value {
        Some(v) => lemma_picks_of_one(bool_is(number, v)),
        None => lemma_picks_of_none(),
    }
    lemma_low_bits(0);
}

} // verus!
