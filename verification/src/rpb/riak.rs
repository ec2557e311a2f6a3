//! Messages every part of the protocol shares: the error reply, server
//! information, and the requests that name a bucket or a bucket type.

use crate::bucket::{props_of, props_view, BucketProps, BucketPropsView};
use crate::errors::{bytes_view, SchemaError, ServerError, ServerErrorView};
use crate::rpb::wire::{
    as_u32, bytes_field, bytes_is, bytes_only, fields_of, last_bytes, last_varint,
    lemma_fields_of_wire, lemma_low_bits, lemma_picks_of_concat, lemma_picks_of_one,
    lemma_wire_concat, lemma_wire_of_one, low_u32, opt_bytes, pick_bytes, pick_varint,
    put_checked_bytes, scan_fields, varint_field, varint_is, varints_only, wire, WireField,
    WireFieldView, VALUE_LEN_MAX,
};
use vstd::prelude::*;

verus! {

/// The error record that a run of fields stands for: the message in field 1
/// and the code in field 2, both required.
pub open spec fn error_resp(fields: Seq<WireFieldView>) -> Result<ServerErrorView, SchemaError> {
    if !bytes_only(fields, 1) || !varints_only(fields, 2) {
        Err(SchemaError::UnexpectedWireType)
    } else {
        match (last_bytes(fields, 1), as_u32(last_varint(fields, 2))) {
            (Some(data), Some(code)) => Ok(ServerErrorView { code, data }),
            _ => Err(SchemaError::MissingField),
        }
    }
}

/// The error record that a payload stands for.
pub open spec fn error_resp_of(payload: Seq<u8>) -> Result<ServerErrorView, SchemaError> {
    match fields_of(payload) {
        Some(fields) => error_resp(fields),
        None => Err(SchemaError::Malformed),
    }
}

/// The view of a decoded error record.
pub open spec fn server_error_view(r: Result<ServerError, SchemaError>) -> Result<
    ServerErrorView,
    SchemaError,
> {
    match r {
        Ok(error) => Ok(error@),
        Err(error) => Err(error),
    }
}

/// Builds the server's error record from the fields of its payload.
pub fn error_resp_from_fields(fields: &Vec<WireField>) -> (r: Result<ServerError, SchemaError>)
    ensures
        server_error_view(r) == error_resp(fields.deep_view()),
{
    let data = pick_bytes(fields, 1)?;
    let code = low_u32(pick_varint(fields, 2)?);
    match (data, code) {
        (Some(data), Some(code)) => Ok(ServerError::new(code, data)),
        _ => Err(SchemaError::MissingField),
    }
}

/// Reads the payload of an error reply.
pub fn parse_error_resp(payload: &[u8]) -> (r: Result<ServerError, SchemaError>)
    ensures
        server_error_view(r) == error_resp_of(payload@),
{
    let fields = scan_fields(payload)?;
    error_resp_from_fields(&fields)
}

/// A request that names one thing, a bucket, a bucket type, a schema or an
/// index: the name in field 1.
pub open spec fn named_req(name: Seq<u8>) -> Result<Seq<u8>, SchemaError> {
    if name.len() <= VALUE_LEN_MAX {
        Ok(bytes_field(1, name))
    } else {
        Err(SchemaError::TooLong)
    }
}

/// Renders a request that names one thing. Fails with `TooLong` exactly
/// when the name is longer than a field can hold.
pub fn write_named_req(name: &[u8]) -> (r: Result<Vec<u8>, SchemaError>)
    ensures
        bytes_view(r) == named_req(name@),
{
    let mut out: Vec<u8> = Vec::new();
    put_checked_bytes(&mut out, 1, name)?;
    assert(out@ =~= bytes_field(1, name@));
    Ok(out)
}

/// A request that names two things, or a record of two texts: the first in
/// field 1, the second in field 2.
pub open spec fn pair_req(first: Seq<u8>, second: Seq<u8>) -> Result<Seq<u8>, SchemaError> {
    if first.len() <= VALUE_LEN_MAX && second.len() <= VALUE_LEN_MAX {
        Ok(bytes_field(1, first) + bytes_field(2, second))
    } else {
        Err(SchemaError::TooLong)
    }
}

/// Renders a request that names two things. Fails with `TooLong` exactly
/// when one of the names is longer than a field can hold.
pub fn write_pair_req(first: &[u8], second: &[u8]) -> (r: Result<Vec<u8>, SchemaError>)
    ensures
        bytes_view(r) == pair_req(first@, second@),
{
    let mut out: Vec<u8> = Vec::new();
    put_checked_bytes(&mut out, 1, first)?;
    put_checked_bytes(&mut out, 2, second)?;
    assert(out@ =~= bytes_field(1, first@) + bytes_field(2, second@));
    Ok(out)
}

/// A text that is empty where it is absent.
pub open spec fn or_empty(value: Option<Seq<u8>>) -> Seq<u8> {
    match value {
        Some(bytes) => bytes,
        None => Seq::empty(),
    }
}

/// The bytes of an optional text, empty where it is absent.
pub fn bytes_or_empty(value: Option<Vec<u8>>) -> (r: Vec<u8>)
    ensures
        r@ == or_empty(opt_bytes(value)),
{
    match value {
        Some(bytes) => bytes,
        None => Vec::new(),
    }
}

/// What the server says of itself: the name of the node in field 1, the
/// version in field 2, each empty where it is absent.
pub open spec fn server_info(fields: Seq<WireFieldView>) -> Result<
    (Seq<u8>, Seq<u8>),
    SchemaError,
> {
    if !(bytes_only(fields, 1) && bytes_only(fields, 2)) {
        Err(SchemaError::UnexpectedWireType)
    } else {
        Ok((or_empty(last_bytes(fields, 1)), or_empty(last_bytes(fields, 2))))
    }
}

/// What the server says of itself in a payload.
pub open spec fn server_info_of(payload: Seq<u8>) -> Result<(Seq<u8>, Seq<u8>), SchemaError> {
    match fields_of(payload) {
        Some(fields) => server_info(fields),
        None => Err(SchemaError::Malformed),
    }
}

/// The view of a decoded pair of texts.
pub open spec fn pair_view(r: Result<(Vec<u8>, Vec<u8>), SchemaError>) -> Result<
    (Seq<u8>, Seq<u8>),
    SchemaError,
> {
    match r {
        Ok((first, second)) => Ok((first@, second@)),
        Err(error) => Err(error),
    }
}

/// Builds node name and version from the fields of the payload.
pub fn server_info_from_fields(fields: &Vec<WireField>) -> (r: Result<
    (Vec<u8>, Vec<u8>),
    SchemaError,
>)
    ensures
        pair_view(r) == server_info(fields.deep_view()),
{
    let node = pick_bytes(fields, 1)?;
    let version = pick_bytes(fields, 2)?;
    Ok((bytes_or_empty(node), bytes_or_empty(version)))
}

/// Reads the payload of the server's account of itself.
pub fn parse_server_info(payload: &[u8]) -> (r: Result<(Vec<u8>, Vec<u8>), SchemaError>)
    ensures
        pair_view(r) == server_info_of(payload@),
{
    let fields = scan_fields(payload)?;
    server_info_from_fields(&fields)
}

/// The properties that the fields of a reply carry: a nested record in
/// field 1, required.
pub open spec fn get_bucket_resp(fields: Seq<WireFieldView>) -> Result<
    BucketPropsView,
    SchemaError,
> {
    if !bytes_only(fields, 1) {
        Err(SchemaError::UnexpectedWireType)
    } else {
        match last_bytes(fields, 1) {
            None => Err(SchemaError::MissingField),
            Some(record) => props_of(record),
        }
    }
}

/// The properties that the payload of a reply carries.
pub open spec fn get_bucket_resp_of(payload: Seq<u8>) -> Result<BucketPropsView, SchemaError> {
    match fields_of(payload) {
        Some(fields) => get_bucket_resp(fields),
        None => Err(SchemaError::Malformed),
    }
}

/// Builds the properties from the fields of a reply.
pub fn get_bucket_resp_from_fields(fields: &Vec<WireField>) -> (r: Result<
    BucketProps,
    SchemaError,
>)
    ensures
        props_view(r) == get_bucket_resp(fields.deep_view()),
{
    match pick_bytes(fields, 1)? {
        None => Err(SchemaError::MissingField),
        Some(record) => BucketProps::parse(record.as_slice()),
    }
}

/// Reads the payload of a reply that carries properties.
pub fn parse_get_bucket_resp(payload: &[u8]) -> (r: Result<BucketProps, SchemaError>)
    ensures
        props_view(r) == get_bucket_resp_of(payload@),
{
    let fields = scan_fields(payload)?;
    get_bucket_resp_from_fields(&fields)
}

/// An error record as a server writes it: the message in field 1, the code
/// in field 2.
pub open spec fn error_resp_bytes(error: ServerErrorView) -> Seq<u8> {
    bytes_field(1, error.data) + varint_field(2, error.code as nat)
}

/// The error record that a server wrote is the one that is read: the same
/// code, the same message, byte for byte.
pub proof fn lemma_error_resp_round_trip(error: ServerErrorView)
    requires
        error.data.len() <= VALUE_LEN_MAX,
    ensures
        error_resp_of(error_resp_bytes(error)) == Ok::<ServerErrorView, SchemaError>(error),
{
    let message = seq![bytes_is(1, error.data)];
    let code = seq![varint_is(2, error.code as u64)];
    let fields = message + code;
    lemma_wire_concat(message, code);
    lemma_wire_of_one(bytes_is(1, error.data));
    lemma_wire_of_one(varint_is(2, error.code as u64));
    assert(wire(fields) == error_resp_bytes(error));
    lemma_fields_of_wire(fields);
    lemma_picks_of_concat(message, code);
    lemma_picks_of_one(bytes_is(1, error.data));
    lemma_picks_of_one(varint_is(2, error.code as u64));
    lemma_low_bits(error.code);
}

/// A pair of texts as it is rendered is read back as the two texts.
pub proof fn lemma_pair_round_trip(first: Seq<u8>, second: Seq<u8>)
    requires
        first.len() <= VALUE_LEN_MAX,
        second.len() <= VALUE_LEN_MAX,
    ensures
        fields_of(bytes_field(1, first) + bytes_field(2, second)) == Some(
            seq![bytes_is(1, first), bytes_is(2, second)],
        ),
        bytes_only(seq![bytes_is(1, first), bytes_is(2, second)], 1),
        bytes_only(seq![bytes_is(1, first), bytes_is(2, second)], 2),
        last_bytes(seq![bytes_is(1, first), bytes_is(2, second)], 1) == Some(first),
        last_bytes(seq![bytes_is(1, first), bytes_is(2, second)], 2) == Some(second),
{
    let a = seq![bytes_is(1, first)];
    let b = seq![bytes_is(2, second)];
    let fields = seq![bytes_is(1, first), bytes_is(2, second)];
    assert(a + b =~= fields);
    lemma_wire_concat(a, b);
    lemma_wire_of_one(bytes_is(1, first));
    lemma_wire_of_one(bytes_is(2, second));
    lemma_fields_of_wire(fields);
    lemma_picks_of_concat(a, b);
    lemma_picks_of_one(bytes_is(1, first));
    lemma_picks_of_one(bytes_is(2, second));
}

} // verus!
