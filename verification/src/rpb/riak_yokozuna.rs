//! Messages about search schemas and indexes.

use crate::errors::{bytes_view, SchemaError};
use crate::rpb::riak::{bytes_or_empty, lemma_pair_round_trip, or_empty, pair_req, write_pair_req};
use crate::rpb::riak_kv::{lemma_names_of_name_fields, name_fields};
use crate::rpb::wire::{
    bytes_field, bytes_is, bytes_only, every_bytes, field_fits, fields_of, last_bytes,
    lemma_bytes_deep_view, lemma_fields_of_wire, lemma_picks_of_one, lemma_wire_of_one, pick_bytes,
    pick_every_bytes, put_checked_bytes, scan_fields, wire, WireField, WireFieldView, VALUE_LEN_MAX,
};
use crate::yokozuna::{
    index_bytes, index_fits, index_of, lemma_index_round_trip, YokozunaIndex, YokozunaIndexView,
};
use vstd::prelude::*;

verus! {

/// The request to store a schema: a nested record in field 1 that holds the
/// name in its field 1 and the content in its field 2.
pub open spec fn schema_put_req(name: Seq<u8>, content: Seq<u8>) -> Result<Seq<u8>, SchemaError> {
    match pair_req(name, content) {
        Ok(schema) if schema.len() <= VALUE_LEN_MAX => Ok(bytes_field(1, schema)),
        _ => Err(SchemaError::TooLong),
    }
}

/// Renders the request to store a schema. Fails with `TooLong` exactly when
/// the name, the content or the record of both is longer than a field can
/// hold.
pub fn write_schema_put_req(name: &[u8], content: &[u8]) -> (r: Result<Vec<u8>, SchemaError>)
    ensures
        bytes_view(r) == schema_put_req(name@, content@),
{
    let schema = write_pair_req(name, content)?;
    let mut out: Vec<u8> = Vec::new();
    put_checked_bytes(&mut out, 1, schema.as_slice())?;
    assert(out@ =~= bytes_field(1, schema@));
    Ok(out)
}

/// The content of the schema that a run of fields stands for: the name in
/// field 1, required, the content in field 2, empty where it is absent.
pub open spec fn schema_content(fields: Seq<WireFieldView>) -> Result<Seq<u8>, SchemaError> {
    if !(bytes_only(fields, 1) && bytes_only(fields, 2)) {
        Err(SchemaError::UnexpectedWireType)
    } else {
        match last_bytes(fields, 1) {
            None => Err(SchemaError::MissingField),
            Some(name) => Ok(or_empty(last_bytes(fields, 2))),
        }
    }
}

/// The content of the schema that the bytes of a nested record stand for.
pub open spec fn schema_content_of(bytes: Seq<u8>) -> Result<Seq<u8>, SchemaError> {
    match fields_of(bytes) {
        Some(fields) => schema_content(fields),
        None => Err(SchemaError::Malformed),
    }
}

/// The content of the schema that the fields of a reply carry: the schema
/// is a nested record in field 1, required.
pub open spec fn schema_get_resp(fields: Seq<WireFieldView>) -> Result<Seq<u8>, SchemaError> {
    if !bytes_only(fields, 1) {
        Err(SchemaError::UnexpectedWireType)
    } else {
        match last_bytes(fields, 1) {
            None => Err(SchemaError::MissingField),
            Some(schema) => schema_content_of(schema),
        }
    }
}

/// The content of the schema that the payload of a reply carries.
pub open spec fn schema_get_resp_of(payload: Seq<u8>) -> Result<Seq<u8>, SchemaError> {
    match fields_of(payload) {
        Some(fields) => schema_get_resp(fields),
        None => Err(SchemaError::Malformed),
    }
}

/// Takes the content out of the fields of a schema record.
pub fn schema_content_from_fields(fields: &Vec<WireField>) -> (r: Result<Vec<u8>, SchemaError>)
    ensures
        bytes_view(r) == schema_content(fields.deep_view()),
{
    let name = pick_bytes(fields, 1)?;
    let content = pick_bytes(fields, 2)?;
    match name {
        None => Err(SchemaError::MissingField),
        Some(_) => Ok(bytes_or_empty(content)),
    }
}

/// Takes the content of the schema out of the fields of a reply.
pub fn schema_get_resp_from_fields(fields: &Vec<WireField>) -> (r: Result<Vec<u8>, SchemaError>)
    ensures
        bytes_view(r) == schema_get_resp(fields.deep_view()),
{
    match pick_bytes(fields, 1)? {
        None => Err(SchemaError::MissingField),
        Some(schema) => {
            let inner = scan_fields(schema.as_slice())?;
            schema_content_from_fields(&inner)
        },
    }
}

/// Reads the payload of a reply that carries a schema.
pub fn parse_schema_get_resp(payload: &[u8]) -> (r: Result<Vec<u8>, SchemaError>)
    ensures
        bytes_view(r) == schema_get_resp_of(payload@),
{
    let fields = scan_fields(payload)?;
    schema_get_resp_from_fields(&fields)
}

/// The indexes that a list of nested records stands for, or the error of
/// the first record that cannot be read.
pub open spec fn indexes_of(records: Seq<Seq<u8>>) -> Result<Seq<YokozunaIndexView>, SchemaError>
    decreases records.len(),
{
    if records.len() == 0 {
        Ok(Seq::empty())
    } else {
        match indexes_of(records.drop_last()) {
            Err(error) => Err(error),
            Ok(indexes) => match index_of(records.last()) {
                Err(error) => Err(error),
                Ok(index) => Ok(indexes.push(index)),
            },
        }
    }
}

/// The indexes that the fields of a reply carry: an index for every field
/// numbered 1, in order.
pub open spec fn index_get_resp(fields: Seq<WireFieldView>) -> Result<
    Seq<YokozunaIndexView>,
    SchemaError,
> {
    if !bytes_only(fields, 1) {
        Err(SchemaError::UnexpectedWireType)
    } else {
        indexes_of(every_bytes(fields, 1))
    }
}

/// The indexes that the payload of a reply carries.
pub open spec fn index_get_resp_of(payload: Seq<u8>) -> Result<
    Seq<YokozunaIndexView>,
    SchemaError,
> {
    match fields_of(payload) {
        Some(fields) => index_get_resp(fields),
        None => Err(SchemaError::Malformed),
    }
}

/// The view of a decoded list of indexes.
pub open spec fn indexes_view(r: Result<Vec<YokozunaIndex>, SchemaError>) -> Result<
    Seq<YokozunaIndexView>,
    SchemaError,
> {
    match r {
        Ok(indexes) => Ok(indexes.deep_view()),
        Err(error) => Err(error),
    }
}

/// A list of nested indexes cannot be read once a part of it cannot, and
/// the error is that of the part.
pub proof fn lemma_indexes_fail_on(records: Seq<Seq<u8>>, n: int)
    requires
        0 <= n <= records.len(),
        indexes_of(records.take(n)) is Err,
    ensures
        indexes_of(records) == indexes_of(records.take(n)),
    decreases records.len() - n,
{
    if n < records.len() {
        assert(records.take(n + 1).drop_last() =~= records.take(n));
        lemma_indexes_fail_on(records, n + 1);
    } else {
        assert(records.take(n) =~= records);
    }
}

/// Builds the list of indexes from the fields of a reply.
pub fn index_get_resp_from_fields(fields: &Vec<WireField>) -> (r: Result<
    Vec<YokozunaIndex>,
    SchemaError,
>)
    ensures
        indexes_view(r) == index_get_resp(fields.deep_view()),
{
    let records = pick_every_bytes(fields, 1)?;
    let ghost all = records.deep_view();
    let mut indexes: Vec<YokozunaIndex> = Vec::new();
    let mut i: usize = 0;
    assert(all.take(0) =~= Seq::<Seq<u8>>::empty());
    assert(indexes.deep_view() =~= Seq::<YokozunaIndexView>::empty());
    while i < records.len()
        invariant
            i <= records.len(),
            bytes_only(fields.deep_view(), 1),
            all == records.deep_view(),
            all == every_bytes(fields.deep_view(), 1),
            indexes_of(all.take(i as int)) == Ok::<Seq<YokozunaIndexView>, SchemaError>(
                indexes.deep_view(),
            ),
        decreases records.len() - i,
    {
        proof {
            assert(all.take(i + 1).drop_last() =~= all.take(i as int));
            assert(all.take(i + 1).last() == all[i as int]);
            lemma_bytes_deep_view(records[i as int]);
        }
        let ghost before = indexes.deep_view();
        match YokozunaIndex::new_from_rpb_yokozuna_index(records[i].as_slice()) {
            Ok(index) => {
                indexes.push(index);
                assert(indexes.deep_view() =~= before.push(index@));
            },
            Err(error) => {
                proof {
                    assert(index_of(all.take(i + 1).last()) == Err::<
                        YokozunaIndexView,
                        SchemaError,
                    >(error));
                    assert(indexes_of(all.take(i + 1)) is Err);
                    lemma_indexes_fail_on(all, i as int + 1);
                }
                return Err(error);
            },
        }
        i += 1;
    }
    assert(all.take(i as int) =~= all);
    Ok(indexes)
}

/// Reads the payload of a reply that carries indexes.
pub fn parse_index_get_resp(payload: &[u8]) -> (r: Result<Vec<YokozunaIndex>, SchemaError>)
    ensures
        indexes_view(r) == index_get_resp_of(payload@),
{
    let fields = scan_fields(payload)?;
    index_get_resp_from_fields(&fields)
}

/// A schema comes back as it went out: the payload that stores a schema is
/// laid out as the payload of the reply that carries one, and read as such
/// a reply it gives the content that was stored, byte for byte.
pub proof fn lemma_schema_round_trip(name: Seq<u8>, content: Seq<u8>)
    requires
        schema_put_req(name, content) is Ok,
    ensures
        schema_get_resp_of(schema_put_req(name, content).unwrap()) == Ok::<Seq<u8>, SchemaError>(
            content,
        ),
{
    let schema = bytes_field(1, name) + bytes_field(2, content);
    let outer = seq![bytes_is(1, schema)];
    lemma_pair_round_trip(name, content);
    lemma_wire_of_one(bytes_is(1, schema));
    lemma_fields_of_wire(outer);
    lemma_picks_of_one(bytes_is(1, schema));
}

/// The records of a list of indexes, in order.
pub open spec fn index_bytes_of(indexes: Seq<YokozunaIndexView>) -> Seq<Seq<u8>> {
    Seq::new(indexes.len(), |i: int| index_bytes(indexes[i]))
}

/// A reply that carries indexes as a server writes it: a nested record in
/// a field numbered 1 for each index, in order.
pub open spec fn index_get_resp_bytes(indexes: Seq<YokozunaIndexView>) -> Seq<u8> {
    wire(name_fields(index_bytes_of(indexes)))
}

/// Whether a server can write a reply with the indexes: every index can be
/// rendered into a record short enough for a field.
pub open spec fn indexes_fit(indexes: Seq<YokozunaIndexView>) -> bool {
    forall|i: int|
        0 <= i < indexes.len() ==> index_fits(#[trigger] indexes[i]) && index_bytes(
            indexes[i],
        ).len() <= VALUE_LEN_MAX
}

/// The indexes read from the records of a list of indexes are those
/// indexes.
pub proof fn lemma_indexes_of_records(indexes: Seq<YokozunaIndexView>)
    requires
        forall|i: int| 0 <= i < indexes.len() ==> index_fits(#[trigger] indexes[i]),
    ensures
        indexes_of(index_bytes_of(indexes)) == Ok::<Seq<YokozunaIndexView>, SchemaError>(indexes),
    decreases indexes.len(),
{
    let records = index_bytes_of(indexes);
    if indexes.len() > 0 {
        let before = indexes.drop_last();
        assert forall|i: int| 0 <= i < before.len() implies index_fits(#[trigger] before[i]) by {
            assert(before[i] == indexes[i]);
        }
        lemma_indexes_of_records(before);
        assert(records.drop_last() =~= index_bytes_of(before));
        assert(records.last() == index_bytes(indexes.last()));
        assert(index_fits(indexes[indexes.len() - 1]));
        lemma_index_round_trip(indexes.last());
        assert(before.push(indexes.last()) =~= indexes);
    } else {
        assert(indexes =~= Seq::<YokozunaIndexView>::empty());
    }
}

/// The indexes the server has are the indexes the caller gets: a reply with
/// indexes that a server wrote is read as the same indexes, in the same
/// order.
pub proof fn lemma_index_reply_round_trip(indexes: Seq<YokozunaIndexView>)
    requires
        indexes_fit(indexes),
    ensures
        index_get_resp_of(index_get_resp_bytes(indexes)) == Ok::<
            Seq<YokozunaIndexView>,
            SchemaError,
        >(indexes),
{
    let records = index_bytes_of(indexes);
    let fields = name_fields(records);
    assert forall|i: int| 0 <= i < fields.len() implies field_fits(#[trigger] fields[i]) by {
        assert(fields[i] == bytes_is(1, index_bytes(indexes[i])));
    }
    lemma_fields_of_wire(fields);
    lemma_names_of_name_fields(records);
    lemma_indexes_of_records(indexes);
}

} // verus!
