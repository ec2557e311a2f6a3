//! Messages about keys and values: listings, objects and preference lists.

use crate::errors::{bytes_view, SchemaError};
use crate::object::{DeleteObjectReq, DeleteObjectReqView};
use crate::preflist::{PreflistItem, PreflistItemView};
use crate::rpb::utils::{lossy_string, utf8_lossy};
use crate::rpb::wire::{
    as_bool, bool_field, bool_is, bytes_field, bytes_is, bytes_only, every_bytes, field_fits,
    fields_of, flag, last_bytes, last_varint, lemma_bytes_deep_view, lemma_fields_of_wire,
    lemma_low_bits, lemma_picked_append, lemma_picked_bytes_is, lemma_picked_means,
    lemma_picked_varint_is, lemma_picks_of_concat, lemma_picks_of_one, low_bool, opt_bool_field,
    opt_bytes_field, opt_fits, opt_varint_field, pick_bytes, pick_every_bytes, pick_varint,
    put_bool, put_checked_bytes, put_opt_bool, put_opt_bytes, put_opt_uint32, put_uint32,
    scan_fields, varint_field, varint_is, varints_only, wire, WireField, WireFieldView,
    VALUE_LEN_MAX,
};
use vstd::prelude::*;

verus! {

/// The request for the names of all buckets, streamed: the timeout in field
/// 1, the wish for a stream in field 2.
pub open spec fn list_buckets_req(timeout: u32) -> Seq<u8> {
    varint_field(1, timeout as nat) + bool_field(2, true)
}

/// Renders the request for the names of all buckets.
pub fn write_list_buckets_req(timeout: u32) -> (r: Vec<u8>)
    ensures
        r@ == list_buckets_req(timeout),
{
    let mut out: Vec<u8> = Vec::new();
    put_uint32(&mut out, 1, timeout);
    put_bool(&mut out, 2, true);
    assert(out@ =~= list_buckets_req(timeout));
    out
}

/// The request for the keys of a bucket: the bucket in field 1, the timeout
/// in field 2.
pub open spec fn list_keys_req(bucket: Seq<u8>, timeout: u32) -> Seq<u8> {
    bytes_field(1, bucket) + varint_field(2, timeout as nat)
}

/// Renders the request for the keys of a bucket. Fails with `TooLong`
/// exactly when the bucket's name is longer than `VALUE_LEN_MAX`.
pub fn write_list_keys_req(bucket: &[u8], timeout: u32) -> (r: Result<Vec<u8>, SchemaError>)
    ensures
        match r {
            Ok(out) => bucket.len() <= VALUE_LEN_MAX && out@ == list_keys_req(bucket@, timeout),
            Err(error) => bucket.len() > VALUE_LEN_MAX && error == SchemaError::TooLong,
        },
{
    let mut out: Vec<u8> = Vec::new();
    put_checked_bytes(&mut out, 1, bucket)?;
    put_uint32(&mut out, 2, timeout);
    assert(out@ =~= list_keys_req(bucket@, timeout));
    Ok(out)
}

/// One reply of a listing, of buckets or of keys alike: the names in the
/// fields numbered 1, in order, and in field 2 whether this reply is the
/// last. A reply that does not say so is not the last.
pub open spec fn listing(fields: Seq<WireFieldView>) -> Result<(Seq<Seq<u8>>, bool), SchemaError> {
    if !bytes_only(fields, 1) || !varints_only(fields, 2) {
        Err(SchemaError::UnexpectedWireType)
    } else {
        Ok(
            (
                every_bytes(fields, 1),
                match as_bool(last_varint(fields, 2)) {
                    Some(done) => done,
                    None => false,
                },
            ),
        )
    }
}

/// The listing that a payload stands for.
pub open spec fn listing_of(payload: Seq<u8>) -> Result<(Seq<Seq<u8>>, bool), SchemaError> {
    match fields_of(payload) {
        Some(fields) => listing(fields),
        None => Err(SchemaError::Malformed),
    }
}

/// The view of a decoded listing.
pub open spec fn listing_view(r: Result<(Vec<Vec<u8>>, bool), SchemaError>) -> Result<
    (Seq<Seq<u8>>, bool),
    SchemaError,
> {
    match r {
        Ok((names, done)) => Ok((names.deep_view(), done)),
        Err(error) => Err(error),
    }
}

/// Builds one reply of a listing from the fields of its payload.
pub fn listing_from_fields(fields: &Vec<WireField>) -> (r: Result<
    (Vec<Vec<u8>>, bool),
    SchemaError,
>)
    ensures
        listing_view(r) == listing(fields.deep_view()),
{
    let names = pick_every_bytes(fields, 1)?;
    let done = low_bool(pick_varint(fields, 2)?);
    match done {
        Some(done) => Ok((names, done)),
        None => Ok((names, false)),
    }
}

/// Reads the payload of one reply of a listing.
pub fn parse_listing(payload: &[u8]) -> (r: Result<(Vec<Vec<u8>>, bool), SchemaError>)
    ensures
        listing_view(r) == listing_of(payload@),
{
    let fields = scan_fields(payload)?;
    listing_from_fields(&fields)
}

/// Whether every value of a delete request is short enough for its field.
pub open spec fn del_req_fits(req: DeleteObjectReqView) -> bool {
    &&& req.bucket.len() <= VALUE_LEN_MAX
    &&& req.key.len() <= VALUE_LEN_MAX
    &&& opt_fits(req.vclock)
    &&& opt_fits(req.bucket_type)
}

/// A delete request on the wire: the bucket in field 1, the key in field 2,
/// every setting that is present under its own number, all in the order of
/// the numbers.
pub open spec fn del_req_bytes(req: DeleteObjectReqView) -> Seq<u8> {
    bytes_field(1, req.bucket) + bytes_field(2, req.key) + opt_varint_field(3, req.rw)
        + opt_bytes_field(4, req.vclock) + opt_varint_field(5, req.r) + opt_varint_field(6, req.w)
        + opt_varint_field(7, req.pr) + opt_varint_field(8, req.pw) + opt_varint_field(9, req.dw)
        + opt_varint_field(10, req.timeout) + opt_bool_field(11, req.sloppy_quorum)
        + opt_varint_field(12, req.n_val) + opt_bytes_field(13, req.bucket_type)
}

/// What rendering a delete request gives.
pub open spec fn del_req_payload(req: DeleteObjectReqView) -> Result<Seq<u8>, SchemaError> {
    if del_req_fits(req) {
        Ok(del_req_bytes(req))
    } else {
        Err(SchemaError::TooLong)
    }
}

/// Renders a delete request. Fails with `TooLong` exactly when the bucket,
/// the key, the version or the bucket type is longer than a field can hold.
pub fn write_del_req(req: &DeleteObjectReq) -> (r: Result<Vec<u8>, SchemaError>)
    ensures
        bytes_view(r) == del_req_payload(req@),
{
    let mut out: Vec<u8> = Vec::new();
    put_checked_bytes(&mut out, 1, req.get_bucket().as_slice())?;
    put_checked_bytes(&mut out, 2, req.get_key().as_slice())?;
    put_opt_uint32(&mut out, 3, req.get_rw());
    put_opt_bytes(&mut out, 4, &req.get_vclock())?;
    put_opt_uint32(&mut out, 5, req.get_r());
    put_opt_uint32(&mut out, 6, req.get_w());
    put_opt_uint32(&mut out, 7, req.get_pr());
    put_opt_uint32(&mut out, 8, req.get_pw());
    put_opt_uint32(&mut out, 9, req.get_dw());
    put_opt_uint32(&mut out, 10, req.get_timeout());
    put_opt_bool(&mut out, 11, req.get_sloppy_quorum());
    put_opt_uint32(&mut out, 12, req.get_n_val());
    put_opt_bytes(&mut out, 13, &req.get_bucket_type())?;
    assert(out@ =~= del_req_bytes(req@));
    Ok(out)
}

/// One entry of a preference list: the partition in field 1, the node in
/// field 2, and in field 3 whether the node is a primary owner; all three
/// are required. The partition is the varint read as a signed number, the
/// node's name is read as text.
pub open spec fn preflist_item(fields: Seq<WireFieldView>) -> Result<
    PreflistItemView,
    SchemaError,
> {
    if !(varints_only(fields, 1) && bytes_only(fields, 2) && varints_only(fields, 3)) {
        Err(SchemaError::UnexpectedWireType)
    } else {
        match (last_varint(fields, 1), last_bytes(fields, 2), as_bool(last_varint(fields, 3))) {
            (Some(partition), Some(node), Some(is_primary)) => Ok(
                PreflistItemView {
                    partition: partition as i64,
                    node: utf8_lossy(node),
                    is_primary,
                },
            ),
            _ => Err(SchemaError::MissingField),
        }
    }
}

/// The entry that the bytes of a nested record stand for.
pub open spec fn preflist_item_of(bytes: Seq<u8>) -> Result<PreflistItemView, SchemaError> {
    match fields_of(bytes) {
        Some(fields) => preflist_item(fields),
        None => Err(SchemaError::Malformed),
    }
}

/// The entries that a list of nested records stands for, or the error of
/// the first record that cannot be read.
pub open spec fn preflist_items_of(records: Seq<Seq<u8>>) -> Result<
    Seq<PreflistItemView>,
    SchemaError,
>
    decreases records.len(),
{
    if records.len() == 0 {
        Ok(Seq::empty())
    } else {
        match preflist_items_of(records.drop_last()) {
            Err(error) => Err(error),
            Ok(items) => match preflist_item_of(records.last()) {
                Err(error) => Err(error),
                Ok(item) => Ok(items.push(item)),
            },
        }
    }
}

/// The preference list that a run of fields stands for: an entry for every
/// field numbered 1, in order.
pub open spec fn preflist(fields: Seq<WireFieldView>) -> Result<
    Seq<PreflistItemView>,
    SchemaError,
> {
    if !bytes_only(fields, 1) {
        Err(SchemaError::UnexpectedWireType)
    } else {
        preflist_items_of(every_bytes(fields, 1))
    }
}

/// The preference list that a payload stands for.
pub open spec fn preflist_of(payload: Seq<u8>) -> Result<Seq<PreflistItemView>, SchemaError> {
    match fields_of(payload) {
        Some(fields) => preflist(fields),
        None => Err(SchemaError::Malformed),
    }
}

/// The view of a decoded entry.
pub open spec fn item_view(r: Result<PreflistItem, SchemaError>) -> Result<
    PreflistItemView,
    SchemaError,
> {
    match r {
        Ok(item) => Ok(item@),
        Err(error) => Err(error),
    }
}

/// The view of a decoded preference list.
pub open spec fn preflist_view(r: Result<Vec<PreflistItem>, SchemaError>) -> Result<
    Seq<PreflistItemView>,
    SchemaError,
> {
    match r {
        Ok(items) => Ok(items.deep_view()),
        Err(error) => Err(error),
    }
}

/// Builds an entry of a preference list from the fields of its record.
pub fn preflist_item_from_fields(fields: &Vec<WireField>) -> (r: Result<PreflistItem, SchemaError>)
    ensures
        item_view(r) == preflist_item(fields.deep_view()),
{
    let partition = pick_varint(fields, 1)?;
    let node = pick_bytes(fields, 2)?;
    let is_primary = low_bool(pick_varint(fields, 3)?);
    match (partition, node, is_primary) {
        (Some(partition), Some(node), Some(is_primary)) => {
            let node = lossy_string(node.as_slice());
            Ok(
                PreflistItem::new(
                    #[verifier::truncate]
                    (partition as i64),
                    node.as_str(),
                    is_primary,
                ),
            )
        },
        _ => Err(SchemaError::MissingField),
    }
}

/// Reads the bytes of a nested entry of a preference list.
pub fn parse_preflist_item(bytes: &[u8]) -> (r: Result<PreflistItem, SchemaError>)
    ensures
        item_view(r) == preflist_item_of(bytes@),
{
    let fields = scan_fields(bytes)?;
    preflist_item_from_fields(&fields)
}

/// A list of nested entries cannot be read once a part of it cannot, and
/// the error is that of the part.
pub proof fn lemma_preflist_fails_on(records: Seq<Seq<u8>>, n: int)
    requires
        0 <= n <= records.len(),
        preflist_items_of(records.take(n)) is Err,
    ensures
        preflist_items_of(records) == preflist_items_of(records.take(n)),
    decreases records.len() - n,
{
    if n < records.len() {
        assert(records.take(n + 1).drop_last() =~= records.take(n));
        lemma_preflist_fails_on(records, n + 1);
    } else {
        assert(records.take(n) =~= records);
    }
}

/// Builds a preference list from the fields of its payload.
pub fn preflist_from_fields(fields: &Vec<WireField>) -> (r: Result<Vec<PreflistItem>, SchemaError>)
    ensures
        preflist_view(r) == preflist(fields.deep_view()),
{
    let records = pick_every_bytes(fields, 1)?;
    let ghost all = records.deep_view();
    let mut items: Vec<PreflistItem> = Vec::new();
    let mut i: usize = 0;
    assert(all.take(0) =~= Seq::<Seq<u8>>::empty());
    assert(items.deep_view() =~= Seq::<PreflistItemView>::empty());
    while i < records.len()
        invariant
            i <= records.len(),
            bytes_only(fields.deep_view(), 1),
            all == records.deep_view(),
            all == every_bytes(fields.deep_view(), 1),
            preflist_items_of(all.take(i as int)) == Ok::<Seq<PreflistItemView>, SchemaError>(
                items.deep_view(),
            ),
        decreases records.len() - i,
    {
        proof {
            assert(all.take(i + 1).drop_last() =~= all.take(i as int));
            assert(all.take(i + 1).last() == all[i as int]);
            lemma_bytes_deep_view(records[i as int]);
        }
        let ghost before = items.deep_view();
        match parse_preflist_item(records[i].as_slice()) {
            Ok(item) => {
                items.push(item);
                assert(items.deep_view() =~= before.push(item@));
            },
            Err(error) => {
                proof {
                    assert(preflist_item_of(all.take(i + 1).last()) == Err::<
                        PreflistItemView,
                        SchemaError,
                    >(error));
                    assert(preflist_items_of(all.take(i + 1)) is Err);
                    lemma_preflist_fails_on(all, i as int + 1);
                }
                return Err(error);
            },
        }
        i += 1;
    }
    assert(all.take(i as int) =~= all);
    Ok(items)
}

/// Reads the payload of a preference list.
pub fn parse_preflist(payload: &[u8]) -> (r: Result<Vec<PreflistItem>, SchemaError>)
    ensures
        preflist_view(r) == preflist_of(payload@),
{
    let fields = scan_fields(payload)?;
    preflist_from_fields(&fields)
}

/// A field numbered 1 for each name of a list, in order.
pub open spec fn name_fields(names: Seq<Seq<u8>>) -> Seq<WireFieldView> {
    Seq::new(names.len(), |i: int| bytes_is(1, names[i]))
}

/// One reply of a listing as a server writes it: a field numbered 1 for
/// each name, in order, then in field 2 whether the reply is the last.
pub open spec fn listing_bytes(names: Seq<Seq<u8>>, done: bool) -> Seq<u8> {
    wire(name_fields(names) + seq![bool_is(2, done)])
}

/// The names picked from name fields are the names the fields were made
/// of.
pub proof fn lemma_names_of_name_fields(names: Seq<Seq<u8>>)
    ensures
        every_bytes(name_fields(names), 1) == names,
        bytes_only(name_fields(names), 1),
        varints_only(name_fields(names), 2),
        last_varint(name_fields(names), 2) is None,
    decreases names.len(),
{
    reveal(bytes_only);
    reveal(varints_only);
    reveal(last_bytes);
    reveal(last_varint);
    reveal(every_bytes);
    let fields = name_fields(names);
    if names.len() > 0 {
        lemma_names_of_name_fields(names.drop_last());
        assert(fields.drop_last() =~= name_fields(names.drop_last()));
        assert(fields.last() == bytes_is(1, names.last()));
        assert(every_bytes(fields, 1) =~= names);
    } else {
        assert(every_bytes(fields, 1) =~= names);
    }
}

/// The listing that a server wrote is the one that is read: the same names
/// in the same order, and the same flag.
pub proof fn lemma_listing_round_trip(names: Seq<Seq<u8>>, done: bool)
    requires
        forall|i: int| 0 <= i < names.len() ==> (#[trigger] names[i]).len() <= VALUE_LEN_MAX,
    ensures
        listing_of(listing_bytes(names, done)) == Ok::<(Seq<Seq<u8>>, bool), SchemaError>(
            (names, done),
        ),
{
    let named = name_fields(names);
    let flag = seq![bool_is(2, done)];
    let fields = named + flag;
    assert forall|i: int| 0 <= i < fields.len() implies field_fits(
        #[trigger] fields[i],
    ) by {
        if i < named.len() {
            assert(fields[i] == bytes_is(1, names[i]));
        } else {
            assert(fields[i] == bool_is(2, done));
        }
    }
    lemma_fields_of_wire(fields);
    lemma_names_of_name_fields(names);
    lemma_picks_of_concat(named, flag);
    lemma_picks_of_one(bool_is(2, done));
    lemma_low_bits(0);
    assert(every_bytes(fields, 1) =~= names);
}

/// One entry of a preference list as a server holds it: the partition, the
/// name of the node, and whether the node is a primary owner.
pub struct PreflistEntry {
    pub partition: i64,
    pub node: Seq<u8>,
    pub is_primary: bool,
}

/// An entry of a preference list as a server writes it: the partition as
/// a varint of 64 bits in field 1, the node in field 2, and in field 3
/// whether the node is a primary owner.
pub open spec fn preflist_item_bytes(entry: PreflistEntry) -> Seq<u8> {
    wire(
        seq![
            varint_is(1, entry.partition as u64),
            bytes_is(2, entry.node),
            bool_is(3, entry.is_primary),
        ],
    )
}

/// The entry as the caller gets it: the same partition, the node's name
/// read as text, the same word on whether the node is a primary owner.
pub open spec fn preflist_item_read(entry: PreflistEntry) -> PreflistItemView {
    PreflistItemView {
        partition: entry.partition,
        node: utf8_lossy(entry.node),
        is_primary: entry.is_primary,
    }
}

/// The records of a list of entries, in order.
pub open spec fn preflist_item_bytes_of(entries: Seq<PreflistEntry>) -> Seq<Seq<u8>> {
    Seq::new(entries.len(), |i: int| preflist_item_bytes(entries[i]))
}

/// A preference list as a server writes it: a nested record in a field
/// numbered 1 for each entry, in order.
pub open spec fn preflist_bytes(entries: Seq<PreflistEntry>) -> Seq<u8> {
    wire(name_fields(preflist_item_bytes_of(entries)))
}

/// Whether a server can write the preference list: the name of every node,
/// and the record of every entry, is short enough for a field.
pub open spec fn preflist_fits(entries: Seq<PreflistEntry>) -> bool {
    forall|i: int|
        0 <= i < entries.len() ==> (#[trigger] entries[i]).node.len() <= VALUE_LEN_MAX
            && preflist_item_bytes(entries[i]).len() <= VALUE_LEN_MAX
}

/// An entry of a preference list that a server wrote is read as that
/// entry.
pub proof fn lemma_preflist_item_round_trip(entry: PreflistEntry)
    requires
        entry.node.len() <= VALUE_LEN_MAX,
    ensures
        preflist_item_of(preflist_item_bytes(entry)) == Ok::<PreflistItemView, SchemaError>(
            preflist_item_read(entry),
        ),
{
    let partition = seq![varint_is(1, entry.partition as u64)];
    let node = seq![bytes_is(2, entry.node)];
    let primary = seq![bool_is(3, entry.is_primary)];
    let fields = seq![
        varint_is(1, entry.partition as u64),
        bytes_is(2, entry.node),
        bool_is(3, entry.is_primary),
    ];
    assert(partition + node + primary =~= fields);
    assert forall|i: int| 0 <= i < fields.len() implies field_fits(#[trigger] fields[i]) by {}
    lemma_fields_of_wire(fields);
    lemma_picked_varint_is(1, entry.partition as u64);
    lemma_picked_bytes_is(2, entry.node);
    lemma_picked_varint_is(3, flag(entry.is_primary));
    lemma_picked_append(partition, node);
    lemma_picked_append(partition + node, primary);
    lemma_picked_means(fields, 1);
    lemma_picked_means(fields, 2);
    lemma_picked_means(fields, 3);
    lemma_low_bits(0);
    let partition = entry.partition;
    assert((partition as u64) as i64 == partition) by (bit_vector);
}

/// The entries read from the records of a list of entries are those
/// entries.
pub proof fn lemma_preflist_items_of_records(entries: Seq<PreflistEntry>)
    requires
        forall|i: int|
            0 <= i < entries.len() ==> (#[trigger] entries[i]).node.len() <= VALUE_LEN_MAX,
    ensures
        preflist_items_of(preflist_item_bytes_of(entries)) == Ok::<
            Seq<PreflistItemView>,
            SchemaError,
        >(Seq::new(entries.len(), |i: int| preflist_item_read(entries[i]))),
    decreases entries.len(),
{
    let records = preflist_item_bytes_of(entries);
    let read = Seq::new(entries.len(), |i: int| preflist_item_read(entries[i]));
    if entries.len() > 0 {
        let before = entries.drop_last();
        let read_before = Seq::new(before.len(), |i: int| preflist_item_read(before[i]));
        assert forall|i: int| 0 <= i < before.len() implies (#[trigger] before[i]).node.len()
            <= VALUE_LEN_MAX by {
            assert(before[i] == entries[i]);
        }
        lemma_preflist_items_of_records(before);
        assert(records.drop_last() =~= preflist_item_bytes_of(before));
        assert(records.last() == preflist_item_bytes(entries.last()));
        assert(entries[entries.len() - 1].node.len() <= VALUE_LEN_MAX);
        lemma_preflist_item_round_trip(entries.last());
        assert(read_before.push(preflist_item_read(entries.last())) =~= read);
    } else {
        assert(read =~= Seq::<PreflistItemView>::empty());
    }
}

/// The preference list the server holds is the one the caller gets: a
/// preference list that a server wrote is read as the same entries, in the
/// same order.
pub proof fn lemma_preflist_round_trip(entries: Seq<PreflistEntry>)
    requires
        preflist_fits(entries),
    ensures
        preflist_of(preflist_bytes(entries)) == Ok::<Seq<PreflistItemView>, SchemaError>(
            Seq::new(entries.len(), |i: int| preflist_item_read(entries[i])),
        ),
{
    let records = preflist_item_bytes_of(entries);
    let fields = name_fields(records);
    assert forall|i: int| 0 <= i < fields.len() implies field_fits(#[trigger] fields[i]) by {
        assert(fields[i] == bytes_is(1, preflist_item_bytes(entries[i])));
    }
    lemma_fields_of_wire(fields);
    lemma_names_of_name_fields(records);
    lemma_preflist_items_of_records(entries);
}

} // verus!
