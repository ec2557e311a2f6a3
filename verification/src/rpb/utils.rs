//! Conversions between the records callers hold and their wire form.

use crate::connection::payload_view;
use crate::errors::{bytes_view, schema_failure, RiakErr, SchemaError};
use crate::object::{
    FetchObjectReq, FetchObjectReqView, FetchObjectResp, FetchObjectRespView, ObjectContent,
    ObjectContentView, StoreObjectReq, StoreObjectReqView,
};
use crate::rpb::wire::{
    all_fit, as_bool, as_u32, bytes_field, bytes_is, bytes_only, every_bytes, field_fits, fields_of,
    last_bytes, last_varint, lemma_bytes_deep_view, lemma_fields_of_wire, lemma_picked_append,
    lemma_picked_bytes_is, lemma_picked_means, lemma_picked_opt_bool_is, lemma_picked_opt_bytes_is,
    lemma_picked_opt_varint_is, lemma_picks_of_none, lemma_wire_append, lemma_wire_bytes_is,
    lemma_wire_opt_bool_is, lemma_wire_opt_bytes_is, lemma_wire_opt_varint_is, low_bool, low_u32,
    opt_bool_field, opt_bool_is, opt_bytes_field, opt_bytes_is, opt_fits, opt_varint_field,
    opt_varint_is, pick_bytes, pick_every_bytes, pick_varint, put_checked_bytes, put_opt_bool,
    put_opt_bytes, put_opt_uint32, scan_fields, varints_only, wire, WireField, WireFieldView,
    VALUE_LEN_MAX,
};
use vstd::prelude::*;

verus! {

/// Whether every value of a content is short enough for its field.
pub open spec fn content_fits(content: ObjectContentView) -> bool {
    &&& content.value.len() <= VALUE_LEN_MAX
    &&& opt_fits(content.content_type)
    &&& opt_fits(content.charset)
    &&& opt_fits(content.content_encoding)
    &&& opt_fits(content.vtag)
}

/// A content on the wire: the value in field 1, then whatever metadata is
/// present, each under its own number.
pub open spec fn content_bytes(content: ObjectContentView) -> Seq<u8> {
    bytes_field(1, content.value) + opt_bytes_field(2, content.content_type) + opt_bytes_field(
        3,
        content.charset,
    ) + opt_bytes_field(4, content.content_encoding) + opt_bytes_field(5, content.vtag)
        + opt_varint_field(7, content.last_mod) + opt_varint_field(8, content.last_mod_usecs)
        + opt_bool_field(11, content.deleted)
}

/// What rendering a content gives.
pub open spec fn content_payload(content: ObjectContentView) -> Result<Seq<u8>, SchemaError> {
    if content_fits(content) {
        Ok(content_bytes(content))
    } else {
        Err(SchemaError::TooLong)
    }
}

/// Renders a content. Fails with `TooLong` exactly when the value or one of
/// the texts beside it is longer than a field can hold.
pub fn object_content_to_rpb_content(object_content: &ObjectContent) -> (r: Result<
    Vec<u8>,
    SchemaError,
>)
    ensures
        bytes_view(r) == content_payload(object_content@),
{
    let mut out: Vec<u8> = Vec::new();
    put_checked_bytes(&mut out, 1, object_content.get_value().as_slice())?;
    put_opt_bytes(&mut out, 2, &object_content.get_content_type())?;
    put_opt_bytes(&mut out, 3, &object_content.get_charset())?;
    put_opt_bytes(&mut out, 4, &object_content.get_content_encoding())?;
    put_opt_bytes(&mut out, 5, &object_content.get_vtag())?;
    put_opt_uint32(&mut out, 7, object_content.get_last_mod());
    put_opt_uint32(&mut out, 8, object_content.get_last_mod_usecs());
    put_opt_bool(&mut out, 11, object_content.get_deleted());
    assert(out@ =~= content_bytes(object_content@));
    Ok(out)
}

/// Whether every value of a store request is short enough for its field,
/// the rendered content among them.
pub open spec fn put_req_fits(req: StoreObjectReqView) -> bool {
    &&& req.bucket.len() <= VALUE_LEN_MAX
    &&& opt_fits(req.key)
    &&& opt_fits(req.vclock)
    &&& content_fits(req.content)
    &&& content_bytes(req.content).len() <= VALUE_LEN_MAX
    &&& opt_fits(req.bucket_type)
}

/// A store request on the wire: the bucket in field 1, the content as a
/// nested record in field 4, every setting that is present under its own
/// number, all in the order of the numbers.
pub open spec fn put_req_bytes(req: StoreObjectReqView) -> Seq<u8> {
    bytes_field(1, req.bucket) + opt_bytes_field(2, req.key) + opt_bytes_field(3, req.vclock)
        + bytes_field(4, content_bytes(req.content)) + opt_varint_field(5, req.w)
        + opt_varint_field(6, req.dw) + opt_bool_field(7, req.return_body) + opt_varint_field(
        8,
        req.pw,
    ) + opt_bool_field(9, req.if_not_modified) + opt_bool_field(10, req.if_none_match)
        + opt_bool_field(11, req.return_head) + opt_varint_field(12, req.timeout) + opt_bool_field(
        13,
        req.asis,
    ) + opt_bool_field(14, req.sloppy_quorum) + opt_varint_field(15, req.n_val) + opt_bytes_field(
        16,
        req.bucket_type,
    )
}

/// What rendering a store request gives.
pub open spec fn put_req_payload(req: StoreObjectReqView) -> Result<Seq<u8>, SchemaError> {
    if put_req_fits(req) {
        Ok(put_req_bytes(req))
    } else {
        Err(SchemaError::TooLong)
    }
}

/// Renders a store request. Fails with `TooLong` exactly when a value of
/// the request, or its rendered content, is longer than a field can hold.
pub fn store_object_req_to_rpb_put_req(store_object_req: &StoreObjectReq) -> (r: Result<
    Vec<u8>,
    SchemaError,
>)
    ensures
        bytes_view(r) == put_req_payload(store_object_req@),
{
    let content = object_content_to_rpb_content(&store_object_req.get_content())?;
    let mut out: Vec<u8> = Vec::new();
    put_checked_bytes(&mut out, 1, store_object_req.get_bucket().as_slice())?;
    put_opt_bytes(&mut out, 2, &store_object_req.get_key())?;
    put_opt_bytes(&mut out, 3, &store_object_req.get_vclock())?;
    put_checked_bytes(&mut out, 4, content.as_slice())?;
    put_opt_uint32(&mut out, 5, store_object_req.get_w());
    put_opt_uint32(&mut out, 6, store_object_req.get_dw());
    put_opt_bool(&mut out, 7, store_object_req.get_return_body());
    put_opt_uint32(&mut out, 8, store_object_req.get_pw());
    put_opt_bool(&mut out, 9, store_object_req.get_if_not_modified());
    put_opt_bool(&mut out, 10, store_object_req.get_if_none_match());
    put_opt_bool(&mut out, 11, store_object_req.get_return_head());
    put_opt_uint32(&mut out, 12, store_object_req.get_timeout());
    put_opt_bool(&mut out, 13, store_object_req.get_asis());
    put_opt_bool(&mut out, 14, store_object_req.get_sloppy_quorum());
    put_opt_uint32(&mut out, 15, store_object_req.get_n_val());
    put_opt_bytes(&mut out, 16, &store_object_req.get_bucket_type())?;
    assert(out@ =~= put_req_bytes(store_object_req@));
    Ok(out)
}

/// Whether every value of a fetch request is short enough for its field.
pub open spec fn get_req_fits(req: FetchObjectReqView) -> bool {
    &&& req.bucket.len() <= VALUE_LEN_MAX
    &&& req.key.len() <= VALUE_LEN_MAX
    &&& opt_fits(req.if_modified)
    &&& opt_fits(req.bucket_type)
}

/// A fetch request on the wire: the bucket in field 1, the key in field 2,
/// every setting that is present under its own number, all in the order of
/// the numbers.
pub open spec fn get_req_bytes(req: FetchObjectReqView) -> Seq<u8> {
    bytes_field(1, req.bucket) + bytes_field(2, req.key) + opt_varint_field(3, req.r)
        + opt_varint_field(4, req.pr) + opt_bool_field(5, req.basic_quorum) + opt_bool_field(
        6,
        req.notfound_ok,
    ) + opt_bytes_field(7, req.if_modified) + opt_bool_field(8, req.head) + opt_bool_field(
        9,
        req.deletedvclock,
    ) + opt_varint_field(10, req.timeout) + opt_bool_field(11, req.sloppy_quorum)
        + opt_varint_field(12, req.n_val) + opt_bytes_field(13, req.bucket_type)
}

/// What rendering a fetch request gives.
pub open spec fn get_req_payload(req: FetchObjectReqView) -> Result<Seq<u8>, SchemaError> {
    if get_req_fits(req) {
        Ok(get_req_bytes(req))
    } else {
        Err(SchemaError::TooLong)
    }
}

/// Renders a fetch request. Fails with `TooLong` exactly when the bucket,
/// the key, the version or the bucket type is longer than a field can hold.
pub fn fetch_object_req_to_rpb_get_req(fetch_object_req: &FetchObjectReq) -> (r: Result<
    Vec<u8>,
    SchemaError,
>)
    ensures
        bytes_view(r) == get_req_payload(fetch_object_req@),
{
    let mut out: Vec<u8> = Vec::new();
    put_checked_bytes(&mut out, 1, fetch_object_req.get_bucket().as_slice())?;
    put_checked_bytes(&mut out, 2, fetch_object_req.get_key().as_slice())?;
    put_opt_uint32(&mut out, 3, fetch_object_req.get_r());
    put_opt_uint32(&mut out, 4, fetch_object_req.get_pr());
    put_opt_bool(&mut out, 5, fetch_object_req.get_basic_quorum());
    put_opt_bool(&mut out, 6, fetch_object_req.get_notfound_ok());
    put_opt_bytes(&mut out, 7, &fetch_object_req.get_if_modified())?;
    put_opt_bool(&mut out, 8, fetch_object_req.get_head());
    put_opt_bool(&mut out, 9, fetch_object_req.get_deletedvclock());
    put_opt_uint32(&mut out, 10, fetch_object_req.get_timeout());
    put_opt_bool(&mut out, 11, fetch_object_req.get_sloppy_quorum());
    put_opt_uint32(&mut out, 12, fetch_object_req.get_n_val());
    put_opt_bytes(&mut out, 13, &fetch_object_req.get_bucket_type())?;
    assert(out@ =~= get_req_bytes(fetch_object_req@));
    Ok(out)
}

/// Whether every field of a content that is present has the wire type of
/// its number.
pub open spec fn content_wire_ok(fields: Seq<WireFieldView>) -> bool {
    &&& bytes_only(fields, 1)
    &&& bytes_only(fields, 2)
    &&& bytes_only(fields, 3)
    &&& bytes_only(fields, 4)
    &&& bytes_only(fields, 5)
    &&& varints_only(fields, 7)
    &&& varints_only(fields, 8)
    &&& varints_only(fields, 11)
}

/// The content that a run of fields stands for. The value is required; of
/// a field that comes more than once the last one counts; fields with other
/// numbers are passed over.
pub open spec fn object_content(fields: Seq<WireFieldView>) -> Result<
    ObjectContentView,
    SchemaError,
> {
    if !content_wire_ok(fields) {
        Err(SchemaError::UnexpectedWireType)
    } else {
        match last_bytes(fields, 1) {
            None => Err(SchemaError::MissingField),
            Some(value) => Ok(
                ObjectContentView {
                    value,
                    content_type: last_bytes(fields, 2),
                    charset: last_bytes(fields, 3),
                    content_encoding: last_bytes(fields, 4),
                    vtag: last_bytes(fields, 5),
                    last_mod: as_u32(last_varint(fields, 7)),
                    last_mod_usecs: as_u32(last_varint(fields, 8)),
                    deleted: as_bool(last_varint(fields, 11)),
                },
            ),
        }
    }
}

/// The content that the bytes of a nested record stand for.
pub open spec fn object_content_of(bytes: Seq<u8>) -> Result<ObjectContentView, SchemaError> {
    match fields_of(bytes) {
        Some(fields) => object_content(fields),
        None => Err(SchemaError::Malformed),
    }
}

/// The view of a decoded content.
pub open spec fn content_view(r: Result<ObjectContent, SchemaError>) -> Result<
    ObjectContentView,
    SchemaError,
> {
    match r {
        Ok(content) => Ok(content@),
        Err(error) => Err(error),
    }
}

/// Builds a content from the fields of its record.
pub fn object_content_from_fields(fields: &Vec<WireField>) -> (r: Result<
    ObjectContent,
    SchemaError,
>)
    ensures
        content_view(r) == object_content(fields.deep_view()),
{
    let value = pick_bytes(fields, 1)?;
    let content_type = pick_bytes(fields, 2)?;
    let charset = pick_bytes(fields, 3)?;
    let content_encoding = pick_bytes(fields, 4)?;
    let vtag = pick_bytes(fields, 5)?;
    let last_mod = low_u32(pick_varint(fields, 7)?);
    let last_mod_usecs = low_u32(pick_varint(fields, 8)?);
    let deleted = low_bool(pick_varint(fields, 11)?);
    let mut object_content = match value {
        Some(value) => ObjectContent::new(value),
        None => {
            return Err(SchemaError::MissingField);
        },
    };
    if let Some(v) = content_type {
        object_content.set_content_type(v);
    }
    if let Some(v) = charset {
        object_content.set_charset(v);
    }
    if let Some(v) = content_encoding {
        object_content.set_content_encoding(v);
    }
    if let Some(v) = vtag {
        object_content.set_vtag(v.as_slice());
    }
    if let Some(v) = last_mod {
        object_content.set_last_mod(v);
    }
    if let Some(v) = last_mod_usecs {
        object_content.set_last_mod_usecs(v);
    }
    if let Some(v) = deleted {
        object_content.set_deleted(v);
    }
    Ok(object_content)
}

/// Reads the bytes of a nested content record.
pub fn rpb_content_to_object_content(rpb_content: &[u8]) -> (r: Result<ObjectContent, SchemaError>)
    ensures
        content_view(r) == object_content_of(rpb_content@),
{
    let fields = scan_fields(rpb_content)?;
    object_content_from_fields(&fields)
}

/// The contents that a list of nested records stands for, or the error of
/// the first record that cannot be read.
pub open spec fn contents_of(records: Seq<Seq<u8>>) -> Result<Seq<ObjectContentView>, SchemaError>
    decreases records.len(),
{
    if records.len() == 0 {
        Ok(Seq::empty())
    } else {
        match contents_of(records.drop_last()) {
            Err(error) => Err(error),
            Ok(contents) => match object_content_of(records.last()) {
                Err(error) => Err(error),
                Ok(content) => Ok(contents.push(content)),
            },
        }
    }
}

/// The response to a fetch that a run of fields stands for: a content for
/// every field numbered 1, the version in field 2, empty if absent, and in
/// field 3 whether the object is unchanged.
pub open spec fn fetch_object_resp(fields: Seq<WireFieldView>) -> Result<
    FetchObjectRespView,
    SchemaError,
> {
    if !(bytes_only(fields, 1) && bytes_only(fields, 2) && varints_only(fields, 3)) {
        Err(SchemaError::UnexpectedWireType)
    } else {
        match contents_of(every_bytes(fields, 1)) {
            Err(error) => Err(error),
            Ok(content) => Ok(
                FetchObjectRespView {
                    content,
                    vclock: match last_bytes(fields, 2) {
                        Some(vclock) => vclock,
                        None => Seq::empty(),
                    },
                    unchanged: as_bool(last_varint(fields, 3)),
                },
            ),
        }
    }
}

/// The response to a fetch that a payload stands for.
pub open spec fn fetch_object_resp_of(payload: Seq<u8>) -> Result<
    FetchObjectRespView,
    SchemaError,
> {
    match fields_of(payload) {
        Some(fields) => fetch_object_resp(fields),
        None => Err(SchemaError::Malformed),
    }
}

/// The view of a decoded response to a fetch.
pub open spec fn fetch_view(r: Result<FetchObjectResp, SchemaError>) -> Result<
    FetchObjectRespView,
    SchemaError,
> {
    match r {
        Ok(resp) => Ok(resp@),
        Err(error) => Err(error),
    }
}

/// Builds the response to a fetch from the fields of its payload.
pub fn fetch_object_resp_from_fields(fields: &Vec<WireField>) -> (r: Result<
    FetchObjectResp,
    SchemaError,
>)
    ensures
        fetch_view(r) == fetch_object_resp(fields.deep_view()),
{
    let records = pick_every_bytes(fields, 1)?;
    let vclock = pick_bytes(fields, 2)?;
    let unchanged = low_bool(pick_varint(fields, 3)?);
    let mut siblings: Vec<ObjectContent> = Vec::new();
    let mut i: usize = 0;
    assert(records.deep_view().take(0) =~= Seq::<Seq<u8>>::empty());
    assert(siblings.deep_view() =~= Seq::<ObjectContentView>::empty());
    while i < records.len()
        invariant
            i <= records.len(),
            bytes_only(fields.deep_view(), 1),
            bytes_only(fields.deep_view(), 2),
            varints_only(fields.deep_view(), 3),
            records.deep_view() == every_bytes(fields.deep_view(), 1),
            contents_of(records.deep_view().take(i as int)) == Ok::<
                Seq<ObjectContentView>,
                SchemaError,
            >(siblings.deep_view()),
        decreases records.len() - i,
    {
        let ghost all = records.deep_view();
        proof {
            assert(all.take(i + 1).drop_last() =~= all.take(i as int));
            assert(all.take(i + 1).last() == all[i as int]);
            lemma_bytes_deep_view(records[i as int]);
        }
        let ghost before = siblings.deep_view();
        match rpb_content_to_object_content(records[i].as_slice()) {
            Ok(content) => {
                siblings.push(content);
                assert(siblings.deep_view() =~= before.push(content@));
            },
            Err(error) => {
                proof {
                    assert(object_content_of(all.take(i + 1).last()) == Err::<
                        ObjectContentView,
                        SchemaError,
                    >(error));
                    assert(contents_of(all.take(i + 1)) is Err);
                    lemma_contents_fail_on(all, i as int + 1);
                }
                return Err(error);
            },
        }
        i += 1;
    }
    assert(records.deep_view().take(i as int) =~= records.deep_view());
    let mut resp = match vclock {
        Some(vclock) => FetchObjectResp::new(&siblings, vclock.as_slice()),
        None => {
            let empty: Vec<u8> = Vec::new();
            FetchObjectResp::new(&siblings, empty.as_slice())
        },
    };
    if let Some(v) = unchanged {
        resp.set_unchanged(v);
    }
    Ok(resp)
}

/// A list of nested records cannot be read once a part of it cannot, and
/// the error is that of the part.
pub proof fn lemma_contents_fail_on(records: Seq<Seq<u8>>, n: int)
    requires
        0 <= n <= records.len(),
        contents_of(records.take(n)) is Err,
    ensures
        contents_of(records) == contents_of(records.take(n)),
    decreases records.len() - n,
{
    if n < records.len() {
        assert(records.take(n + 1).drop_last() =~= records.take(n));
        lemma_contents_fail_on(records, n + 1);
    } else {
        assert(records.take(n) =~= records);
    }
}

/// Reads the payload of the response to a fetch.
pub fn rpb_get_resp_to_fetch_object_resp(rpb_get_resp: &[u8]) -> (r: Result<
    FetchObjectResp,
    SchemaError,
>)
    ensures
        fetch_view(r) == fetch_object_resp_of(rpb_get_resp@),
{
    let fields = scan_fields(rpb_get_resp)?;
    fetch_object_resp_from_fields(&fields)
}

/// A request that knows how to render its own payload.
pub trait RpbGenerator {
    /// What rendering gives: the payload, or the failure to render it.
    spec fn payload(&self) -> Result<Seq<u8>, SchemaError>;

    /// Renders the payload of the request.
    fn write_to_bytes(&self) -> (r: Result<Vec<u8>, RiakErr>)
        ensures
            payload_view(r) == schema_failure(self.payload()),
    ;
}

/// The text that `String::from_utf8_lossy` makes of a run of bytes.
pub uninterp spec fn utf8_lossy(bytes: Seq<u8>) -> Seq<char>;

/// Reads bytes as text with `String::from_utf8_lossy`.
///
/// Trusted: the text depends on the bytes alone.
#[verifier::external_body]
pub(crate) fn lossy_string(bytes: &[u8]) -> (r: String)
    ensures
        r@ == utf8_lossy(bytes@),
{
    String::from_utf8_lossy(bytes).into_owned()
}

/// The texts of a list of names.
pub open spec fn lossy_names(names: Seq<Seq<u8>>) -> Seq<Seq<char>> {
    names.map_values(|name: Seq<u8>| utf8_lossy(name))
}

/// Reads each name of a list as text; a name that is not UTF-8 is read as
/// `String::from_utf8_lossy` reads it.
pub fn names_to_strings(names: &Vec<Vec<u8>>) -> (r: Vec<String>)
    ensures
        r.deep_view() == lossy_names(names.deep_view()),
{
    let mut texts: Vec<String> = Vec::new();
    let mut i: usize = 0;
    while i < names.len()
        invariant
            i <= names.len(),
            texts.len() == i,
            forall|k: int| 0 <= k < i ==> (#[trigger] texts[k])@ == utf8_lossy(names[k]@),
        decreases names.len() - i,
    {
        let text = lossy_string(names[i].as_slice());
        texts.push(text);
        i += 1;
    }
    proof {
        let want = lossy_names(names.deep_view());
        assert(texts.deep_view().len() == want.len());
        assert forall|k: int| 0 <= k < want.len() implies texts.deep_view()[k] == want[k] by {
            assert(names.deep_view()[k] =~= names[k]@);
            assert(texts.deep_view()[k] == texts[k].deep_view());
        }
        assert(texts.deep_view() =~= want);
    }
    texts
}

/// The fields of a content, in the order they are written.
pub open spec fn content_fields(content: ObjectContentView) -> Seq<WireFieldView> {
    seq![bytes_is(1, content.value)] + opt_bytes_is(2, content.content_type) + opt_bytes_is(
        3,
        content.charset,
    ) + opt_bytes_is(4, content.content_encoding) + opt_bytes_is(5, content.vtag) + opt_varint_is(
        7,
        content.last_mod,
    ) + opt_varint_is(8, content.last_mod_usecs) + opt_bool_is(11, content.deleted)
}

/// A content is rendered as its fields are written, one after the other.
pub proof fn lemma_content_bytes_are_fields(content: ObjectContentView)
    ensures
        content_bytes(content) == wire(content_fields(content)),
        content_fits(content) ==> all_fit(content_fields(content)),
{
    let f1 = seq![bytes_is(1, content.value)];
    let g2 = opt_bytes_is(2, content.content_type);
    let g3 = opt_bytes_is(3, content.charset);
    let g4 = opt_bytes_is(4, content.content_encoding);
    let g5 = opt_bytes_is(5, content.vtag);
    let g7 = opt_varint_is(7, content.last_mod);
    let g8 = opt_varint_is(8, content.last_mod_usecs);
    let g11 = opt_bool_is(11, content.deleted);
    lemma_wire_bytes_is(1, content.value);
    lemma_wire_opt_bytes_is(2, content.content_type);
    lemma_wire_opt_bytes_is(3, content.charset);
    lemma_wire_opt_bytes_is(4, content.content_encoding);
    lemma_wire_opt_bytes_is(5, content.vtag);
    lemma_wire_opt_varint_is(7, content.last_mod);
    lemma_wire_opt_varint_is(8, content.last_mod_usecs);
    lemma_wire_opt_bool_is(11, content.deleted);
    lemma_wire_append(f1, g2);
    lemma_wire_append(f1 + g2, g3);
    lemma_wire_append(f1 + g2 + g3, g4);
    lemma_wire_append(f1 + g2 + g3 + g4, g5);
    lemma_wire_append(f1 + g2 + g3 + g4 + g5, g7);
    lemma_wire_append(f1 + g2 + g3 + g4 + g5 + g7, g8);
    lemma_wire_append(f1 + g2 + g3 + g4 + g5 + g7 + g8, g11);
}

/// The fields of a content are read as that content.
pub proof fn lemma_content_fields_are_read(content: ObjectContentView)
    ensures
        object_content(content_fields(content)) == Ok::<ObjectContentView, SchemaError>(content),
{
    let f1 = seq![bytes_is(1, content.value)];
    let g2 = opt_bytes_is(2, content.content_type);
    let g3 = opt_bytes_is(3, content.charset);
    let g4 = opt_bytes_is(4, content.content_encoding);
    let g5 = opt_bytes_is(5, content.vtag);
    let g7 = opt_varint_is(7, content.last_mod);
    let g8 = opt_varint_is(8, content.last_mod_usecs);
    let g11 = opt_bool_is(11, content.deleted);
    let fields = content_fields(content);
    lemma_picked_bytes_is(1, content.value);
    lemma_picked_opt_bytes_is(2, content.content_type);
    lemma_picked_opt_bytes_is(3, content.charset);
    lemma_picked_opt_bytes_is(4, content.content_encoding);
    lemma_picked_opt_bytes_is(5, content.vtag);
    lemma_picked_opt_varint_is(7, content.last_mod);
    lemma_picked_opt_varint_is(8, content.last_mod_usecs);
    lemma_picked_opt_bool_is(11, content.deleted);
    lemma_picked_append(f1, g2);
    lemma_picked_append(f1 + g2, g3);
    lemma_picked_append(f1 + g2 + g3, g4);
    lemma_picked_append(f1 + g2 + g3 + g4, g5);
    lemma_picked_append(f1 + g2 + g3 + g4 + g5, g7);
    lemma_picked_append(f1 + g2 + g3 + g4 + g5 + g7, g8);
    lemma_picked_append(f1 + g2 + g3 + g4 + g5 + g7 + g8, g11);
    lemma_picked_means(fields, 1);
    lemma_picked_means(fields, 2);
    lemma_picked_means(fields, 3);
    lemma_picked_means(fields, 4);
    lemma_picked_means(fields, 5);
    lemma_picked_means(fields, 7);
    lemma_picked_means(fields, 8);
    lemma_picked_means(fields, 11);
}

/// A content comes back as it went out: a content that can be rendered is
/// read from its rendering as the same content, the value byte for byte
/// and every piece of metadata as it was set or left unset.
pub proof fn lemma_content_round_trip(content: ObjectContentView)
    requires
        content_fits(content),
    ensures
        object_content_of(content_bytes(content)) == Ok::<ObjectContentView, SchemaError>(content),
{
    lemma_content_bytes_are_fields(content);
    lemma_content_fields_are_read(content);
    lemma_fields_of_wire(content_fields(content));
}

/// A nested record in a field numbered 1 for each content of a list, in
/// order.
pub open spec fn content_records(contents: Seq<ObjectContentView>) -> Seq<WireFieldView> {
    Seq::new(contents.len(), |i: int| bytes_is(1, content_bytes(contents[i])))
}

/// The response to a fetch as a server writes it: a nested record in a
/// field numbered 1 for each sibling, the version in field 2, and in field
/// 3, if it is said at all, whether the object is unchanged.
pub open spec fn get_resp_bytes(resp: FetchObjectRespView) -> Seq<u8> {
    wire(
        content_records(resp.content) + seq![bytes_is(2, resp.vclock)] + opt_bool_is(
            3,
            resp.unchanged,
        ),
    )
}

/// Whether a server can write a response to a fetch: every sibling can be
/// rendered into a record short enough for a field, and so can the version.
pub open spec fn get_resp_fits(resp: FetchObjectRespView) -> bool {
    &&& resp.vclock.len() <= VALUE_LEN_MAX
    &&& forall|i: int|
        0 <= i < resp.content.len() ==> content_fits(#[trigger] resp.content[i]) && content_bytes(
            resp.content[i],
        ).len() <= VALUE_LEN_MAX
}

/// The contents read from the records of a list of contents are those
/// contents.
pub proof fn lemma_contents_of_records(contents: Seq<ObjectContentView>)
    requires
        forall|i: int| 0 <= i < contents.len() ==> content_fits(#[trigger] contents[i]),
    ensures
        every_bytes(content_records(contents), 1) == Seq::new(
            contents.len(),
            |i: int| content_bytes(contents[i]),
        ),
        contents_of(every_bytes(content_records(contents), 1)) == Ok::<
            Seq<ObjectContentView>,
            SchemaError,
        >(contents),
        bytes_only(content_records(contents), 1),
        bytes_only(content_records(contents), 2),
        varints_only(content_records(contents), 3),
        last_bytes(content_records(contents), 2) is None,
        last_varint(content_records(contents), 3) is None,
    decreases contents.len(),
{
    reveal(bytes_only);
    reveal(varints_only);
    reveal(last_bytes);
    reveal(last_varint);
    reveal(every_bytes);
    let fields = content_records(contents);
    let records = Seq::new(contents.len(), |i: int| content_bytes(contents[i]));
    if contents.len() > 0 {
        let before = contents.drop_last();
        assert forall|i: int| 0 <= i < before.len() implies content_fits(#[trigger] before[i]) by {
            assert(before[i] == contents[i]);
        }
        lemma_contents_of_records(before);
        assert(fields.drop_last() =~= content_records(before));
        assert(fields.last() == bytes_is(1, content_bytes(contents.last())));
        assert(every_bytes(fields, 1) =~= records);
        assert(records.drop_last() =~= every_bytes(content_records(before), 1));
        assert(records.last() == content_bytes(contents.last()));
        lemma_content_round_trip(contents.last());
        assert(before.push(contents.last()) =~= contents);
    } else {
        assert(every_bytes(fields, 1) =~= records);
        assert(contents =~= Seq::<ObjectContentView>::empty());
    }
}

/// What the server holds is what the caller gets: the response to a fetch
/// that a server wrote is read as the same siblings, each with the value it
/// was stored with, byte for byte, the same version and the same word on
/// whether the object is unchanged.
pub proof fn lemma_fetch_round_trip(resp: FetchObjectRespView)
    requires
        get_resp_fits(resp),
    ensures
        fetch_object_resp_of(get_resp_bytes(resp)) == Ok::<FetchObjectRespView, SchemaError>(
            resp,
        ),
{
    let records = content_records(resp.content);
    let version = seq![bytes_is(2, resp.vclock)];
    let unchanged = opt_bool_is(3, resp.unchanged);
    let fields = records + version + unchanged;
    lemma_contents_of_records(resp.content);
    assert(all_fit(records)) by {
        assert forall|i: int| 0 <= i < records.len() implies field_fits(
            #[trigger] records[i],
        ) by {
            assert(records[i] == bytes_is(1, content_bytes(resp.content[i])));
        }
    }
    lemma_wire_bytes_is(2, resp.vclock);
    lemma_wire_opt_bool_is(3, resp.unchanged);
    lemma_wire_append(records, version);
    lemma_wire_append(records + version, unchanged);
    lemma_fields_of_wire(fields);
    lemma_picked_means(records, 1);
    lemma_picked_means(records, 2);
    lemma_picked_means(records, 3);
    lemma_picked_bytes_is(2, resp.vclock);
    lemma_picked_opt_bool_is(3, resp.unchanged);
    lemma_picked_append(records, version);
    lemma_picked_append(records + version, unchanged);
    lemma_picked_means(fields, 1);
    lemma_picked_means(fields, 2);
    lemma_picked_means(fields, 3);
}

/// A reply without fields is a response to a fetch without content: what a
/// server sends where the key holds nothing.
pub proof fn lemma_empty_reply_has_no_content()
    ensures
        fetch_object_resp_of(Seq::<u8>::empty()) == Ok::<
            FetchObjectRespView,
            SchemaError,
        >(
            FetchObjectRespView {
                content: Seq::empty(),
                vclock: Seq::empty(),
                unchanged: None,
            },
        ),
{
    lemma_picks_of_none();
    assert(contents_of(Seq::<Seq<u8>>::empty()) == Ok::<
        Seq<ObjectContentView>,
        SchemaError,
    >(Seq::empty()));
}

} // verus!
