use protobuf::well_known_types::Empty;
use protobuf::Message;
use riak::bucket::{parse_hook, put_hooks, write_hook, write_modfun, BucketProps, CommitHook};
use riak::errors::SchemaError;
use riak::object::{DeleteObjectReq, FetchObjectReq, ObjectContent, StoreObjectReq};
use riak::rpb::riak::{
    error_resp_from_fields, parse_error_resp, parse_get_bucket_resp, parse_server_info,
    write_named_req, write_pair_req,
};
use riak::rpb::riak_kv::{
    parse_listing, parse_preflist, write_del_req, write_list_buckets_req, write_list_keys_req,
};
use riak::rpb::riak_yokozuna::{
    parse_index_get_resp, parse_schema_get_resp, write_schema_put_req,
};
use riak::rpb::utils::{
    fetch_object_req_to_rpb_get_req, names_to_strings, object_content_from_fields,
    object_content_to_rpb_content, rpb_content_to_object_content,
    rpb_get_resp_to_fetch_object_resp, store_object_req_to_rpb_put_req, RpbGenerator,
};
use riak::rpb::wire::{
    low_bool, low_u32, pick_bytes, pick_every_bytes, pick_varint, put_checked_bytes,
    put_opt_bool, put_opt_bytes, put_opt_uint32, read_field, scan_fields, WireField, WireValue,
};
use riak::yokozuna::YokozunaIndex;

fn varint_field(number: u32, value: u64) -> Vec<u8> {
    let mut out = Vec::new();
    {
        let mut stream = protobuf::CodedOutputStream::vec(&mut out);
        stream.write_uint64(number, value).unwrap();
        stream.flush().unwrap();
    }
    out
}

fn bytes_field(number: u32, data: &[u8]) -> Vec<u8> {
    let mut out = Vec::new();
    {
        let mut stream = protobuf::CodedOutputStream::vec(&mut out);
        stream.write_bytes(number, data).unwrap();
        stream.flush().unwrap();
    }
    out
}

fn join(parts: &[Vec<u8>]) -> Vec<u8> {
    parts.concat()
}

fn varint(number: u32, value: u64) -> WireField {
    WireField { number, value: WireValue::Varint(value) }
}

fn bytes(number: u32, data: &[u8]) -> WireField {
    WireField { number, value: WireValue::Bytes(data.to_vec()) }
}

fn shape(field: &WireField) -> (u32, Option<u64>, Option<Vec<u8>>) {
    match &field.value {
        WireValue::Varint(value) => (field.number, Some(*value), None),
        WireValue::Bytes(data) => (field.number, None, Some(data.clone())),
        WireValue::Fixed64 => (field.number, Some(64), Some(Vec::new())),
        WireValue::Fixed32 => (field.number, Some(32), Some(Vec::new())),
        WireValue::Group => (field.number, Some(3), Some(Vec::new())),
    }
}

#[test]
fn small_number_is_one_byte() {
    let mut out = Vec::new();
    put_opt_uint32(&mut out, 1, Some(0));
    put_opt_uint32(&mut out, 1, Some(1));
    put_opt_uint32(&mut out, 1, Some(127));
    assert_eq!(out, vec![0x08, 0, 0x08, 1, 0x08, 127]);
}

#[test]
fn number_is_written_in_groups_of_seven_bits() {
    let mut out = Vec::new();
    put_opt_uint32(&mut out, 1, Some(128));
    assert_eq!(out, vec![0x08, 0x80, 0x01]);
    let mut out = Vec::new();
    put_opt_uint32(&mut out, 1, Some(300));
    assert_eq!(out, vec![0x08, 0xac, 0x02]);
    let mut out = Vec::new();
    put_opt_uint32(&mut out, 1, Some(u32::MAX));
    assert_eq!(out, vec![0x08, 0xff, 0xff, 0xff, 0xff, 0x0f]);
}

#[test]
fn tag_is_number_and_wire_type() {
    let mut out = Vec::new();
    put_opt_uint32(&mut out, 15, Some(1));
    put_opt_uint32(&mut out, 16, Some(1));
    put_opt_uint32(&mut out, 29, Some(1));
    put_opt_uint32(&mut out, 0x1fff_ffff, Some(1));
    assert_eq!(
        out,
        vec![0x78, 1, 0x80, 0x01, 1, 0xe8, 0x01, 1, 0xf8, 0xff, 0xff, 0xff, 0x0f, 1]
    );
    let mut out = Vec::new();
    put_checked_bytes(&mut out, 16, b"x").unwrap();
    assert_eq!(out, vec![0x82, 0x01, 1, b'x']);
}

#[test]
fn bool_is_one_or_zero() {
    let mut out = Vec::new();
    put_opt_bool(&mut out, 2, Some(true));
    put_opt_bool(&mut out, 3, Some(false));
    assert_eq!(out, vec![0x10, 1, 0x18, 0]);
}

#[test]
fn bytes_are_length_prefixed() {
    let mut out = Vec::new();
    put_checked_bytes(&mut out, 1, b"abc").unwrap();
    assert_eq!(out, vec![0x0a, 3, b'a', b'b', b'c']);
    let mut out = Vec::new();
    put_checked_bytes(&mut out, 1, &[]).unwrap();
    assert_eq!(out, vec![0x0a, 0]);
    let mut out = vec![9, 9];
    put_checked_bytes(&mut out, 2, &vec![7u8; 200]).unwrap();
    assert_eq!(&out[..5], &[9, 9, 0x12, 0xc8, 0x01]);
    assert_eq!(out.len(), 205);
}

#[test]
fn absent_values_write_nothing() {
    let mut out = vec![1, 2, 3];
    put_opt_uint32(&mut out, 1, None);
    put_opt_bool(&mut out, 2, None);
    put_opt_bytes(&mut out, 3, &None).unwrap();
    assert_eq!(out, vec![1, 2, 3]);
    put_opt_bytes(&mut out, 3, &Some(b"z".to_vec())).unwrap();
    assert_eq!(out, vec![1, 2, 3, 0x1a, 1, b'z']);
}

#[test]
fn fields_are_read_in_order() {
    let payload = join(&[bytes_field(1, b"ab"), varint_field(2, 300), bytes_field(1, b"")]);
    let fields = scan_fields(&payload).unwrap();
    let shapes: Vec<_> = fields.iter().map(shape).collect();
    assert_eq!(
        shapes,
        vec![
            (1, None, Some(b"ab".to_vec())),
            (2, Some(300), None),
            (1, None, Some(Vec::new())),
        ]
    );
}

#[test]
fn empty_payload_has_no_fields() {
    assert!(scan_fields(&[]).unwrap().is_empty());
}

#[test]
fn read_field_gives_the_position_after_it() {
    let payload = join(&[bytes_field(3, b"xyz"), varint_field(4, 1)]);
    let (field, next) = read_field(&payload, 0).unwrap();
    assert_eq!(shape(&field), (3, None, Some(b"xyz".to_vec())));
    assert_eq!(next, 5);
    let (field, next) = read_field(&payload, 5).unwrap();
    assert_eq!(shape(&field), (4, Some(1), None));
    assert_eq!(next, 7);
    assert!(read_field(&payload, 7).is_none());
    assert!(read_field(&payload, 1).is_none());
}

#[test]
fn fixed_width_fields_are_passed_over() {
    let payload = vec![0x09, 1, 2, 3, 4, 5, 6, 7, 8, 0x15, 1, 2, 3, 4, 0x08, 0x05];
    let fields = scan_fields(&payload).unwrap();
    let shapes: Vec<_> = fields.iter().map(shape).collect();
    assert_eq!(
        shapes,
        vec![(1, Some(64), Some(Vec::new())), (2, Some(32), Some(Vec::new())), (1, Some(5), None)]
    );
    assert_eq!(pick_varint(&fields, 1).unwrap_err(), SchemaError::UnexpectedWireType);
    assert_eq!(scan_fields(&[0x09, 1, 2, 3, 4, 5, 6, 7]).unwrap_err(), SchemaError::Malformed);
    assert_eq!(scan_fields(&[0x15, 1, 2, 3]).unwrap_err(), SchemaError::Malformed);
}

#[test]
fn groups_are_passed_over() {
    let payload = join(&[
        bytes_field(1, b"before"),
        vec![0x13],
        varint_field(7, 300),
        bytes_field(8, b"inside"),
        vec![0x49, 1, 2, 3, 4, 5, 6, 7, 8],
        vec![0x14],
        varint_field(2, 5),
    ]);
    let fields = scan_fields(&payload).unwrap();
    let shapes: Vec<_> = fields.iter().map(shape).collect();
    assert_eq!(
        shapes,
        vec![
            (1, None, Some(b"before".to_vec())),
            (2, Some(3), Some(Vec::new())),
            (2, Some(5), None),
        ]
    );
    assert_eq!(pick_bytes(&fields, 1).unwrap(), Some(b"before".to_vec()));
    assert_eq!(pick_varint(&fields, 7).unwrap(), None);
    assert_eq!(pick_varint(&fields, 2).unwrap_err(), SchemaError::UnexpectedWireType);
    let fields = scan_fields(&[0x0b, 0x0c]).unwrap();
    assert_eq!(shape(&fields[0]), (1, Some(3), Some(Vec::new())));
    let fields = scan_fields(&[0x0b, 0x14, 0x08, 0x01]).unwrap();
    assert_eq!(fields.len(), 2);
}

#[test]
fn groups_that_do_not_end_are_malformed() {
    let cases: Vec<Vec<u8>> = vec![
        vec![0x0b],
        vec![0x0b, 0x08, 0x01],
        vec![0x0b, 0x08],
        vec![0x0b, 0x13, 0x14, 0x0c],
        vec![0x0c],
        vec![0x08, 0x01, 0x0c],
        vec![0x0b, 0x0a, 0x05, b'x', 0x0c],
    ];
    for payload in cases {
        assert_eq!(scan_fields(&payload).unwrap_err(), SchemaError::Malformed, "{:?}", payload);
    }
}

#[test]
fn content_passes_over_a_group_it_does_not_know() {
    let record = join(&[bytes_field(1, b"v"), vec![0xa3, 0x06, 0x08, 0x01, 0xa4, 0x06]]);
    let content = rpb_content_to_object_content(&record).unwrap();
    assert_eq!(content.get_value(), b"v".to_vec());
    let record = join(&[vec![0x0b, 0x0c], bytes_field(1, b"v")]);
    assert_eq!(
        rpb_content_to_object_content(&record).unwrap_err(),
        SchemaError::UnexpectedWireType
    );
}

#[test]
fn long_varints_are_cut_to_64_bits() {
    let mut payload = vec![0x08];
    payload.extend([0xff; 9]);
    payload.push(0x01);
    let fields = scan_fields(&payload).unwrap();
    assert_eq!(shape(&fields[0]), (1, Some(u64::MAX), None));
    let mut payload = vec![0x08];
    payload.extend([0xff; 9]);
    payload.push(0x7f);
    let fields = scan_fields(&payload).unwrap();
    assert_eq!(shape(&fields[0]), (1, Some(u64::MAX), None));
    let mut payload = vec![0x08];
    payload.extend([0x80; 9]);
    payload.push(0x02);
    let fields = scan_fields(&payload).unwrap();
    assert_eq!(shape(&fields[0]), (1, Some(0), None));
}

#[test]
fn malformed_payloads_are_told() {
    let eleven = join(&[vec![0x08], vec![0x80; 10], vec![0x01]]);
    let cases: Vec<Vec<u8>> = vec![
        vec![0x08],
        vec![0x08, 0x80],
        vec![0x0a, 0x03, b'a', b'b'],
        vec![0x0a],
        vec![0x00, 0x01],
        vec![0x0b, 0x01],
        vec![0x0c],
        vec![0x0e, 0x01],
        vec![0x0f, 0x01],
        vec![0x80],
        eleven,
    ];
    for payload in cases {
        assert_eq!(scan_fields(&payload).unwrap_err(), SchemaError::Malformed, "{:?}", payload);
    }
}

#[test]
fn non_canonical_varints_are_read() {
    let fields = scan_fields(&[0x88, 0x80, 0x00, 0x85, 0x00]).unwrap();
    assert_eq!(shape(&fields[0]), (1, Some(5), None));
    let fields = scan_fields(&[0x0a, 0x81, 0x00, b'x']).unwrap();
    assert_eq!(shape(&fields[0]), (1, None, Some(b"x".to_vec())));
}

#[test]
fn tag_is_cut_to_32_bits() {
    let fields = scan_fields(&[0x88, 0x80, 0x80, 0x80, 0x10, 0x07]).unwrap();
    assert_eq!(shape(&fields[0]), (1, Some(7), None));
}

#[test]
fn last_field_of_a_number_is_picked() {
    let fields = vec![varint(1, 10), bytes(2, b"a"), varint(1, 20), bytes(2, b"b"), varint(3, 30)];
    assert_eq!(pick_varint(&fields, 1).unwrap(), Some(20));
    assert_eq!(pick_varint(&fields, 3).unwrap(), Some(30));
    assert_eq!(pick_varint(&fields, 4).unwrap(), None);
    assert_eq!(pick_bytes(&fields, 2).unwrap(), Some(b"b".to_vec()));
    assert_eq!(pick_bytes(&fields, 4).unwrap(), None);
    assert_eq!(pick_every_bytes(&fields, 2).unwrap(), vec![b"a".to_vec(), b"b".to_vec()]);
    assert_eq!(pick_every_bytes(&fields, 5).unwrap(), Vec::<Vec<u8>>::new());
}

#[test]
fn wrong_wire_type_is_told() {
    let fields = vec![varint(1, 10), bytes(2, b"a"), bytes(1, b"x")];
    assert_eq!(pick_varint(&fields, 1).unwrap_err(), SchemaError::UnexpectedWireType);
    assert_eq!(pick_bytes(&fields, 1).unwrap_err(), SchemaError::UnexpectedWireType);
    assert_eq!(pick_every_bytes(&fields, 1).unwrap_err(), SchemaError::UnexpectedWireType);
    assert_eq!(pick_varint(&fields, 2).unwrap_err(), SchemaError::UnexpectedWireType);
    assert_eq!(pick_bytes(&fields, 2).unwrap(), Some(b"a".to_vec()));
}

#[test]
fn numbers_keep_their_low_32_bits() {
    assert_eq!(low_u32(None), None);
    assert_eq!(low_u32(Some(7)), Some(7));
    assert_eq!(low_u32(Some(u32::MAX as u64)), Some(u32::MAX));
    assert_eq!(low_u32(Some((1u64 << 32) + 5)), Some(5));
    assert_eq!(low_u32(Some(u64::MAX)), Some(u32::MAX));
    assert_eq!(low_bool(None), None);
    assert_eq!(low_bool(Some(0)), Some(false));
    assert_eq!(low_bool(Some(1)), Some(true));
    assert_eq!(low_bool(Some(2)), Some(true));
    assert_eq!(low_bool(Some(1u64 << 32)), Some(false));
}

#[test]
fn names_become_text() {
    let names = vec![b"plain".to_vec(), vec![0xc3, 0xa9], vec![0xff], Vec::new()];
    assert_eq!(
        names_to_strings(&names),
        vec!["plain".to_string(), "\u{e9}".to_string(), "\u{fffd}".to_string(), String::new()]
    );
}

#[test]
fn requests_that_name_things() {
    assert_eq!(write_named_req(b"tb").unwrap(), vec![0x0a, 2, b't', b'b']);
    assert_eq!(write_named_req(b"").unwrap(), vec![0x0a, 0]);
    assert_eq!(write_pair_req(b"b", b"key").unwrap(), vec![0x0a, 1, b'b', 0x12, 3, b'k', b'e', b'y']);
    assert_eq!(write_list_buckets_req(3600), vec![0x08, 0x90, 0x1c, 0x10, 0x01]);
    assert_eq!(write_list_buckets_req(0), vec![0x08, 0x00, 0x10, 0x01]);
    assert_eq!(write_list_keys_req(b"b", 3600).unwrap(), vec![0x0a, 1, b'b', 0x10, 0x90, 0x1c]);
    assert_eq!(
        write_schema_put_req(b"s", b"<x/>").unwrap(),
        vec![0x0a, 9, 0x0a, 1, b's', 0x12, 4, b'<', b'x', b'/', b'>']
    );
}

#[test]
fn content_with_value_alone() {
    let content = ObjectContent::new(b"hello".to_vec());
    assert_eq!(
        object_content_to_rpb_content(&content).unwrap(),
        vec![0x0a, 5, b'h', b'e', b'l', b'l', b'o']
    );
}

#[test]
fn content_with_all_metadata() {
    let mut content = ObjectContent::new(b"v".to_vec());
    content.set_content_type(b"t".to_vec());
    content.set_charset(b"c".to_vec());
    content.set_content_encoding(b"e".to_vec());
    content.set_vtag(b"g");
    content.set_last_mod(300);
    content.set_last_mod_usecs(1);
    content.set_deleted(true);
    assert_eq!(
        object_content_to_rpb_content(&content).unwrap(),
        vec![
            0x0a, 1, b'v', 0x12, 1, b't', 0x1a, 1, b'c', 0x22, 1, b'e', 0x2a, 1, b'g', 0x38, 0xac,
            0x02, 0x40, 1, 0x58, 1
        ]
    );
}

#[test]
fn content_comes_back_as_it_went_out() {
    let mut content = ObjectContent::new(vec![0, 255, 10, 13]);
    content.set_content_type(b"application/octet-stream".to_vec());
    content.set_vtag(b"tag");
    content.set_last_mod(u32::MAX);
    content.set_deleted(false);
    let bytes = object_content_to_rpb_content(&content).unwrap();
    let back = rpb_content_to_object_content(&bytes).unwrap();
    assert_eq!(back.get_value(), vec![0, 255, 10, 13]);
    assert_eq!(back.get_content_type(), Some(b"application/octet-stream".to_vec()));
    assert_eq!(back.get_charset(), None);
    assert_eq!(back.get_content_encoding(), None);
    assert_eq!(back.get_vtag(), Some(b"tag".to_vec()));
    assert_eq!(back.get_last_mod(), Some(u32::MAX));
    assert_eq!(back.get_last_mod_usecs(), None);
    assert_eq!(back.get_deleted(), Some(false));
}

#[test]
fn content_needs_a_value() {
    let record = bytes_field(2, b"text/plain");
    assert_eq!(rpb_content_to_object_content(&record).unwrap_err(), SchemaError::MissingField);
    let fields = vec![bytes(2, b"text/plain")];
    assert_eq!(object_content_from_fields(&fields).unwrap_err(), SchemaError::MissingField);
    let fields = vec![varint(1, 5)];
    assert_eq!(object_content_from_fields(&fields).unwrap_err(), SchemaError::UnexpectedWireType);
    let fields = vec![bytes(1, b"v"), bytes(8, b"x")];
    assert_eq!(object_content_from_fields(&fields).unwrap_err(), SchemaError::UnexpectedWireType);
    assert_eq!(rpb_content_to_object_content(&[0x0a]).unwrap_err(), SchemaError::Malformed);
}

#[test]
fn content_passes_over_fields_it_does_not_know() {
    let bytes = join(&[
        bytes_field(1, b"v"),
        bytes_field(6, b"a link"),
        bytes_field(9, b"user meta"),
        varint_field(12, 60),
        varint_field(99, 1),
    ]);
    let content = rpb_content_to_object_content(&bytes).unwrap();
    assert_eq!(content.get_value(), b"v".to_vec());
    assert_eq!(content.get_deleted(), None);
}

#[test]
fn store_request_with_bucket_and_content() {
    let req = StoreObjectReq::new(b"testbucket".to_vec(), ObjectContent::new(b"hello".to_vec()));
    let mut expected = vec![0x0a, 10];
    expected.extend(b"testbucket");
    expected.extend([0x22, 7, 0x0a, 5]);
    expected.extend(b"hello");
    assert_eq!(store_object_req_to_rpb_put_req(&req).unwrap(), expected);
    assert_eq!(req.write_to_bytes().unwrap(), expected);
}

#[test]
fn store_request_with_every_setting() {
    let mut req = StoreObjectReq::new(b"b".to_vec(), ObjectContent::new(b"v".to_vec()));
    req.set_key(b"k".to_vec());
    req.set_vclock(b"c".to_vec());
    req.set_w(1);
    req.set_dw(2);
    req.set_return_body(true);
    req.set_pw(3);
    req.set_if_not_modified(false);
    req.set_if_none_match(true);
    req.set_return_head(false);
    req.set_timeout(500);
    req.set_asis(true);
    req.set_sloppy_quorum(false);
    req.set_n_val(4);
    req.set_bucket_type(b"t".to_vec());
    assert_eq!(
        req.write_to_bytes().unwrap(),
        vec![
            0x0a, 1, b'b', 0x12, 1, b'k', 0x1a, 1, b'c', 0x22, 3, 0x0a, 1, b'v', 0x28, 1, 0x30, 2,
            0x38, 1, 0x40, 3, 0x48, 0, 0x50, 1, 0x58, 0, 0x60, 0xf4, 0x03, 0x68, 1, 0x70, 0, 0x78,
            4, 0x82, 0x01, 1, b't'
        ]
    );
}

#[test]
fn fetch_request_names_bucket_and_key() {
    let req = FetchObjectReq::new(b"testbucket".to_vec(), b"k".to_vec());
    let mut expected = vec![0x0a, 10];
    expected.extend(b"testbucket");
    expected.extend([0x12, 1, b'k']);
    assert_eq!(fetch_object_req_to_rpb_get_req(&req).unwrap(), expected);
    assert_eq!(req.write_to_bytes().unwrap(), expected);
}

#[test]
fn fetch_request_carries_every_setting() {
    let mut req = FetchObjectReq::new(b"b".to_vec(), b"k".to_vec());
    req.set_r(1);
    req.set_pr(2);
    req.set_basic_quorum(true);
    req.set_notfound_ok(false);
    req.set_if_modified(b"vc".to_vec());
    req.set_head(true);
    req.set_deletedvclock(true);
    req.set_timeout(3);
    req.set_sloppy_quorum(true);
    req.set_n_val(4);
    req.set_bucket_type(b"t".to_vec());
    assert_eq!(
        req.write_to_bytes().unwrap(),
        vec![
            0x0a, 1, b'b', 0x12, 1, b'k', 0x18, 1, 0x20, 2, 0x28, 1, 0x30, 0, 0x3a, 2, b'v', b'c',
            0x40, 1, 0x48, 1, 0x50, 3, 0x58, 1, 0x60, 4, 0x6a, 1, b't'
        ]
    );
}

#[test]
fn delete_request_carries_every_setting() {
    let mut req = DeleteObjectReq::new(b"b".to_vec(), b"k".to_vec());
    assert_eq!(write_del_req(&req).unwrap(), vec![0x0a, 1, b'b', 0x12, 1, b'k']);
    req.set_rw(1);
    req.set_vclock(b"vc".to_vec());
    req.set_r(2);
    req.set_w(3);
    req.set_pr(4);
    req.set_pw(5);
    req.set_dw(6);
    req.set_timeout(7);
    req.set_sloppy_quorum(true);
    req.set_n_val(8);
    req.set_bucket_type(b"t".to_vec());
    assert_eq!(
        req.write_to_bytes().unwrap(),
        vec![
            0x0a, 1, b'b', 0x12, 1, b'k', 0x18, 1, 0x22, 2, b'v', b'c', 0x28, 2, 0x30, 3, 0x38, 4,
            0x40, 5, 0x48, 6, 0x50, 7, 0x58, 1, 0x60, 8, 0x6a, 1, b't'
        ]
    );
}

#[test]
fn response_to_a_fetch_is_read() {
    let first = join(&[bytes_field(1, b"one"), bytes_field(2, b"text/plain")]);
    let second = bytes_field(1, b"two");
    let payload = join(&[
        bytes_field(1, &first),
        bytes_field(1, &second),
        bytes_field(2, b"vclock"),
        varint_field(3, 1),
    ]);
    let resp = rpb_get_resp_to_fetch_object_resp(&payload).unwrap();
    let content = resp.get_content();
    assert_eq!(content.len(), 2);
    assert_eq!(content[0].get_value(), b"one".to_vec());
    assert_eq!(content[0].get_content_type(), Some(b"text/plain".to_vec()));
    assert_eq!(content[1].get_value(), b"two".to_vec());
    assert_eq!(resp.get_vclock(), b"vclock".to_vec());
    assert_eq!(resp.get_unchanged(), Some(true));
}

#[test]
fn empty_response_to_a_fetch_has_no_content() {
    let resp = rpb_get_resp_to_fetch_object_resp(&[]).unwrap();
    assert!(resp.get_content().is_empty());
    assert!(resp.get_vclock().is_empty());
    assert_eq!(resp.get_unchanged(), None);
}

#[test]
fn response_to_a_fetch_with_a_bad_sibling_is_rejected() {
    let payload = join(&[bytes_field(1, &bytes_field(1, b"ok")), bytes_field(1, &bytes_field(2, b"t"))]);
    assert_eq!(rpb_get_resp_to_fetch_object_resp(&payload).unwrap_err(), SchemaError::MissingField);
    let payload = join(&[bytes_field(1, &[0x0a, 9]), bytes_field(1, &bytes_field(2, b"t"))]);
    assert_eq!(rpb_get_resp_to_fetch_object_resp(&payload).unwrap_err(), SchemaError::Malformed);
    let payload = varint_field(1, 1);
    assert_eq!(
        rpb_get_resp_to_fetch_object_resp(&payload).unwrap_err(),
        SchemaError::UnexpectedWireType
    );
}

#[test]
fn listing_is_read() {
    let payload = join(&[bytes_field(1, b"a"), bytes_field(1, b"b"), varint_field(2, 1)]);
    assert_eq!(parse_listing(&payload).unwrap(), (vec![b"a".to_vec(), b"b".to_vec()], true));
    assert_eq!(parse_listing(&bytes_field(1, b"a")).unwrap(), (vec![b"a".to_vec()], false));
    assert_eq!(parse_listing(&[]).unwrap(), (Vec::new(), false));
    assert_eq!(parse_listing(&varint_field(2, 0)).unwrap(), (Vec::new(), false));
    assert_eq!(parse_listing(&varint_field(1, 0)).unwrap_err(), SchemaError::UnexpectedWireType);
    assert_eq!(parse_listing(&bytes_field(2, b"")).unwrap_err(), SchemaError::UnexpectedWireType);
}

#[test]
fn error_record_is_read() {
    let payload = join(&[bytes_field(1, b"bad"), varint_field(2, 42)]);
    let error = parse_error_resp(&payload).unwrap();
    assert_eq!(error.code(), 42);
    assert_eq!(error.data(), &b"bad".to_vec());
    let error = error_resp_from_fields(&vec![varint(2, 7), bytes(1, b"m")]).unwrap();
    assert_eq!((error.code(), error.data().clone()), (7, b"m".to_vec()));
    let error = error_resp_from_fields(&vec![varint(2, (1 << 32) + 9), bytes(1, b"")]).unwrap();
    assert_eq!((error.code(), error.data().clone()), (9, Vec::new()));
}

#[test]
fn server_info_is_read() {
    let payload = join(&[bytes_field(1, b"riak@10.0.0.2"), bytes_field(2, b"2.2.3")]);
    assert_eq!(parse_server_info(&payload).unwrap(), (b"riak@10.0.0.2".to_vec(), b"2.2.3".to_vec()));
    assert_eq!(parse_server_info(&[]).unwrap(), (Vec::new(), Vec::new()));
    assert_eq!(parse_server_info(&varint_field(1, 1)).unwrap_err(), SchemaError::UnexpectedWireType);
}

#[test]
fn preference_list_is_read() {
    let item = |partition: u64, node: &[u8], primary: u64| {
        join(&[varint_field(1, partition), bytes_field(2, node), varint_field(3, primary)])
    };
    let payload = join(&[
        bytes_field(1, &item(0, b"riak@a", 1)),
        bytes_field(1, &item(u64::MAX, b"riak@b", 0)),
        bytes_field(1, &item(i64::MAX as u64, b"riak@c", 1)),
    ]);
    let list = parse_preflist(&payload).unwrap();
    assert_eq!(list.len(), 3);
    assert_eq!((list[0].partition, list[0].node.as_str(), list[0].is_primary), (0, "riak@a", true));
    assert_eq!((list[1].partition, list[1].node.as_str(), list[1].is_primary), (-1, "riak@b", false));
    assert_eq!(
        (list[2].partition, list[2].node.as_str(), list[2].is_primary),
        (i64::MAX, "riak@c", true)
    );
    let incomplete = join(&[varint_field(1, 1), bytes_field(2, b"n")]);
    assert_eq!(parse_preflist(&bytes_field(1, &incomplete)).unwrap_err(), SchemaError::MissingField);
    assert!(parse_preflist(&[]).unwrap().is_empty());
}

#[test]
fn properties_with_a_backend() {
    let mut props = BucketProps::new();
    props.set_backend(b"bitcask".to_vec());
    let mut record = vec![0xb2, 0x01, 7];
    record.extend(b"bitcask");
    assert_eq!(props.props_to_bytes().unwrap(), record);
    let mut expected = vec![0x0a, 10];
    expected.extend(b"testbucket");
    expected.extend([0x12, 10]);
    expected.extend(&record);
    assert_eq!(props.write_to_bytes(b"testbucket".to_vec(), false).unwrap(), expected);
    assert_eq!(props.write_to_bytes(b"testbucket".to_vec(), true).unwrap(), expected);
}

#[test]
fn properties_unset_write_nothing() {
    assert!(BucketProps::new().props_to_bytes().unwrap().is_empty());
    assert_eq!(BucketProps::new().write_to_bytes(b"b".to_vec(), false).unwrap(), vec![0x0a, 1, b'b', 0x12, 0]);
}

fn every_property() -> BucketProps {
    let mut props = BucketProps::new();
    props.set_n_val(3);
    props.set_allow_mult(true);
    props.set_last_write_wins(false);
    props.set_precommit(vec![CommitHook {
        name: b"pre".to_vec(),
        module: b"m1".to_vec(),
        function: b"f1".to_vec(),
    }]);
    props.set_has_precommit(true);
    props.set_postcommit(vec![
        CommitHook { name: b"p1".to_vec(), module: b"m2".to_vec(), function: b"f2".to_vec() },
        CommitHook { name: b"p2".to_vec(), module: b"m3".to_vec(), function: b"f3".to_vec() },
    ]);
    props.set_has_postcommit(true);
    props.set_chash_keyfun(b"riak_core_util".to_vec(), b"chash_std_keyfun".to_vec());
    props.set_linkfun(b"riak_kv_wm_link_walker".to_vec(), b"mapreduce_linkfun".to_vec());
    props.set_old_vclock(86400);
    props.set_young_vclock(20);
    props.set_big_vclock(50);
    props.set_small_vclock(51);
    props.set_pr(1);
    props.set_r(2);
    props.set_w(4);
    props.set_pw(5);
    props.set_dw(6);
    props.set_rw(7);
    props.set_basic_quorum(true);
    props.set_notfound_ok(false);
    props.set_backend(b"bitcask".to_vec());
    props.set_search(false);
    props.set_search_index(b"idx".to_vec());
    props.set_datatype(b"map".to_vec());
    props.set_consistent(true);
    props.set_write_once(false);
    props.set_hll_precision(14);
    props
}

#[test]
fn properties_come_back_as_they_went_out() {
    let props = every_property();
    let back = BucketProps::parse(&props.props_to_bytes().unwrap()).unwrap();
    assert_eq!(back.get_n_val(), Some(3));
    assert_eq!(back.get_allow_mult(), Some(true));
    assert_eq!(back.get_last_write_wins(), Some(false));
    let pre = back.get_precommit().unwrap();
    assert_eq!(pre.len(), 1);
    assert_eq!((&pre[0].name[..], &pre[0].module[..], &pre[0].function[..]), (&b"pre"[..], &b"m1"[..], &b"f1"[..]));
    assert_eq!(back.get_has_precommit(), Some(true));
    let post = back.get_postcommit().unwrap();
    assert_eq!(post.len(), 2);
    assert_eq!(post[0].name, b"p1".to_vec());
    assert_eq!(post[1].name, b"p2".to_vec());
    assert_eq!(post[1].module, b"m3".to_vec());
    assert_eq!(post[1].function, b"f3".to_vec());
    assert_eq!(back.get_has_postcommit(), Some(true));
    assert_eq!(
        back.get_chash_keyfun(),
        Some((b"riak_core_util".to_vec(), b"chash_std_keyfun".to_vec()))
    );
    assert_eq!(
        back.get_linkfun(),
        Some((b"riak_kv_wm_link_walker".to_vec(), b"mapreduce_linkfun".to_vec()))
    );
    assert_eq!(back.get_old_vclock(), Some(86400));
    assert_eq!(back.get_young_vclock(), Some(20));
    assert_eq!(back.get_big_vclock(), Some(50));
    assert_eq!(back.get_small_vclock(), Some(51));
    assert_eq!(back.get_pr(), Some(1));
    assert_eq!(back.get_r(), Some(2));
    assert_eq!(back.get_w(), Some(4));
    assert_eq!(back.get_pw(), Some(5));
    assert_eq!(back.get_dw(), Some(6));
    assert_eq!(back.get_rw(), Some(7));
    assert_eq!(back.get_basic_quorum(), Some(true));
    assert_eq!(back.get_notfound_ok(), Some(false));
    assert_eq!(back.get_backend(), Some(b"bitcask".to_vec()));
    assert_eq!(back.get_search(), Some(false));
    assert_eq!(back.get_search_index(), Some(b"idx".to_vec()));
    assert_eq!(back.get_datatype(), Some(b"map".to_vec()));
    assert_eq!(back.get_consistent(), Some(true));
    assert_eq!(back.get_write_once(), Some(false));
    assert_eq!(back.get_hll_precision(), Some(14));
    assert_eq!(back.props_to_bytes().unwrap(), props.props_to_bytes().unwrap());
}

#[test]
fn properties_unset_come_back_unset() {
    let mut props = BucketProps::new();
    props.set_r(2);
    let back = BucketProps::parse(&props.props_to_bytes().unwrap()).unwrap();
    assert_eq!(back.get_r(), Some(2));
    assert_eq!(back.get_n_val(), None);
    assert_eq!(back.get_allow_mult(), None);
    assert_eq!(back.get_backend(), None);
    assert_eq!(back.get_chash_keyfun(), None);
    assert!(back.get_precommit().is_none());
    assert!(back.get_postcommit().is_none());
}

#[test]
fn properties_are_written_in_the_order_of_their_numbers() {
    let mut props = BucketProps::new();
    props.set_hll_precision(14);
    props.set_backend(b"b".to_vec());
    props.set_chash_keyfun(b"m".to_vec(), b"f".to_vec());
    props.set_allow_mult(true);
    props.set_n_val(3);
    assert_eq!(
        props.props_to_bytes().unwrap(),
        vec![
            0x08, 3, 0x10, 1, 0x42, 6, 0x0a, 1, b'm', 0x12, 1, b'f', 0xb2, 0x01, 1, b'b', 0xe8,
            0x01, 14
        ]
    );
}

#[test]
fn set_props_replaces_everything_or_nothing() {
    let mut props = BucketProps::new();
    props.set_n_val(3);
    props.set_backend(b"old".to_vec());
    assert_eq!(props.set_props(&[0x08]).unwrap_err(), SchemaError::Malformed);
    assert_eq!(props.get_n_val(), Some(3));
    assert_eq!(props.get_backend(), Some(b"old".to_vec()));
    props.set_props(&varint_field(2, 1)).unwrap();
    assert_eq!(props.get_n_val(), None);
    assert_eq!(props.get_backend(), None);
    assert_eq!(props.get_allow_mult(), Some(true));
    assert_eq!(props.set_props(&bytes_field(1, b"x")).unwrap_err(), SchemaError::UnexpectedWireType);
    let bad_hook = bytes_field(4, &bytes_field(1, &bytes_field(1, b"module only")));
    assert_eq!(props.set_props(&bad_hook).unwrap_err(), SchemaError::MissingField);
    assert_eq!(props.get_allow_mult(), Some(true));
}

#[test]
fn hooks_on_the_wire() {
    let hook = CommitHook { name: b"n".to_vec(), module: b"m".to_vec(), function: b"f".to_vec() };
    assert_eq!(write_modfun(b"m", b"f").unwrap(), vec![0x0a, 1, b'm', 0x12, 1, b'f']);
    let record = write_hook(&hook).unwrap();
    assert_eq!(record, vec![0x0a, 6, 0x0a, 1, b'm', 0x12, 1, b'f', 0x12, 1, b'n']);
    let mut out = Vec::new();
    put_hooks(&mut out, 6, &vec![hook.clone(), hook]).unwrap();
    let mut twice = vec![0x32, 11];
    twice.extend(&record);
    twice.extend([0x32, 11]);
    twice.extend(&record);
    assert_eq!(out, twice);
    let back = parse_hook(&record).unwrap();
    assert_eq!((back.name, back.module, back.function), (b"n".to_vec(), b"m".to_vec(), b"f".to_vec()));
    let nameless = parse_hook(&[]).unwrap();
    assert!(nameless.name.is_empty() && nameless.module.is_empty() && nameless.function.is_empty());
}

#[test]
fn reply_with_properties_is_read() {
    let mut props = BucketProps::new();
    props.set_backend(b"bitcask".to_vec());
    let reply = bytes_field(1, &props.props_to_bytes().unwrap());
    assert_eq!(parse_get_bucket_resp(&reply).unwrap().get_backend(), Some(b"bitcask".to_vec()));
    assert_eq!(parse_get_bucket_resp(&[]).unwrap_err(), SchemaError::MissingField);
    assert_eq!(parse_get_bucket_resp(&varint_field(1, 1)).unwrap_err(), SchemaError::UnexpectedWireType);
    assert_eq!(parse_get_bucket_resp(&bytes_field(1, &[0x08])).unwrap_err(), SchemaError::Malformed);
}

#[test]
fn index_on_the_wire() {
    let mut index = YokozunaIndex::new(b"myindex".to_vec());
    index.set_schema(b"schedule".to_vec());
    index.set_n_val(3);
    let mut record = vec![0x0a, 7];
    record.extend(b"myindex");
    record.extend([0x12, 8]);
    record.extend(b"schedule");
    record.extend([0x18, 3]);
    assert_eq!(index.index_to_bytes().unwrap(), record);
    let mut request = vec![0x0a, record.len() as u8];
    request.extend(&record);
    assert_eq!(index.write_to_bytes().unwrap(), request);
    let back = YokozunaIndex::new_from_rpb_yokozuna_index(&record).unwrap();
    assert_eq!(back.get_name(), b"myindex".to_vec());
    assert_eq!(back.get_schema(), Some(b"schedule".to_vec()));
    assert_eq!(back.get_n_val(), Some(3));
    assert_eq!(
        YokozunaIndex::new_from_rpb_yokozuna_index(&bytes_field(2, b"s")).unwrap_err(),
        SchemaError::MissingField
    );
}

#[test]
fn replies_about_search_are_read() {
    let one = bytes_field(1, b"one");
    let two = join(&[bytes_field(1, b"two"), varint_field(3, 5)]);
    let reply = join(&[bytes_field(1, &one), bytes_field(1, &two)]);
    let indexes = parse_index_get_resp(&reply).unwrap();
    assert_eq!(indexes.len(), 2);
    assert_eq!(indexes[0].get_name(), b"one".to_vec());
    assert_eq!(indexes[1].get_name(), b"two".to_vec());
    assert_eq!(indexes[1].get_n_val(), Some(5));
    assert!(parse_index_get_resp(&[]).unwrap().is_empty());
    let schema = join(&[bytes_field(1, b"schedule"), bytes_field(2, b"<schema/>")]);
    assert_eq!(parse_schema_get_resp(&bytes_field(1, &schema)).unwrap(), b"<schema/>".to_vec());
    assert_eq!(parse_schema_get_resp(&bytes_field(1, &bytes_field(1, b"s"))).unwrap(), Vec::<u8>::new());
    assert_eq!(parse_schema_get_resp(&[]).unwrap_err(), SchemaError::MissingField);
    assert_eq!(
        parse_schema_get_resp(&bytes_field(1, &bytes_field(2, b"c"))).unwrap_err(),
        SchemaError::MissingField
    );
}

#[test]
fn stored_schema_is_the_schema_got() {
    let content = b"<?xml version=\"1.0\"?><schema name=\"schedule\"/>".to_vec();
    let request = write_schema_put_req(b"schedule", &content).unwrap();
    assert_eq!(parse_schema_get_resp(&request).unwrap(), content);
}

/// The varint at the head of `bytes`, by the rules of the format: value and
/// length.
fn model_varint(bytes: &[u8]) -> Option<(u64, usize)> {
    let mut value: u128 = 0;
    for (i, byte) in bytes.iter().take(10).enumerate() {
        value += ((byte & 0x7f) as u128) << (7 * i);
        if byte & 0x80 == 0 {
            return Some((value as u64, i + 1));
        }
    }
    None
}

/// The field at the head of `bytes`, by the rules of the format: number,
/// varint or bytes, and length.
fn model_field(bytes: &[u8]) -> Option<((u32, Option<u64>, Option<Vec<u8>>), usize)> {
    let (key, at) = model_varint(bytes)?;
    let key = key as u32;
    let (number, wire_type) = (key >> 3, key & 7);
    if number == 0 || wire_type > 5 {
        return None;
    }
    let rest = &bytes[at..];
    if wire_type == 3 {
        let mut pos = 0;
        loop {
            let (key, len) = model_varint(&rest[pos..])?;
            let key = key as u32;
            if key >> 3 == 0 || key & 7 > 5 {
                return None;
            }
            if key & 7 == 4 {
                return Some(((number, Some(3), Some(Vec::new())), at + pos + len));
            }
            let (_, taken) = model_value(&rest[pos + len..], key & 7)?;
            pos += len + taken;
        }
    }
    let ((value, data), len) = model_value(rest, wire_type)?;
    Some(((number, value, data), at + len))
}

/// The value at the head of `bytes` of a field that is not a group, by the
/// rules of the format.
fn model_value(bytes: &[u8], wire_type: u32) -> Option<((Option<u64>, Option<Vec<u8>>), usize)> {
    match wire_type {
        0 => {
            let (value, len) = model_varint(bytes)?;
            Some(((Some(value), None), len))
        },
        1 if bytes.len() >= 8 => Some(((Some(64), Some(Vec::new())), 8)),
        5 if bytes.len() >= 4 => Some(((Some(32), Some(Vec::new())), 4)),
        2 => {
            let (count, len) = model_varint(bytes)?;
            let count = count as u32 as usize;
            if count > bytes.len() - len {
                return None;
            }
            Some(((None, Some(bytes[len..len + count].to_vec())), len + count))
        },
        _ => None,
    }
}

fn model_fields(mut bytes: &[u8]) -> Option<Vec<(u32, Option<u64>, Option<Vec<u8>>)>> {
    let mut fields = Vec::new();
    while !bytes.is_empty() {
        let (field, len) = model_field(bytes)?;
        fields.push(field);
        bytes = &bytes[len..];
    }
    Some(fields)
}

#[test]
fn reader_follows_the_wire_format() {
    let mut state: u64 = 0x2545_f491_4f6c_dd1d;
    let mut next = move || {
        state ^= state << 13;
        state ^= state >> 7;
        state ^= state << 17;
        state
    };
    let mut readable = 0;
    for round in 0..20_000 {
        let len = (next() % 24) as usize;
        let mut payload: Vec<u8> = (0..len).map(|_| next() as u8).collect();
        if round % 2 == 0 {
            // lean towards payloads that are runs of fields
            payload.clear();
            for _ in 0..(next() % 6) {
                let number = (next() % 40) as u32 + 1;
                match next() % 4 {
                    0 => payload.extend(varint_field(number, next() >> (next() % 64))),
                    1 => {
                        let data: Vec<u8> = (0..next() % 9).map(|_| next() as u8).collect();
                        payload.extend(bytes_field(number, &data));
                    },
                    2 => payload.push(next() as u8),
                    _ => payload.push([0x0b, 0x0c, 0x13, 0x14, 0x08, 0x00][(next() % 6) as usize]),
                }
            }
        }
        let read = scan_fields(&payload).ok().map(|fields| fields.iter().map(shape).collect::<Vec<_>>());
        assert_eq!(read, model_fields(&payload), "{:?}", payload);
        if read.is_some() {
            readable += 1;
        }
        let first = read_field(&payload, 0).map(|(field, next)| (shape(&field), next));
        let expected = if payload.is_empty() { None } else { model_field(&payload) };
        assert_eq!(first, expected, "{:?}", payload);
    }
    assert!(readable > 2_000);
}

#[test]
fn writer_follows_the_wire_format() {
    let mut state: u64 = 0x9e37_79b9_7f4a_7c15;
    let mut next = move || {
        state ^= state << 13;
        state ^= state >> 7;
        state ^= state << 17;
        state
    };
    let model = |value: u64| {
        let mut bytes = Vec::new();
        let mut value = value;
        while value >= 128 {
            bytes.push((value % 128) as u8 + 128);
            value /= 128;
        }
        bytes.push(value as u8);
        bytes
    };
    for _ in 0..5_000 {
        let number = (next() % 0x1fff_ffff) as u32 + 1;
        let value = (next() >> (next() % 64)) as u32;
        let data: Vec<u8> = (0..next() % 300).map(|_| next() as u8).collect();
        let flag = next() % 2 == 0;
        let mut out = Vec::new();
        put_opt_uint32(&mut out, number, Some(value));
        put_opt_bool(&mut out, number, Some(flag));
        put_checked_bytes(&mut out, number, &data).unwrap();
        let mut expected = model((number as u64) * 8);
        expected.extend(model(value as u64));
        expected.extend(model((number as u64) * 8));
        expected.push(flag as u8);
        expected.extend(model((number as u64) * 8 + 2));
        expected.extend(model(data.len() as u64));
        expected.extend(&data);
        assert_eq!(out, expected);
    }
}

#[test]
fn reader_agrees_with_the_schema_library() {
    let mut state: u64 = 0x1234_5678_9abc_def1;
    let mut next = move || {
        state ^= state << 13;
        state ^= state >> 7;
        state ^= state << 17;
        state
    };
    let mut readable = 0;
    let mut grouped = 0;
    for round in 0..20_000 {
        let mut payload: Vec<u8> = (0..next() % 16).map(|_| next() as u8).collect();
        if round % 2 == 0 {
            payload.clear();
            for _ in 0..(next() % 6) {
                let number = (next() % 20) as u32 + 1;
                match next() % 5 {
                    0 => payload.extend(varint_field(number, next() >> (next() % 64))),
                    1 => {
                        let data: Vec<u8> = (0..next() % 9).map(|_| next() as u8).collect();
                        payload.extend(bytes_field(number, &data));
                    },
                    2 => payload.push((number as u8) << 3 | 3),
                    3 => payload.push((number as u8) << 3 | 4),
                    _ => payload.push(next() as u8),
                }
            }
        }
        let theirs = Empty::parse_from_bytes(&payload);
        let ours = scan_fields(&payload);
        assert_eq!(ours.is_ok(), theirs.is_ok(), "{:?}", payload);
        if let (Ok(fields), Ok(message)) = (ours, theirs) {
            readable += 1;
            let unknown = message.get_unknown_fields();
            for number in 1..=40 {
                let varints: Vec<u64> = fields
                    .iter()
                    .filter(|field| field.number == number)
                    .filter_map(|field| match &field.value {
                        WireValue::Varint(value) => Some(*value),
                        _ => None,
                    })
                    .collect();
                let runs: Vec<Vec<u8>> = fields
                    .iter()
                    .filter(|field| field.number == number)
                    .filter_map(|field| match &field.value {
                        WireValue::Bytes(data) => Some(data.clone()),
                        _ => None,
                    })
                    .collect();
                let (their_varints, their_runs) = match unknown.get(number) {
                    Some(values) => (values.varint.clone(), values.length_delimited.clone()),
                    None => (Vec::new(), Vec::new()),
                };
                assert_eq!(varints, their_varints, "{:?}", payload);
                assert_eq!(runs, their_runs, "{:?}", payload);
            }
            if fields.iter().any(|field| matches!(field.value, WireValue::Group)) {
                grouped += 1;
            }
        }
    }
    assert!(readable > 2_000);
    assert!(grouped > 100);
}
