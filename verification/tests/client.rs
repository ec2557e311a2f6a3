use riak::bucket::BucketProps;
use riak::connection::encode_frame;
use riak::errors::{IoErrorKind, RiakErr, SchemaError};
use riak::object::{DeleteObjectReq, FetchObjectReq, ObjectContent, StoreObjectReq};
use riak::rpb::codes;
use riak::rpb::utils::RpbGenerator;
use riak::yokozuna::YokozunaIndex;
use riak::{Client, DEFAULT_TIMEOUT};

fn client() -> Client {
    Client::new("10.0.0.2:8087", Ok(())).unwrap()
}

fn frame(code: u8, payload: &[u8]) -> Vec<u8> {
    encode_frame(code, payload).unwrap()
}

fn bytes_field(number: u32, data: &[u8]) -> Vec<u8> {
    let mut out = Vec::new();
    {
        let mut stream = protobuf::CodedOutputStream::vec(&mut out);
        stream.write_bytes(number, data).unwrap();
        stream.flush().unwrap();
    }
    out
}

fn varint_field(number: u32, value: u64) -> Vec<u8> {
    let mut out = Vec::new();
    {
        let mut stream = protobuf::CodedOutputStream::vec(&mut out);
        stream.write_uint64(number, value).unwrap();
        stream.flush().unwrap();
    }
    out
}

fn error_payload(message: &[u8], code: u32) -> Vec<u8> {
    [bytes_field(1, message), varint_field(2, code as u64)].concat()
}

fn io_kind(error: &RiakErr) -> IoErrorKind {
    match error {
        RiakErr::IoError(kind) => *kind,
        other => panic!("not an I/O error: {:?}", other),
    }
}

fn schema_kind(error: &RiakErr) -> SchemaError {
    match error {
        RiakErr::ProtobufError(kind) => *kind,
        other => panic!("not a schema error: {:?}", other),
    }
}

#[test]
fn client_is_made_with_the_default_timeout() {
    let riak = Client::new("riak.example:8087", Ok(())).unwrap();
    assert_eq!(DEFAULT_TIMEOUT, 3600);
    assert_eq!(riak.timeout(), 3600);
    assert_eq!(riak.connection().timeout(), 3600);
    assert_eq!(riak.connection().peer_addr(), "riak.example:8087");
    let riak = Client::new_with_timeout("riak.example:8087", 5, Ok(())).unwrap();
    assert_eq!(riak.timeout(), 5);
    assert_eq!(riak.connection().timeout(), 5);
}

#[test]
fn client_is_not_made_without_a_connection() {
    let error = Client::new("10.0.0.2:8087", Err(IoErrorKind::ConnectionRefused)).unwrap_err();
    assert_eq!(io_kind(&error), IoErrorKind::ConnectionRefused);
    let error =
        Client::new_with_timeout("nowhere:1", 1, Err(IoErrorKind::AddrNotAvailable)).unwrap_err();
    assert_eq!(io_kind(&error), IoErrorKind::AddrNotAvailable);
}

#[test]
fn set_timeout_is_for_requests_to_come() {
    let mut riak = client();
    riak.set_timeout(10);
    assert_eq!(riak.timeout(), 10);
    assert_eq!(riak.connection().timeout(), 3600);
}

#[test]
fn ping() {
    let mut riak = client();
    riak.feed(&frame(codes::PING_RESP, &[]));
    riak.ping().unwrap();
    assert_eq!(riak.take_outbound(), vec![0, 0, 0, 1, 1]);
}

#[test]
fn ping_waits_for_its_reply() {
    let mut riak = client();
    assert!(riak.ping().unwrap_err().is_would_block());
    assert_eq!(riak.take_outbound(), vec![0, 0, 0, 1, 1]);
    riak.feed(&[0, 0, 0]);
    assert!(riak.ping().unwrap_err().is_would_block());
    riak.feed(&[1, 2]);
    riak.ping().unwrap();
    assert!(riak.take_outbound().is_empty());
}

#[test]
fn error_reply_to_a_ping() {
    let mut riak = client();
    riak.feed(&frame(codes::ERROR_RESP, &error_payload(b"bad", 42)));
    match riak.ping().unwrap_err() {
        RiakErr::ServerError(error) => {
            assert_eq!(error.code(), 42);
            assert_eq!(error.data(), &b"bad".to_vec());
        },
        other => panic!("not a server error: {:?}", other),
    }
}

#[test]
fn ping_answered_with_another_code() {
    let mut riak = client();
    riak.feed(&frame(codes::GET_SERVER_INFO_RESP, &[]));
    assert_eq!(io_kind(&riak.ping().unwrap_err()), IoErrorKind::InvalidData);
}

#[test]
fn ping_on_a_closed_connection() {
    let mut riak = client();
    riak.close();
    assert_eq!(io_kind(&riak.ping().unwrap_err()), IoErrorKind::UnexpectedEof);
}

#[test]
fn failed_socket_is_not_retried() {
    let mut riak = client();
    assert!(riak.ping().unwrap_err().is_would_block());
    assert_eq!(riak.take_outbound(), vec![0, 0, 0, 1, 1]);
    assert_eq!(io_kind(&riak.fail(IoErrorKind::BrokenPipe)), IoErrorKind::BrokenPipe);
    assert!(riak.take_outbound().is_empty());
    riak.feed(&frame(codes::GET_SERVER_INFO_RESP, &[]));
    riak.server_info().unwrap();
    assert_eq!(riak.take_outbound(), vec![0, 0, 0, 1, 7]);
}

#[test]
fn client_reconnect_starts_over() {
    let mut riak = client();
    riak.close();
    assert!(riak.ping().is_err());
    riak.reconnect(Ok(())).unwrap();
    assert!(riak.take_outbound().is_empty());
    riak.feed(&frame(codes::PING_RESP, &[]));
    riak.ping().unwrap();
    let error = riak.reconnect(Err(IoErrorKind::ConnectionReset)).unwrap_err();
    assert_eq!(io_kind(&error), IoErrorKind::ConnectionReset);
}

#[test]
fn server_info() {
    let mut riak = client();
    let payload = [bytes_field(1, b"riak@10.0.0.2"), bytes_field(2, b"2.2.3")].concat();
    riak.feed(&frame(codes::GET_SERVER_INFO_RESP, &payload));
    let (node, version) = riak.server_info().unwrap();
    assert_eq!(node, "riak@10.0.0.2");
    assert_eq!(version, "2.2.3");
    assert_eq!(riak.take_outbound(), vec![0, 0, 0, 1, 7]);
}

#[test]
fn server_info_that_cannot_be_read() {
    let mut riak = client();
    riak.feed(&frame(codes::GET_SERVER_INFO_RESP, &[0x0a, 200]));
    assert_eq!(schema_kind(&riak.server_info().unwrap_err()), SchemaError::Malformed);
    riak.feed(&frame(codes::PING_RESP, &[]));
    riak.ping().unwrap();
}

#[test]
fn set_then_get_bucket_properties() {
    let mut riak = client();
    let mut bucket_props = BucketProps::new();
    bucket_props.set_backend(b"bitcask".to_vec());
    riak.feed(&frame(codes::SET_BUCKET_RESP, &[]));
    riak.set_bucket_properties(b"testbucket".to_vec(), &bucket_props).unwrap();
    let sent = riak.take_outbound();
    assert_eq!(sent[4], codes::SET_BUCKET_REQ);
    assert_eq!(&sent[5..], &bucket_props.write_to_bytes(b"testbucket".to_vec(), false).unwrap()[..]);
    let stored = &sent[5 + 12 + 2..];
    riak.feed(&frame(codes::GET_BUCKET_RESP, &bytes_field(1, stored)));
    let found = riak.get_bucket_properties(b"testbucket".to_vec()).unwrap();
    assert_eq!(found.get_backend().unwrap(), b"bitcask".to_vec());
    let mut request = vec![0, 0, 0, 13, codes::GET_BUCKET_REQ, 0x0a, 10];
    request.extend(b"testbucket");
    assert_eq!(riak.take_outbound(), request);
}

#[test]
fn bucket_type_properties_share_the_reply_codes() {
    let mut riak = client();
    let mut props = BucketProps::new();
    props.set_n_val(3);
    riak.feed(&frame(codes::SET_BUCKET_RESP, &[]));
    riak.set_bucket_type_properties(b"t".to_vec(), &props).unwrap();
    assert_eq!(
        riak.take_outbound(),
        vec![0, 0, 0, 8, codes::SET_BUCKET_TYPE_REQ, 0x0a, 1, b't', 0x12, 2, 0x08, 3]
    );
    riak.feed(&frame(codes::GET_BUCKET_RESP, &bytes_field(1, &[0x08, 3])));
    let found = riak.get_bucket_type_properties(b"t".to_vec()).unwrap();
    assert_eq!(found.get_n_val(), Some(3));
    assert_eq!(riak.take_outbound(), vec![0, 0, 0, 4, codes::GET_BUCKET_TYPE_REQ, 0x0a, 1, b't']);
}

#[test]
fn reset_bucket() {
    let mut riak = client();
    riak.feed(&frame(codes::RESET_BUCKET_RESP, &[]));
    riak.reset_bucket(b"ty".to_vec(), b"bu".to_vec()).unwrap();
    assert_eq!(
        riak.take_outbound(),
        vec![0, 0, 0, 9, codes::RESET_BUCKET_REQ, 0x0a, 2, b'b', b'u', 0x12, 2, b't', b'y']
    );
}

#[test]
fn store_then_fetch() {
    let mut riak = client();
    let mut req = StoreObjectReq::new(b"testbucket".to_vec(), ObjectContent::new(b"hello".to_vec()));
    req.set_key(b"k".to_vec());
    riak.feed(&frame(codes::PUT_RESP, &[]));
    riak.store_object(&req).unwrap();
    let sent = riak.take_outbound();
    assert_eq!(sent[4], codes::PUT_REQ);
    assert_eq!(&sent[5..], &req.write_to_bytes().unwrap()[..]);
    let stored = &sent[sent.len() - 7..];
    assert_eq!(stored, &[0x0a, 5, b'h', b'e', b'l', b'l', b'o']);
    riak.feed(&frame(codes::GET_RESP, &[bytes_field(1, stored), bytes_field(2, b"vc")].concat()));
    let resp = riak.fetch_object(&FetchObjectReq::new(b"testbucket".to_vec(), b"k".to_vec())).unwrap();
    assert_eq!(resp.get_content()[0].get_value(), b"hello".to_vec());
    assert_eq!(resp.get_vclock(), b"vc".to_vec());
    let mut request = vec![0, 0, 0, 16, codes::GET_REQ, 0x0a, 10];
    request.extend(b"testbucket");
    request.extend([0x12, 1, b'k']);
    assert_eq!(riak.take_outbound(), request);
}

#[test]
fn delete_then_fetch() {
    let mut riak = client();
    riak.feed(&frame(codes::DEL_RESP, &[]));
    riak.feed(&frame(codes::GET_RESP, &[]));
    riak.delete_object(&DeleteObjectReq::new(b"b".to_vec(), b"k".to_vec())).unwrap();
    assert_eq!(
        riak.take_outbound(),
        vec![0, 0, 0, 7, codes::DEL_REQ, 0x0a, 1, b'b', 0x12, 1, b'k']
    );
    let resp = riak.fetch_object(&FetchObjectReq::new(b"b".to_vec(), b"k".to_vec())).unwrap();
    assert_eq!(resp.get_content().len(), 0);
}

#[test]
fn fetch_preflist() {
    let item = |partition: u64, node: &[u8], primary: u64| {
        [varint_field(1, partition), bytes_field(2, node), varint_field(3, primary)].concat()
    };
    let payload = [
        bytes_field(1, &item(0, b"riak@10.0.0.2", 1)),
        bytes_field(1, &item(1 << 62, b"riak@10.0.0.3", 0)),
        bytes_field(1, &item(i64::MAX as u64, b"riak@10.0.0.4", 0)),
    ]
    .concat();
    let mut riak = client();
    riak.feed(&frame(codes::GET_BUCKET_KEY_PREFLIST_RESP, &payload));
    let preflist = riak.fetch_preflist(b"bucket".to_vec(), b"key".to_vec()).unwrap();
    assert_eq!(preflist.len(), 3);
    assert!(preflist.iter().any(|item| item.is_primary));
    assert!(preflist.iter().all(|item| !item.node.is_empty()));
    assert_eq!(preflist[1].partition, 1 << 62);
    assert_eq!(preflist[2].partition, i64::MAX);
    let mut request = vec![0, 0, 0, 14, codes::GET_BUCKET_KEY_PREFLIST_REQ, 0x0a, 6];
    request.extend(b"bucket");
    request.extend([0x12, 3]);
    request.extend(b"key");
    assert_eq!(riak.take_outbound(), request);
}

#[test]
fn schema_round_trip() {
    let xml_bytes = b"<?xml version=\"1.0\" encoding=\"UTF-8\" ?>\n<schema name=\"schedule\" version=\"1.5\"/>\n".to_vec();
    let mut riak = client();
    riak.feed(&frame(codes::PUT_RESP, &[]));
    riak.set_yokozuna_schema(b"schedule".to_vec(), xml_bytes.clone()).unwrap();
    let sent = riak.take_outbound();
    assert_eq!(sent[4], codes::YOKOZUNA_SCHEMA_PUT_REQ);
    riak.feed(&frame(codes::YOKOZUNA_SCHEMA_GET_RESP, &sent[5..]));
    assert_eq!(riak.get_yokozuna_schema(b"schedule".to_vec()).unwrap(), xml_bytes);
    let mut request = vec![0, 0, 0, 11, codes::YOKOZUNA_SCHEMA_GET_REQ, 0x0a, 8];
    request.extend(b"schedule");
    assert_eq!(riak.take_outbound(), request);
}

#[test]
fn search_indexes() {
    let mut riak = client();
    let mut index = YokozunaIndex::new(b"myindex".to_vec());
    index.set_schema(b"schedule".to_vec());
    index.set_n_val(3);
    let record = index.index_to_bytes().unwrap();
    riak.feed(&frame(codes::PUT_RESP, &[]));
    riak.set_yokozuna_index(index).unwrap();
    let sent = riak.take_outbound();
    assert_eq!(sent[4], codes::YOKOZUNA_INDEX_PUT_REQ);
    assert_eq!(&sent[5..], &bytes_field(1, &record)[..]);
    riak.feed(&frame(codes::YOKOZUNA_INDEX_GET_RESP, &bytes_field(1, &record)));
    let found = riak.get_yokozuna_index(b"myindex".to_vec()).unwrap();
    assert_eq!(found.len(), 1);
    assert_eq!(found[0].get_name(), b"myindex".to_vec());
    assert_eq!(found[0].get_schema(), Some(b"schedule".to_vec()));
    assert_eq!(found[0].get_n_val(), Some(3));
    assert_eq!(riak.take_outbound()[4], codes::YOKOZUNA_INDEX_GET_REQ);
    riak.feed(&frame(codes::DEL_RESP, &[]));
    riak.delete_yokozuna_index(b"myindex".to_vec()).unwrap();
    let mut request = vec![0, 0, 0, 10, codes::YOKOZUNA_INDEX_DELETE_REQ, 0x0a, 7];
    request.extend(b"myindex");
    assert_eq!(riak.take_outbound(), request);
}

#[test]
fn replies_that_reuse_a_code_are_held_to_it() {
    let mut riak = client();
    riak.feed(&frame(codes::DEL_RESP, &[]));
    let error = riak.set_yokozuna_schema(b"s".to_vec(), b"c".to_vec()).unwrap_err();
    assert_eq!(io_kind(&error), IoErrorKind::InvalidData);
    riak.feed(&frame(codes::PUT_RESP, &[]));
    let error = riak.delete_yokozuna_index(b"i".to_vec()).unwrap_err();
    assert_eq!(io_kind(&error), IoErrorKind::InvalidData);
    riak.feed(&frame(codes::PUT_RESP, &[]));
    let error = riak.set_bucket_type_properties(b"t".to_vec(), &BucketProps::new()).unwrap_err();
    assert_eq!(io_kind(&error), IoErrorKind::InvalidData);
    riak.feed(&frame(codes::SET_BUCKET_RESP, &[]));
    let error = riak.get_bucket_type_properties(b"t".to_vec()).unwrap_err();
    assert_eq!(io_kind(&error), IoErrorKind::InvalidData);
}

#[test]
fn error_reply_fails_every_operation() {
    let reply = frame(codes::ERROR_RESP, &error_payload(b"no", 1));
    let mut riak = client();
    for _ in 0..16 {
        riak.feed(&reply);
    }
    let is_server_error = |error: RiakErr| matches!(error, RiakErr::ServerError(_));
    assert!(is_server_error(riak.ping().unwrap_err()));
    assert!(is_server_error(riak.server_info().unwrap_err()));
    assert!(is_server_error(riak.set_bucket_properties(b"b".to_vec(), &BucketProps::new()).unwrap_err()));
    assert!(is_server_error(riak.get_bucket_properties(b"b".to_vec()).unwrap_err()));
    assert!(is_server_error(
        riak.set_bucket_type_properties(b"t".to_vec(), &BucketProps::new()).unwrap_err()
    ));
    assert!(is_server_error(riak.get_bucket_type_properties(b"t".to_vec()).unwrap_err()));
    assert!(is_server_error(riak.reset_bucket(b"t".to_vec(), b"b".to_vec()).unwrap_err()));
    let store = StoreObjectReq::new(b"b".to_vec(), ObjectContent::new(b"v".to_vec()));
    assert!(is_server_error(riak.store_object(&store).unwrap_err()));
    let fetch = FetchObjectReq::new(b"b".to_vec(), b"k".to_vec());
    assert!(is_server_error(riak.fetch_object(&fetch).unwrap_err()));
    let delete = DeleteObjectReq::new(b"b".to_vec(), b"k".to_vec());
    assert!(is_server_error(riak.delete_object(&delete).unwrap_err()));
    assert!(is_server_error(riak.fetch_preflist(b"b".to_vec(), b"k".to_vec()).unwrap_err()));
    assert!(is_server_error(riak.set_yokozuna_schema(b"s".to_vec(), b"c".to_vec()).unwrap_err()));
    assert!(is_server_error(riak.get_yokozuna_schema(b"s".to_vec()).unwrap_err()));
    assert!(is_server_error(
        riak.set_yokozuna_index(YokozunaIndex::new(b"i".to_vec())).unwrap_err()
    ));
    assert!(is_server_error(riak.get_yokozuna_index(b"i".to_vec()).unwrap_err()));
    assert!(is_server_error(riak.delete_yokozuna_index(b"i".to_vec()).unwrap_err()));
}

#[test]
fn test_basics() {
    let xml = b"<?xml version=\"1.0\" encoding=\"UTF-8\" ?>\n<schema name=\"schedule\" version=\"1.5\">\n</schema>\n".to_vec();
    let listing = |names: &[&[u8]], done: bool| {
        let mut payload: Vec<u8> = names.iter().flat_map(|name| bytes_field(1, name)).collect();
        payload.extend(varint_field(2, done as u64));
        payload
    };
    let item = |partition: u64, node: &[u8], primary: u64| {
        [varint_field(1, partition), bytes_field(2, node), varint_field(3, primary)].concat()
    };

    // connect and ping
    let mut riak = Client::new("10.0.0.2:8087", Ok(())).unwrap();
    riak.feed(&frame(codes::PING_RESP, &[]));
    riak.ping().unwrap();

    // get the server info
    riak.feed(&frame(
        codes::GET_SERVER_INFO_RESP,
        &[bytes_field(1, b"riak@10.0.0.2"), bytes_field(2, b"2.2.3")].concat(),
    ));
    let (node, version) = riak.server_info().unwrap();
    println!("connected to node {} running Riak version {}", node, version);

    // set bucket properties
    let mut bucket_props = BucketProps::new();
    bucket_props.set_backend(b"bitcask".to_vec());
    riak.feed(&frame(codes::SET_BUCKET_RESP, &[]));
    riak.set_bucket_properties(b"testbucket".to_vec(), &bucket_props).unwrap();

    // get the properties back from the server
    let stored_props = bucket_props.props_to_bytes().unwrap();
    riak.feed(&frame(codes::GET_BUCKET_RESP, &bytes_field(1, &stored_props)));
    let bucket_props = riak.get_bucket_properties(b"testbucket".to_vec()).unwrap();
    let found_backend = bucket_props.get_backend().unwrap();
    assert_eq!(found_backend, "bitcask".as_bytes());

    // store an object
    let contents = ObjectContent::new("I am the night, I am testkey!".as_bytes().to_vec());
    let mut req = StoreObjectReq::new(b"testbucket".to_vec(), contents);
    req.set_key(b"testkey".to_vec());
    riak.feed(&frame(codes::PUT_RESP, &[]));
    riak.store_object(&req).unwrap();

    // fetch an object
    let stored = bytes_field(1, b"I am the night, I am testkey!");
    riak.feed(&frame(codes::GET_RESP, &[bytes_field(1, &stored), bytes_field(2, b"vc")].concat()));
    let req = FetchObjectReq::new(b"testbucket".to_vec(), b"testkey".to_vec());
    let object = riak.fetch_object(&req).unwrap();
    let contents = object.get_content();
    let content = contents.first().unwrap();
    let string_content = String::from_utf8(content.get_value()).unwrap();
    assert_eq!(string_content, "I am the night, I am testkey!");

    // delete an object
    let req = DeleteObjectReq::new(b"testbucket".to_vec(), b"testkey".to_vec());
    riak.feed(&frame(codes::DEL_RESP, &[]));
    riak.delete_object(&req).unwrap();
    let req = FetchObjectReq::new(b"testbucket".to_vec(), b"testkey".to_vec());
    riak.feed(&frame(codes::GET_RESP, &[]));
    let object = riak.fetch_object(&req).unwrap();
    assert_eq!(object.get_content().len(), 0);

    // list the available buckets
    let mut bucket_stream = riak.stream_buckets(Ok(())).unwrap();
    bucket_stream.replies().feed(&frame(codes::LIST_BUCKETS_RESP, &listing(&[b"testbucket"], true)));
    let buckets = riak.list_buckets(&mut bucket_stream).unwrap();
    let mut bucket_exists = false;
    for bucket in buckets.iter() {
        if *bucket == "testbucket".as_bytes() {
            bucket_exists = true;
        }
    }
    assert!(bucket_exists);

    // list the available keys
    let mut key_stream = riak.stream_keys(b"testbucket".to_vec(), Ok(())).unwrap();
    key_stream.replies().feed(&frame(codes::LIST_KEYS_RESP, &listing(&[b"testkey"], true)));
    let keys = riak.list_keys(&mut key_stream).unwrap();
    let mut key_exists = false;
    for key in keys.iter() {
        if *key == "testkey".as_bytes() {
            key_exists = true;
        }
    }
    assert!(key_exists);

    // fetch the preflist for testbucket/testkey
    riak.feed(&frame(
        codes::GET_BUCKET_KEY_PREFLIST_RESP,
        &[
            bytes_field(1, &item(1, b"riak@10.0.0.2", 1)),
            bytes_field(1, &item(2, b"riak@10.0.0.3", 1)),
            bytes_field(1, &item(3, b"riak@10.0.0.4", 0)),
        ]
        .concat(),
    ));
    let preflist = riak.fetch_preflist(b"testbucket".to_vec(), b"testkey".to_vec()).unwrap();
    let mut lives_on_nodes: u8 = 0;
    let mut has_primary_node = false;
    for preflist_item in preflist.iter() {
        lives_on_nodes = lives_on_nodes + 1;
        if preflist_item.is_primary {
            has_primary_node = true;
        }
    }
    assert_eq!(lives_on_nodes, 3);
    assert!(has_primary_node);

    // set properties for a bucket type
    let mut bucket_props = BucketProps::new();
    bucket_props.set_backend(b"bitcask".to_vec());
    riak.feed(&frame(codes::SET_BUCKET_RESP, &[]));
    riak.set_bucket_type_properties(b"testbuckettype".to_vec(), &bucket_props).unwrap();

    // get the properties back for a bucket type and verify them
    riak.feed(&frame(codes::GET_BUCKET_RESP, &bytes_field(1, &stored_props)));
    let bucket_props = riak.get_bucket_type_properties(b"testbuckettype".to_vec()).unwrap();
    assert_eq!(bucket_props.get_backend().expect("could not get backend"), "bitcask".as_bytes());

    // set a search schema
    let schema_name = "schedule".to_string().into_bytes();
    riak.feed(&frame(codes::PUT_RESP, &[]));
    riak.set_yokozuna_schema(schema_name.clone(), xml.clone()).unwrap();

    // retrieve the search schema
    let record = [bytes_field(1, &schema_name), bytes_field(2, &xml)].concat();
    riak.feed(&frame(codes::YOKOZUNA_SCHEMA_GET_RESP, &bytes_field(1, &record)));
    let schema = riak.get_yokozuna_schema(schema_name.clone()).unwrap();
    assert_eq!(schema, xml);

    // set a search index
    let index_name = "myindex".to_string().into_bytes();
    let mut index = YokozunaIndex::new(index_name.clone());
    index.set_schema(schema_name);
    index.set_n_val(3);
    let record = index.index_to_bytes().unwrap();
    riak.feed(&frame(codes::PUT_RESP, &[]));
    riak.set_yokozuna_index(index).unwrap();

    // get the search index
    riak.feed(&frame(codes::YOKOZUNA_INDEX_GET_RESP, &bytes_field(1, &record)));
    let index = riak.get_yokozuna_index(index_name.clone()).unwrap();
    assert_eq!(index[0].get_name(), index_name);
}
