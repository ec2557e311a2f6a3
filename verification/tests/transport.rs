use riak::connection::{classify_reply, encode_frame, frame_len, RiakConn, PAYLOAD_LEN_MAX};
use riak::errors::{IoErrorKind, RiakErr, SchemaError, ServerError};

fn conn() -> RiakConn {
    RiakConn::new("10.0.0.2:8087", 3600, Ok(())).unwrap()
}

fn bytes_field(number: u32, data: &[u8]) -> Vec<u8> {
    let mut out = Vec::new();
    {
        let mut stream = protobuf::CodedOutputStream::vec(&mut out);
        stream.write_bytes(number, data).unwrap();
        stream.flush().unwrap();
    }
    out
}

fn uint32_field(number: u32, value: u32) -> Vec<u8> {
    let mut out = Vec::new();
    {
        let mut stream = protobuf::CodedOutputStream::vec(&mut out);
        stream.write_uint32(number, value).unwrap();
        stream.flush().unwrap();
    }
    out
}

fn error_payload(message: &[u8], code: u32) -> Vec<u8> {
    let mut payload = bytes_field(1, message);
    payload.extend(uint32_field(2, code));
    payload
}

fn io_kind(error: &RiakErr) -> IoErrorKind {
    match error {
        RiakErr::IoError(kind) => *kind,
        other => panic!("not an I/O error: {:?}", other),
    }
}

fn schema_kind(error: &RiakErr) -> SchemaError {
    match error {
        RiakErr::ProtobufError(kind) => *kind,
        other => panic!("not a schema error: {:?}", other),
    }
}

fn server_error(error: RiakErr) -> ServerError {
    match error {
        RiakErr::ServerError(error) => error,
        other => panic!("not a server error: {:?}", other),
    }
}

#[test]
fn frame_is_length_code_payload() {
    let bytes = encode_frame(9, &[1, 2, 3]).unwrap();
    assert_eq!(bytes, vec![0, 0, 0, 4, 9, 1, 2, 3]);
}

#[test]
fn frame_of_empty_payload_is_five_bytes() {
    let bytes = encode_frame(1, &[]).unwrap();
    assert_eq!(bytes, vec![0, 0, 0, 1, 1]);
}

#[test]
fn frame_is_five_bytes_longer_than_payload() {
    for len in [0usize, 1, 127, 128, 255, 256, 65_535, 65_536, 70_000] {
        let payload = vec![0xabu8; len];
        let bytes = encode_frame(7, &payload).unwrap();
        assert_eq!(bytes.len(), len + 5);
        assert_eq!(&bytes[..4], &((len + 1) as u32).to_be_bytes());
        assert_eq!(bytes[4], 7);
        assert_eq!(&bytes[5..], &payload[..]);
    }
}

#[test]
fn frame_length_is_big_endian() {
    let payload = vec![0u8; 300];
    let bytes = encode_frame(11, &payload).unwrap();
    assert_eq!(&bytes[..5], &[0, 0, 1, 45, 11]);
    let wide = vec![0u8; 0x0102_0303];
    let bytes = encode_frame(11, &wide).unwrap();
    assert_eq!(&bytes[..5], &[1, 2, 3, 4, 11]);
}

#[test]
fn frame_len_reads_big_endian() {
    assert_eq!(frame_len(0, 0, 0, 1), 1);
    assert_eq!(frame_len(0, 0, 1, 45), 301);
    assert_eq!(frame_len(1, 2, 3, 4), 0x0102_0304);
    assert_eq!(frame_len(255, 255, 255, 255), u32::MAX);
}

#[test]
fn longest_payload_is_one_short_of_the_length_field() {
    assert_eq!(PAYLOAD_LEN_MAX as u64, (1u64 << 32) - 2);
}

#[test]
fn new_connection_is_idle() {
    let mut conn = RiakConn::new("riak.example:8087", 30, Ok(())).unwrap();
    assert_eq!(conn.peer_addr(), "riak.example:8087");
    assert_eq!(conn.timeout(), 30);
    assert!(!conn.is_awaiting());
    assert!(!conn.is_closed());
    assert!(conn.take_outbound().is_empty());
}

#[test]
fn failure_to_open_is_handed_on() {
    let error = RiakConn::new("10.0.0.2:8087", 30, Err(IoErrorKind::ConnectionRefused)).unwrap_err();
    assert_eq!(io_kind(&error), IoErrorKind::ConnectionRefused);
}

#[test]
fn send_queues_frames_in_order() {
    let mut conn = conn();
    conn.send(1, &[]).unwrap();
    conn.send(9, b"ab").unwrap();
    assert_eq!(conn.take_outbound(), vec![0, 0, 0, 1, 1, 0, 0, 0, 3, 9, b'a', b'b']);
    assert!(conn.take_outbound().is_empty());
    conn.send(2, &[]).unwrap();
    assert_eq!(conn.take_outbound(), vec![0, 0, 0, 1, 2]);
}

#[test]
fn receive_returns_payload_byte_for_byte() {
    let payload: Vec<u8> = (0..=255u8).collect();
    let mut conn = conn();
    conn.feed(&encode_frame(10, &payload).unwrap());
    assert_eq!(conn.receive(10).unwrap(), payload);
}

#[test]
fn receive_leaves_what_follows_the_frame() {
    let mut conn = conn();
    conn.feed(&[0, 0, 0, 2, 10, 7, 0, 0, 0, 3, 10, 8, 9, 0, 0]);
    assert_eq!(conn.receive(10).unwrap(), vec![7]);
    assert_eq!(conn.receive(10).unwrap(), vec![8, 9]);
    assert_eq!(io_kind(&conn.receive(10).unwrap_err()), IoErrorKind::WouldBlock);
}

#[test]
fn code_alone_is_a_whole_frame() {
    for code in [2u8, 22, 14] {
        let mut conn = conn();
        conn.feed(&[0, 0, 0, 1, code]);
        assert_eq!(conn.receive(code).unwrap(), Vec::<u8>::new());
    }
}

#[test]
fn receive_waits_for_the_whole_frame() {
    let mut conn = conn();
    assert_eq!(io_kind(&conn.receive(10).unwrap_err()), IoErrorKind::WouldBlock);
    conn.feed(&[0, 0]);
    assert_eq!(io_kind(&conn.receive(10).unwrap_err()), IoErrorKind::WouldBlock);
    conn.feed(&[0, 3, 10]);
    assert_eq!(io_kind(&conn.receive(10).unwrap_err()), IoErrorKind::WouldBlock);
    conn.feed(&[1]);
    assert_eq!(io_kind(&conn.receive(10).unwrap_err()), IoErrorKind::WouldBlock);
    conn.feed(&[2]);
    assert_eq!(conn.receive(10).unwrap(), vec![1, 2]);
}

#[test]
fn short_read_after_close_is_unexpected_eof() {
    let mut conn = conn();
    conn.feed(&[0, 0, 0, 3, 10, 1]);
    conn.close();
    assert!(conn.is_closed());
    assert_eq!(io_kind(&conn.receive(10).unwrap_err()), IoErrorKind::UnexpectedEof);
    let mut empty = RiakConn::new("10.0.0.2:8087", 3600, Ok(())).unwrap();
    empty.close();
    assert_eq!(io_kind(&empty.receive(10).unwrap_err()), IoErrorKind::UnexpectedEof);
}

#[test]
fn whole_frame_is_delivered_after_close() {
    let mut conn = conn();
    conn.feed(&[0, 0, 0, 2, 10, 5]);
    conn.close();
    assert_eq!(conn.receive(10).unwrap(), vec![5]);
}

#[test]
fn length_of_zero_is_invalid_data() {
    let mut conn = conn();
    conn.feed(&[0, 0, 0, 0, 0, 0, 0, 1, 10]);
    assert_eq!(io_kind(&conn.receive(10).unwrap_err()), IoErrorKind::InvalidData);
    assert_eq!(conn.receive(10).unwrap(), Vec::<u8>::new());
}

#[test]
fn unexpected_code_is_invalid_data() {
    let mut conn = conn();
    conn.feed(&[0, 0, 0, 2, 12, 1, 0, 0, 0, 1, 10]);
    assert_eq!(io_kind(&conn.receive(10).unwrap_err()), IoErrorKind::InvalidData);
    assert_eq!(conn.receive(10).unwrap(), Vec::<u8>::new());
}

#[test]
fn error_reply_becomes_server_error() {
    let mut conn = conn();
    conn.feed(&encode_frame(0, &error_payload(b"bad", 42)).unwrap());
    let error = server_error(conn.receive(2).unwrap_err());
    assert_eq!(error.code(), 42);
    assert_eq!(error.data(), &b"bad".to_vec());
}

#[test]
fn error_reply_answers_any_request() {
    for expected in 0..=255u8 {
        let reply = classify_reply(expected, 0, error_payload(b"not found", 7));
        let error = server_error(reply.unwrap_err());
        assert_eq!(error.code(), 7);
        assert_eq!(error.data(), &b"not found".to_vec());
    }
}

#[test]
fn error_code_and_message_are_kept_verbatim() {
    let message = vec![0xff, 0x00, 0xfe, b'x'];
    let reply = classify_reply(10, 0, error_payload(&message, u32::MAX));
    let error = server_error(reply.unwrap_err());
    assert_eq!(error.code(), u32::MAX);
    assert_eq!(error.data(), &message);
}

#[test]
fn last_field_of_a_number_counts_in_error_reply() {
    let mut payload = error_payload(b"first", 1);
    payload.extend(error_payload(b"second", 2));
    let error = server_error(classify_reply(10, 0, payload).unwrap_err());
    assert_eq!(error.code(), 2);
    assert_eq!(error.data(), &b"second".to_vec());
}

#[test]
fn error_reply_without_code_is_missing_field() {
    let reply = classify_reply(2, 0, bytes_field(1, b"bad"));
    assert_eq!(schema_kind(&reply.unwrap_err()), SchemaError::MissingField);
    let reply = classify_reply(2, 0, uint32_field(2, 42));
    assert_eq!(schema_kind(&reply.unwrap_err()), SchemaError::MissingField);
    let reply = classify_reply(2, 0, Vec::new());
    assert_eq!(schema_kind(&reply.unwrap_err()), SchemaError::MissingField);
}

#[test]
fn error_reply_with_wrong_wire_type_is_rejected() {
    let mut payload = uint32_field(1, 5);
    payload.extend(uint32_field(2, 42));
    let reply = classify_reply(2, 0, payload);
    assert_eq!(schema_kind(&reply.unwrap_err()), SchemaError::UnexpectedWireType);
}

#[test]
fn error_reply_that_is_no_record_is_malformed() {
    let reply = classify_reply(2, 0, vec![0x0a, 0x05, b'b']);
    assert_eq!(schema_kind(&reply.unwrap_err()), SchemaError::Malformed);
    let reply = classify_reply(2, 0, vec![0xff]);
    assert_eq!(schema_kind(&reply.unwrap_err()), SchemaError::Malformed);
}

#[test]
fn expected_code_returns_payload() {
    assert_eq!(classify_reply(10, 10, vec![1, 2, 3]).unwrap(), vec![1, 2, 3]);
    assert_eq!(io_kind(&classify_reply(10, 11, vec![1, 2, 3]).unwrap_err()), IoErrorKind::InvalidData);
}

#[test]
fn exchange_sends_then_receives() {
    let mut conn = conn();
    conn.feed(&[0, 0, 0, 3, 8, 1, 2]);
    assert_eq!(conn.exchange(7, 8, &[]).unwrap(), vec![1, 2]);
    assert_eq!(conn.take_outbound(), vec![0, 0, 0, 1, 7]);
    assert!(!conn.is_awaiting());
}

#[test]
fn exchange_sends_once_across_would_block() {
    let mut conn = conn();
    assert_eq!(io_kind(&conn.exchange(9, 10, b"k").unwrap_err()), IoErrorKind::WouldBlock);
    assert!(conn.is_awaiting());
    assert_eq!(conn.take_outbound(), vec![0, 0, 0, 2, 9, b'k']);
    assert_eq!(io_kind(&conn.exchange(9, 10, b"k").unwrap_err()), IoErrorKind::WouldBlock);
    assert!(conn.take_outbound().is_empty());
    conn.feed(&[0, 0, 0, 2, 10, 5]);
    assert_eq!(conn.exchange(9, 10, b"k").unwrap(), vec![5]);
    assert!(conn.take_outbound().is_empty());
    assert!(!conn.is_awaiting());
    conn.feed(&[0, 0, 0, 2, 10, 6]);
    assert_eq!(conn.exchange(9, 10, b"k").unwrap(), vec![6]);
    assert_eq!(conn.take_outbound(), vec![0, 0, 0, 2, 9, b'k']);
}

#[test]
fn failed_exchange_leaves_the_connection_usable() {
    let mut conn = conn();
    conn.feed(&encode_frame(0, &error_payload(b"bad", 42)).unwrap());
    conn.feed(&[0, 0, 0, 1, 2]);
    assert!(conn.exchange(1, 2, &[]).is_err());
    conn.exchange(1, 2, &[]).unwrap();
    assert_eq!(conn.take_outbound(), vec![0, 0, 0, 1, 1, 0, 0, 0, 1, 1]);
}

#[test]
fn failed_socket_gives_up_the_outstanding_reply() {
    let mut conn = conn();
    assert_eq!(io_kind(&conn.exchange(1, 2, &[]).unwrap_err()), IoErrorKind::WouldBlock);
    assert!(conn.is_awaiting());
    assert_eq!(conn.take_outbound(), vec![0, 0, 0, 1, 1]);
    assert_eq!(io_kind(&conn.fail(IoErrorKind::TimedOut)), IoErrorKind::TimedOut);
    assert!(!conn.is_awaiting());
    assert!(!conn.is_closed());
    conn.feed(&[0, 0, 0, 1, 8]);
    assert_eq!(conn.exchange(7, 8, &[]).unwrap(), Vec::<u8>::new());
    assert_eq!(conn.take_outbound(), vec![0, 0, 0, 1, 7]);
}

#[test]
fn reconnect_starts_over() {
    let mut conn = conn();
    assert!(conn.exchange(1, 2, &[]).is_err());
    conn.feed(&[0, 0, 0]);
    conn.close();
    conn.reconnect(Ok(())).unwrap();
    assert!(!conn.is_closed());
    assert!(!conn.is_awaiting());
    assert!(conn.take_outbound().is_empty());
    assert_eq!(conn.peer_addr(), "10.0.0.2:8087");
    assert_eq!(conn.timeout(), 3600);
    conn.feed(&[0, 0, 0, 1, 2]);
    conn.exchange(1, 2, &[]).unwrap();
}

#[test]
fn failed_reconnect_is_handed_on() {
    let mut conn = conn();
    let error = conn.reconnect(Err(IoErrorKind::TimedOut)).unwrap_err();
    assert_eq!(io_kind(&error), IoErrorKind::TimedOut);
    assert!(conn.is_closed());
    assert_eq!(io_kind(&conn.receive(2).unwrap_err()), IoErrorKind::UnexpectedEof);
}

#[test]
fn would_block_is_told_apart() {
    assert!(RiakErr::IoError(IoErrorKind::WouldBlock).is_would_block());
    assert!(!RiakErr::IoError(IoErrorKind::UnexpectedEof).is_would_block());
    assert!(!RiakErr::ProtobufError(SchemaError::Malformed).is_would_block());
    assert!(!RiakErr::ServerError(ServerError::new(1, Vec::new())).is_would_block());
}
