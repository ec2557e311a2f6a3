//! A sans-I/O client for Riak's Protocol Buffers API.
//!
//! The crate holds everything a Riak client decides or computes: how a
//! message is framed, which reply answers which request, how a stream of
//! replies ends, and how every typed request and response is laid out on the
//! wire. It never touches a socket. A connection is a pair of byte queues:
//! requests are queued in `outbound` for the caller to write to the peer, and
//! whatever the caller has read from the peer is put into `inbound` with
//! `feed`. An operation whose reply is not in `inbound` yet fails with
//! `IoErrorKind::WouldBlock` and may be repeated once more bytes have arrived:
//! the request is not queued a second time.
//!
//! ```
//! use riak::Client;
//!
//! let mut riak = Client::new("10.0.0.2:8087", Ok(())).unwrap();
//! assert!(riak.ping().unwrap_err().is_would_block());
//! assert_eq!(riak.take_outbound(), vec![0, 0, 0, 1, 1]);
//! riak.feed(&[0, 0, 0, 1, 2]);
//! riak.ping().unwrap();
//! ```

pub mod bucket;
pub mod connection;
pub mod errors;
pub mod object;
pub mod preflist;
pub mod rpb;
pub mod stream;
pub mod yokozuna;

use bucket::{lemma_set_then_get, props_bytes, set_props_payload, BucketProps, BucketPropsView};
use connection::{
    frame, lemma_head_of_frame, opened_view, payload_view, unit_view, ConnView, RiakConn,
    PAYLOAD_LEN_MAX,
};
use errors::{result_view, schema_failure, IoErrorKind, RiakErr, RiakErrView, SchemaError};
use object::{
    DeleteObjectReq, FetchObjectReq, FetchObjectReqView, FetchObjectResp, FetchObjectRespView,
    StoreObjectReq,
};
use preflist::{PreflistItem, PreflistItemView};
use rpb::codes;
use rpb::riak::{
    get_bucket_resp_of, named_req, pair_req, parse_get_bucket_resp, parse_server_info,
    server_info_of, write_named_req, write_pair_req,
};
use rpb::riak_kv::{
    del_req_payload, lemma_preflist_round_trip, parse_preflist, preflist_bytes, preflist_fits,
    preflist_item_read, preflist_of, PreflistEntry,
};
use rpb::riak_yokozuna::{
    index_get_resp_bytes, index_get_resp_of, indexes_fit, lemma_index_reply_round_trip,
    lemma_schema_round_trip, parse_index_get_resp, parse_schema_get_resp, schema_get_resp_of,
    schema_put_req, write_schema_put_req,
};
use rpb::utils::{
    fetch_object_resp_of, get_req_payload, get_resp_bytes, get_resp_fits,
    lemma_empty_reply_has_no_content, lemma_fetch_round_trip, lossy_string, put_req_payload,
    rpb_get_resp_to_fetch_object_resp, utf8_lossy, RpbGenerator,
};
use rpb::wire::bytes_field;
use stream::{names_view, BucketStream, KeyStream};
use vstd::prelude::*;
use yokozuna::{index_put_payload, YokozunaIndex, YokozunaIndexView};

verus! {

/// Seconds allowed for a read or a write where the caller names no other.
pub const DEFAULT_TIMEOUT: u32 = 3600;

/// A client as the contracts see it.
pub struct ClientView {
    /// The client's connection.
    pub conn: ConnView,
    /// Seconds allowed for requests to come.
    pub timeout: u32,
}

impl ClientView {
    /// What the reply to a request is: the failure to render the request,
    /// if it could not be rendered, else what the exchange returns.
    pub open spec fn asked(self, code: u8, expected: u8, request: Result<Seq<u8>, SchemaError>)
        -> Result<Seq<u8>, RiakErrView> {
        match request {
            Err(error) => Err(RiakErrView::ProtobufError(error)),
            Ok(payload) => self.conn.exchanged(code, expected, payload),
        }
    }

    /// The client after a request: untouched if the request could not be
    /// rendered, else as the exchange leaves its connection.
    pub open spec fn after_asking(self, code: u8, request: Result<Seq<u8>, SchemaError>)
        -> ClientView {
        match request {
            Err(error) => self,
            Ok(payload) => ClientView { conn: self.conn.after_exchange(code, payload), ..self },
        }
    }
}

/// A reply whose payload says nothing.
pub open spec fn discard(reply: Result<Seq<u8>, RiakErrView>) -> Result<(), RiakErrView> {
    match reply {
        Ok(payload) => Ok(()),
        Err(error) => Err(error),
    }
}

/// Whether a request goes through an exchange: it could be rendered, and
/// either fits in a frame or has been put on the wire before.
pub open spec fn goes_out(client: ClientView, request: Result<Seq<u8>, SchemaError>) -> bool {
    match request {
        Ok(payload) => client.conn.awaiting || payload.len() <= PAYLOAD_LEN_MAX,
        Err(error) => false,
    }
}

/// A request whose reply, under the expected code, is at the head of what
/// was received is answered with the payload of that reply.
pub proof fn lemma_reply_answers_the_request(
    client: ClientView,
    code: u8,
    expected: u8,
    request: Result<Seq<u8>, SchemaError>,
    reply: Seq<u8>,
    rest: Seq<u8>,
)
    requires
        expected != codes::ERROR_RESP,
        goes_out(client, request),
        reply.len() <= PAYLOAD_LEN_MAX,
        client.conn.inbound == frame(expected, reply) + rest,
    ensures
        client.asked(code, expected, request) == Ok::<Seq<u8>, RiakErrView>(reply),
{
    lemma_head_of_frame(expected, reply, rest);
}

/// An object fetched is the object the server holds: when the server
/// answers a fetch with what it holds under the key, the caller gets every
/// sibling with the value it was stored with, byte for byte.
pub proof fn lemma_fetch_returns_what_the_server_holds(
    client: ClientView,
    req: FetchObjectReqView,
    held: FetchObjectRespView,
    rest: Seq<u8>,
)
    requires
        goes_out(client, get_req_payload(req)),
        get_resp_fits(held),
        get_resp_bytes(held).len() <= PAYLOAD_LEN_MAX,
        client.conn.inbound == frame(codes::GET_RESP, get_resp_bytes(held)) + rest,
    ensures
        client.asked(codes::GET_REQ, codes::GET_RESP, get_req_payload(req)) == Ok::<
            Seq<u8>,
            RiakErrView,
        >(get_resp_bytes(held)),
        schema_failure(fetch_object_resp_of(get_resp_bytes(held))) == Ok::<
            FetchObjectRespView,
            RiakErrView,
        >(held),
{
    lemma_reply_answers_the_request(
        client,
        codes::GET_REQ,
        codes::GET_RESP,
        get_req_payload(req),
        get_resp_bytes(held),
        rest,
    );
    lemma_fetch_round_trip(held);
}

/// An object fetched after it was deleted is not there: when the server
/// answers a fetch with a reply that has no fields, as it does where the key
/// holds nothing, the caller gets a response without content.
pub proof fn lemma_fetch_of_nothing_has_no_content(
    client: ClientView,
    req: FetchObjectReqView,
    rest: Seq<u8>,
)
    requires
        goes_out(client, get_req_payload(req)),
        client.conn.inbound == frame(codes::GET_RESP, Seq::empty()) + rest,
    ensures
        client.asked(codes::GET_REQ, codes::GET_RESP, get_req_payload(req)) == Ok::<
            Seq<u8>,
            RiakErrView,
        >(Seq::empty()),
        fetch_object_resp_of(Seq::<u8>::empty()) matches Ok(resp) && resp.content.len() == 0,
{
    lemma_reply_answers_the_request(
        client,
        codes::GET_REQ,
        codes::GET_RESP,
        get_req_payload(req),
        Seq::empty(),
        rest,
    );
    lemma_empty_reply_has_no_content();
}

/// Properties got are the properties set: when the server answers with the
/// record of properties that a request to set them carried, the caller gets
/// every property that was set, as it was set, and no other.
pub proof fn lemma_get_returns_the_properties_set(
    client: ClientView,
    name: Seq<u8>,
    props: BucketPropsView,
    rest: Seq<u8>,
)
    requires
        goes_out(client, named_req(name)),
        set_props_payload(name, props) is Ok,
        bytes_field(1, props_bytes(props)).len() <= PAYLOAD_LEN_MAX,
        client.conn.inbound == frame(codes::GET_BUCKET_RESP, bytes_field(1, props_bytes(props)))
            + rest,
    ensures
        client.asked(codes::GET_BUCKET_REQ, codes::GET_BUCKET_RESP, named_req(name)) == Ok::<
            Seq<u8>,
            RiakErrView,
        >(bytes_field(1, props_bytes(props))),
        schema_failure(get_bucket_resp_of(bytes_field(1, props_bytes(props)))) == Ok::<
            BucketPropsView,
            RiakErrView,
        >(props),
{
    lemma_reply_answers_the_request(
        client,
        codes::GET_BUCKET_REQ,
        codes::GET_BUCKET_RESP,
        named_req(name),
        bytes_field(1, props_bytes(props)),
        rest,
    );
    lemma_set_then_get(name, props);
}

/// A schema got is the schema set: when the server answers with the record
/// that the request to store the schema carried, the caller gets the
/// content that was stored, byte for byte.
pub proof fn lemma_get_returns_the_schema_set(
    client: ClientView,
    name: Seq<u8>,
    content: Seq<u8>,
    rest: Seq<u8>,
)
    requires
        goes_out(client, named_req(name)),
        schema_put_req(name, content) matches Ok(stored) && stored.len() <= PAYLOAD_LEN_MAX
            && client.conn.inbound == frame(codes::YOKOZUNA_SCHEMA_GET_RESP, stored) + rest,
    ensures
        client.asked(
            codes::YOKOZUNA_SCHEMA_GET_REQ,
            codes::YOKOZUNA_SCHEMA_GET_RESP,
            named_req(name),
        ) == Ok::<Seq<u8>, RiakErrView>(schema_put_req(name, content)->Ok_0),
        schema_failure(schema_get_resp_of(schema_put_req(name, content)->Ok_0)) == Ok::<
            Seq<u8>,
            RiakErrView,
        >(content),
{
    lemma_reply_answers_the_request(
        client,
        codes::YOKOZUNA_SCHEMA_GET_REQ,
        codes::YOKOZUNA_SCHEMA_GET_RESP,
        named_req(name),
        schema_put_req(name, content)->Ok_0,
        rest,
    );
    lemma_schema_round_trip(name, content);
}

/// A preference list fetched is the one the server holds: when the server
/// answers with its entries, the caller gets them in the same order, each
/// with its partition, its node's name read as text, and the same word on
/// whether the node is a primary owner.
pub proof fn lemma_preflist_is_what_the_server_holds(
    client: ClientView,
    bucket: Seq<u8>,
    key: Seq<u8>,
    held: Seq<PreflistEntry>,
    rest: Seq<u8>,
)
    requires
        goes_out(client, pair_req(bucket, key)),
        preflist_fits(held),
        preflist_bytes(held).len() <= PAYLOAD_LEN_MAX,
        client.conn.inbound == frame(codes::GET_BUCKET_KEY_PREFLIST_RESP, preflist_bytes(held))
            + rest,
    ensures
        client.asked(
            codes::GET_BUCKET_KEY_PREFLIST_REQ,
            codes::GET_BUCKET_KEY_PREFLIST_RESP,
            pair_req(bucket, key),
        ) == Ok::<Seq<u8>, RiakErrView>(preflist_bytes(held)),
        schema_failure(preflist_of(preflist_bytes(held))) == Ok::<
            Seq<PreflistItemView>,
            RiakErrView,
        >(Seq::new(held.len(), |i: int| preflist_item_read(held[i]))),
{
    lemma_reply_answers_the_request(
        client,
        codes::GET_BUCKET_KEY_PREFLIST_REQ,
        codes::GET_BUCKET_KEY_PREFLIST_RESP,
        pair_req(bucket, key),
        preflist_bytes(held),
        rest,
    );
    lemma_preflist_round_trip(held);
}

/// The indexes got are the indexes the server has: when the server answers
/// with its indexes, the caller gets them as they are, in the same order.
pub proof fn lemma_indexes_are_what_the_server_has(
    client: ClientView,
    name: Seq<u8>,
    held: Seq<YokozunaIndexView>,
    rest: Seq<u8>,
)
    requires
        goes_out(client, named_req(name)),
        indexes_fit(held),
        index_get_resp_bytes(held).len() <= PAYLOAD_LEN_MAX,
        client.conn.inbound == frame(codes::YOKOZUNA_INDEX_GET_RESP, index_get_resp_bytes(held))
            + rest,
    ensures
        client.asked(
            codes::YOKOZUNA_INDEX_GET_REQ,
            codes::YOKOZUNA_INDEX_GET_RESP,
            named_req(name),
        ) == Ok::<Seq<u8>, RiakErrView>(index_get_resp_bytes(held)),
        schema_failure(index_get_resp_of(index_get_resp_bytes(held))) == Ok::<
            Seq<YokozunaIndexView>,
            RiakErrView,
        >(held),
{
    lemma_reply_answers_the_request(
        client,
        codes::YOKOZUNA_INDEX_GET_REQ,
        codes::YOKOZUNA_INDEX_GET_RESP,
        named_req(name),
        index_get_resp_bytes(held),
        rest,
    );
    lemma_index_reply_round_trip(held);
}

/// One connection to a Riak server, and the operations on it.
#[derive(Debug)]
pub struct Client {
    connection: RiakConn,
    timeout: u32,
}

impl View for Client {
    type V = ClientView;

    closed spec fn view(&self) -> ClientView {
        ClientView { conn: self.connection@, timeout: self.timeout }
    }
}

impl Client {
    /// A client on a connection that the caller has tried to open to
    /// `addr`, with the default timeout. `opened` is what became of the
    /// attempt; its failure is handed on.
    pub fn new(addr: &str, opened: Result<(), IoErrorKind>) -> (r: Result<Client, RiakErr>)
        ensures
            match r {
                Ok(client) => opened is Ok && client@ == (ClientView {
                    conn: ConnView {
                        peer: addr@,
                        timeout: DEFAULT_TIMEOUT,
                        outbound: Seq::empty(),
                        inbound: Seq::empty(),
                        closed: false,
                        awaiting: false,
                    },
                    timeout: DEFAULT_TIMEOUT,
                }),
                Err(error) => Err::<(), RiakErrView>(error@) == opened_view(opened),
            },
    {
        Client::new_with_timeout(addr, DEFAULT_TIMEOUT, opened)
    }

    /// A client on a connection that the caller has tried to open to
    /// `addr`, with `timeout` seconds for every read and write. `opened` is
    /// what became of the attempt; its failure is handed on.
    pub fn new_with_timeout(addr: &str, timeout: u32, opened: Result<(), IoErrorKind>) -> (r:
        Result<Client, RiakErr>)
        ensures
            match r {
                Ok(client) => opened is Ok && client@ == (ClientView {
                    conn: ConnView {
                        peer: addr@,
                        timeout,
                        outbound: Seq::empty(),
                        inbound: Seq::empty(),
                        closed: false,
                        awaiting: false,
                    },
                    timeout,
                }),
                Err(error) => Err::<(), RiakErrView>(error@) == opened_view(opened),
            },
    {
        let connection = RiakConn::new(addr, timeout, opened)?;
        Ok(Client { connection, timeout })
    }

    /// Sets the seconds allowed for requests to come.
    pub fn set_timeout(&mut self, timeout: u32)
        ensures
            final(self)@ == (ClientView { timeout, ..old(self)@ }),
    {
        self.timeout = timeout;
    }

    /// Seconds allowed for requests to come.
    pub fn timeout(&self) -> (r: u32)
        ensures
            r == self@.timeout,
    {
        self.timeout
    }

    /// The client's connection.
    pub fn connection(&self) -> (r: &RiakConn)
        ensures
            r@ == self@.conn,
    {
        &self.connection
    }

    /// Takes bytes that were read from the server.
    pub fn feed(&mut self, bytes: &[u8])
        ensures
            final(self)@ == (ClientView {
                conn: ConnView { inbound: old(self)@.conn.inbound + bytes@, ..old(self)@.conn },
                ..old(self)@
            }),
    {
        self.connection.feed(bytes);
    }

    /// Records that the server will send nothing more.
    pub fn close(&mut self)
        ensures
            final(self)@ == (ClientView {
                conn: ConnView { closed: true, ..old(self)@.conn },
                ..old(self)@
            }),
    {
        self.connection.close();
    }

    /// Hands out the bytes queued for the server and empties the queue.
    pub fn take_outbound(&mut self) -> (r: Vec<u8>)
        ensures
            r@ == old(self)@.conn.outbound,
            final(self)@ == (ClientView {
                conn: ConnView { outbound: Seq::empty(), ..old(self)@.conn },
                ..old(self)@
            }),
    {
        self.connection.take_outbound()
    }

    /// Gives up the reply that is outstanding, after a read or a write on
    /// the socket has failed with `kind`. The failure is handed back as the
    /// error to report. Nothing is retried: the next operation puts its
    /// request on the wire, and fares as the socket does.
    pub fn fail(&mut self, kind: IoErrorKind) -> (r: RiakErr)
        ensures
            final(self)@ == (ClientView {
                conn: ConnView { awaiting: false, ..old(self)@.conn },
                ..old(self)@
            }),
            r@ == RiakErrView::IoError(kind),
    {
        self.connection.fail(kind)
    }

    /// Starts over after the caller has closed the socket and tried to open
    /// it again at the address the client was made with. `opened` is what
    /// became of the attempt; its failure is handed on.
    pub fn reconnect(&mut self, opened: Result<(), IoErrorKind>) -> (r: Result<(), RiakErr>)
        ensures
            final(self)@ == (ClientView {
                conn: old(self)@.conn.after_reconnect(opened),
                ..old(self)@
            }),
            unit_view(r) == opened_view(opened),
    {
        self.connection.reconnect(opened)
    }

    /// Asks whether the server is there.
    pub fn ping(&mut self) -> (r: Result<(), RiakErr>)
        ensures
            final(self)@ == old(self)@.after_asking(codes::PING_REQ, Ok(Seq::empty())),
            unit_view(r) == discard(
                old(self)@.asked(codes::PING_REQ, codes::PING_RESP, Ok(Seq::empty())),
            ),
    {
        let request: Vec<u8> = Vec::new();
        self.ask(codes::PING_REQ, codes::PING_RESP, Ok(request))?;
        Ok(())
    }

    /// The name of the node that was reached and the version of the server,
    /// both read as text.
    pub fn server_info(&mut self) -> (r: Result<(String, String), RiakErr>)
        ensures
            final(self)@ == old(self)@.after_asking(
                codes::GET_SERVER_INFO_REQ,
                Ok(Seq::empty()),
            ),
            result_view(r) == match old(self)@.asked(
                codes::GET_SERVER_INFO_REQ,
                codes::GET_SERVER_INFO_RESP,
                Ok(Seq::empty()),
            ) {
                Err(error) => Err(error),
                Ok(reply) => match server_info_of(reply) {
                    Err(error) => Err(RiakErrView::ProtobufError(error)),
                    Ok((node, version)) => Ok((utf8_lossy(node), utf8_lossy(version))),
                },
            },
    {
        let request: Vec<u8> = Vec::new();
        let reply = self.ask(codes::GET_SERVER_INFO_REQ, codes::GET_SERVER_INFO_RESP, Ok(request))?;
        match parse_server_info(reply.as_slice()) {
            Ok((node, version)) => Ok(
                (lossy_string(node.as_slice()), lossy_string(version.as_slice())),
            ),
            Err(error) => Err(RiakErr::ProtobufError(error)),
        }
    }

    /// A stream of bucket names on a connection of its own, which the
    /// caller has tried to open to the client's address. `opened` is what
    /// became of the attempt; its failure is handed on.
    ///
    /// Listing buckets is expensive for the server.
    pub fn stream_buckets(&mut self, opened: Result<(), IoErrorKind>) -> (r: Result<
        BucketStream,
        RiakErr,
    >)
        ensures
            final(self)@ == old(self)@,
            match r {
                Ok(stream) => opened is Ok && stream@.lists_buckets() && stream@
                    == stream::fresh_stream(
                    old(self)@.conn,
                    codes::LIST_BUCKETS_REQ,
                    codes::LIST_BUCKETS_RESP,
                ),
                Err(error) => Err::<(), RiakErrView>(error@) == opened_view(opened),
            },
    {
        BucketStream::new(self, opened)
    }

    /// Every bucket name that `stream`, a stream of this client, still has
    /// to deliver, each as the server sent it, in the order sent.
    ///
    /// Listing buckets is expensive for the server.
    pub fn list_buckets(&mut self, stream: &mut BucketStream) -> (r: Result<
        Vec<Vec<u8>>,
        RiakErr,
    >)
        ensures
            final(self)@ == old(self)@,
            final(stream)@ == old(stream)@.after_all(old(stream)@.bucket_request()),
            names_view(r) == old(stream)@.collected(old(stream)@.bucket_request()),
            old(stream)@.lists_buckets() ==> final(stream)@.lists_buckets(),
    {
        stream.all()
    }

    /// Sets the properties of a bucket.
    pub fn set_bucket_properties(&mut self, bucket_name: Vec<u8>, bucket_props: &BucketProps) -> (r:
        Result<(), RiakErr>)
        ensures
            final(self)@ == old(self)@.after_asking(
                codes::SET_BUCKET_REQ,
                set_props_payload(bucket_name@, bucket_props@),
            ),
            unit_view(r) == discard(
                old(self)@.asked(
                    codes::SET_BUCKET_REQ,
                    codes::SET_BUCKET_RESP,
                    set_props_payload(bucket_name@, bucket_props@),
                ),
            ),
    {
        let bytes = bucket_props.write_to_bytes(bucket_name, false)?;
        self.ask(codes::SET_BUCKET_REQ, codes::SET_BUCKET_RESP, Ok(bytes))?;
        Ok(())
    }

    /// The properties of a bucket.
    pub fn get_bucket_properties(&mut self, bucket_name: Vec<u8>) -> (r: Result<
        BucketProps,
        RiakErr,
    >)
        ensures
            final(self)@ == old(self)@.after_asking(
                codes::GET_BUCKET_REQ,
                named_req(bucket_name@),
            ),
            result_view(r) == match old(self)@.asked(
                codes::GET_BUCKET_REQ,
                codes::GET_BUCKET_RESP,
                named_req(bucket_name@),
            ) {
                Err(error) => Err(error),
                Ok(reply) => schema_failure(get_bucket_resp_of(reply)),
            },
    {
        let request = write_named_req(bucket_name.as_slice());
        let reply = self.ask(codes::GET_BUCKET_REQ, codes::GET_BUCKET_RESP, request)?;
        match parse_get_bucket_resp(reply.as_slice()) {
            Ok(bucket_props) => Ok(bucket_props),
            Err(error) => Err(RiakErr::ProtobufError(error)),
        }
    }

    /// Sets the properties of a bucket type. The reply has the code of the
    /// reply to setting the properties of a bucket.
    pub fn set_bucket_type_properties(
        &mut self,
        bucket_type_name: Vec<u8>,
        bucket_type_props: &BucketProps,
    ) -> (r: Result<(), RiakErr>)
        ensures
            final(self)@ == old(self)@.after_asking(
                codes::SET_BUCKET_TYPE_REQ,
                set_props_payload(bucket_type_name@, bucket_type_props@),
            ),
            unit_view(r) == discard(
                old(self)@.asked(
                    codes::SET_BUCKET_TYPE_REQ,
                    codes::SET_BUCKET_RESP,
                    set_props_payload(bucket_type_name@, bucket_type_props@),
                ),
            ),
    {
        let bytes = bucket_type_props.write_to_bytes(bucket_type_name, true)?;
        self.ask(codes::SET_BUCKET_TYPE_REQ, codes::SET_BUCKET_RESP, Ok(bytes))?;
        Ok(())
    }

    /// The properties of a bucket type. The reply has the code of the reply
    /// to getting the properties of a bucket.
    pub fn get_bucket_type_properties(&mut self, bucket_type_name: Vec<u8>) -> (r: Result<
        BucketProps,
        RiakErr,
    >)
        ensures
            final(self)@ == old(self)@.after_asking(
                codes::GET_BUCKET_TYPE_REQ,
                named_req(bucket_type_name@),
            ),
            result_view(r) == match old(self)@.asked(
                codes::GET_BUCKET_TYPE_REQ,
                codes::GET_BUCKET_RESP,
                named_req(bucket_type_name@),
            ) {
                Err(error) => Err(error),
                Ok(reply) => schema_failure(get_bucket_resp_of(reply)),
            },
    {
        let request = write_named_req(bucket_type_name.as_slice());
        let reply = self.ask(codes::GET_BUCKET_TYPE_REQ, codes::GET_BUCKET_RESP, request)?;
        match parse_get_bucket_resp(reply.as_slice()) {
            Ok(bucket_props) => Ok(bucket_props),
            Err(error) => Err(RiakErr::ProtobufError(error)),
        }
    }

    /// Puts the properties of a bucket back to those of its type. In the
    /// request the bucket comes first and its type second.
    pub fn reset_bucket(&mut self, bucket_type_name: Vec<u8>, bucket_name: Vec<u8>) -> (r: Result<
        (),
        RiakErr,
    >)
        ensures
            final(self)@ == old(self)@.after_asking(
                codes::RESET_BUCKET_REQ,
                pair_req(bucket_name@, bucket_type_name@),
            ),
            unit_view(r) == discard(
                old(self)@.asked(
                    codes::RESET_BUCKET_REQ,
                    codes::RESET_BUCKET_RESP,
                    pair_req(bucket_name@, bucket_type_name@),
                ),
            ),
    {
        let request = write_pair_req(bucket_name.as_slice(), bucket_type_name.as_slice());
        self.ask(codes::RESET_BUCKET_REQ, codes::RESET_BUCKET_RESP, request)?;
        Ok(())
    }

    /// A stream of the keys of `bucket` on a connection of its own, which
    /// the caller has tried to open to the client's address. `opened` is
    /// what became of the attempt; its failure is handed on.
    ///
    /// Listing keys walks every key of the cluster: not for production.
    pub fn stream_keys(&mut self, bucket: Vec<u8>, opened: Result<(), IoErrorKind>) -> (r: Result<
        KeyStream,
        RiakErr,
    >)
        ensures
            final(self)@ == old(self)@,
            match r {
                Ok(keys) => opened is Ok && keys@.stream.lists_keys() && keys@
                    == (stream::KeyStreamView {
                    bucket: bucket@,
                    stream: stream::fresh_stream(
                        old(self)@.conn,
                        codes::LIST_KEYS_REQ,
                        codes::LIST_KEYS_RESP,
                    ),
                }),
                Err(error) => Err::<(), RiakErrView>(error@) == opened_view(opened),
            },
    {
        KeyStream::new(self, bucket, opened)
    }

    /// Every key that `stream`, a stream of this client, still has to
    /// deliver, in the order sent.
    ///
    /// Listing keys walks every key of the cluster: not for production.
    pub fn list_keys(&mut self, stream: &mut KeyStream) -> (r: Result<Vec<Vec<u8>>, RiakErr>)
        ensures
            final(self)@ == old(self)@,
            final(stream)@ == old(stream)@.after_all(),
            names_view(r) == old(stream)@.collected(),
            old(stream)@.stream.lists_keys() ==> final(stream)@.stream.lists_keys(),
    {
        stream.all()
    }

    /// Stores an object. The payload of the reply is passed over.
    pub fn store_object(&mut self, req: &StoreObjectReq) -> (r: Result<(), RiakErr>)
        ensures
            final(self)@ == old(self)@.after_asking(codes::PUT_REQ, put_req_payload(req@)),
            unit_view(r) == discard(
                old(self)@.asked(codes::PUT_REQ, codes::PUT_RESP, put_req_payload(req@)),
            ),
    {
        let bytes = req.write_to_bytes()?;
        self.ask(codes::PUT_REQ, codes::PUT_RESP, Ok(bytes))?;
        Ok(())
    }

    /// Fetches an object: every sibling the server holds under the key, or
    /// none where the key holds nothing.
    pub fn fetch_object(&mut self, req: &FetchObjectReq) -> (r: Result<FetchObjectResp, RiakErr>)
        ensures
            final(self)@ == old(self)@.after_asking(codes::GET_REQ, get_req_payload(req@)),
            result_view(r) == match old(self)@.asked(
                codes::GET_REQ,
                codes::GET_RESP,
                get_req_payload(req@),
            ) {
                Err(error) => Err(error),
                Ok(reply) => schema_failure(fetch_object_resp_of(reply)),
            },
    {
        let bytes = req.write_to_bytes()?;
        let reply = self.ask(codes::GET_REQ, codes::GET_RESP, Ok(bytes))?;
        match rpb_get_resp_to_fetch_object_resp(reply.as_slice()) {
            Ok(fetch_object_resp) => Ok(fetch_object_resp),
            Err(error) => Err(RiakErr::ProtobufError(error)),
        }
    }

    /// Deletes an object.
    pub fn delete_object(&mut self, request: &DeleteObjectReq) -> (r: Result<(), RiakErr>)
        ensures
            final(self)@ == old(self)@.after_asking(codes::DEL_REQ, del_req_payload(request@)),
            unit_view(r) == discard(
                old(self)@.asked(codes::DEL_REQ, codes::DEL_RESP, del_req_payload(request@)),
            ),
    {
        let bytes = request.write_to_bytes()?;
        self.ask(codes::DEL_REQ, codes::DEL_RESP, Ok(bytes))?;
        Ok(())
    }

    /// The partitions that hold a key, with their nodes, in the order sent.
    pub fn fetch_preflist(&mut self, bucket: Vec<u8>, key: Vec<u8>) -> (r: Result<
        Vec<PreflistItem>,
        RiakErr,
    >)
        ensures
            final(self)@ == old(self)@.after_asking(
                codes::GET_BUCKET_KEY_PREFLIST_REQ,
                pair_req(bucket@, key@),
            ),
            result_view(r) == match old(self)@.asked(
                codes::GET_BUCKET_KEY_PREFLIST_REQ,
                codes::GET_BUCKET_KEY_PREFLIST_RESP,
                pair_req(bucket@, key@),
            ) {
                Err(error) => Err(error),
                Ok(reply) => schema_failure(preflist_of(reply)),
            },
    {
        let request = write_pair_req(bucket.as_slice(), key.as_slice());
        let reply = self.ask(
            codes::GET_BUCKET_KEY_PREFLIST_REQ,
            codes::GET_BUCKET_KEY_PREFLIST_RESP,
            request,
        )?;
        match parse_preflist(reply.as_slice()) {
            Ok(preflist) => Ok(preflist),
            Err(error) => Err(RiakErr::ProtobufError(error)),
        }
    }

    /// Stores a search schema. The reply has the code of the reply to
    /// storing an object.
    pub fn set_yokozuna_schema(&mut self, name: Vec<u8>, content: Vec<u8>) -> (r: Result<
        (),
        RiakErr,
    >)
        ensures
            final(self)@ == old(self)@.after_asking(
                codes::YOKOZUNA_SCHEMA_PUT_REQ,
                schema_put_req(name@, content@),
            ),
            unit_view(r) == discard(
                old(self)@.asked(
                    codes::YOKOZUNA_SCHEMA_PUT_REQ,
                    codes::PUT_RESP,
                    schema_put_req(name@, content@),
                ),
            ),
    {
        let request = write_schema_put_req(name.as_slice(), content.as_slice());
        self.ask(codes::YOKOZUNA_SCHEMA_PUT_REQ, codes::PUT_RESP, request)?;
        Ok(())
    }

    /// The content of a search schema.
    pub fn get_yokozuna_schema(&mut self, name: Vec<u8>) -> (r: Result<Vec<u8>, RiakErr>)
        ensures
            final(self)@ == old(self)@.after_asking(
                codes::YOKOZUNA_SCHEMA_GET_REQ,
                named_req(name@),
            ),
            payload_view(r) == match old(self)@.asked(
                codes::YOKOZUNA_SCHEMA_GET_REQ,
                codes::YOKOZUNA_SCHEMA_GET_RESP,
                named_req(name@),
            ) {
                Err(error) => Err(error),
                Ok(reply) => schema_failure(schema_get_resp_of(reply)),
            },
    {
        let request = write_named_req(name.as_slice());
        let reply = self.ask(
            codes::YOKOZUNA_SCHEMA_GET_REQ,
            codes::YOKOZUNA_SCHEMA_GET_RESP,
            request,
        )?;
        match parse_schema_get_resp(reply.as_slice()) {
            Ok(content) => Ok(content),
            Err(error) => Err(RiakErr::ProtobufError(error)),
        }
    }

    /// Creates a search index. The reply has the code of the reply to
    /// storing an object.
    pub fn set_yokozuna_index(&mut self, index: YokozunaIndex) -> (r: Result<(), RiakErr>)
        ensures
            final(self)@ == old(self)@.after_asking(
                codes::YOKOZUNA_INDEX_PUT_REQ,
                index_put_payload(index@),
            ),
            unit_view(r) == discard(
                old(self)@.asked(
                    codes::YOKOZUNA_INDEX_PUT_REQ,
                    codes::PUT_RESP,
                    index_put_payload(index@),
                ),
            ),
    {
        let bytes = index.write_to_bytes()?;
        self.ask(codes::YOKOZUNA_INDEX_PUT_REQ, codes::PUT_RESP, Ok(bytes))?;
        Ok(())
    }

    /// The search indexes of the given name, in the order sent.
    pub fn get_yokozuna_index(&mut self, name: Vec<u8>) -> (r: Result<Vec<YokozunaIndex>, RiakErr>)
        ensures
            final(self)@ == old(self)@.after_asking(
                codes::YOKOZUNA_INDEX_GET_REQ,
                named_req(name@),
            ),
            result_view(r) == match old(self)@.asked(
                codes::YOKOZUNA_INDEX_GET_REQ,
                codes::YOKOZUNA_INDEX_GET_RESP,
                named_req(name@),
            ) {
                Err(error) => Err(error),
                Ok(reply) => schema_failure(index_get_resp_of(reply)),
            },
    {
        let request = write_named_req(name.as_slice());
        let reply = self.ask(
            codes::YOKOZUNA_INDEX_GET_REQ,
            codes::YOKOZUNA_INDEX_GET_RESP,
            request,
        )?;
        match parse_index_get_resp(reply.as_slice()) {
            Ok(indexes) => Ok(indexes),
            Err(error) => Err(RiakErr::ProtobufError(error)),
        }
    }

    /// Deletes a search index. The reply has the code of the reply to
    /// deleting an object.
    pub fn delete_yokozuna_index(&mut self, name: Vec<u8>) -> (r: Result<(), RiakErr>)
        ensures
            final(self)@ == old(self)@.after_asking(
                codes::YOKOZUNA_INDEX_DELETE_REQ,
                named_req(name@),
            ),
            unit_view(r) == discard(
                old(self)@.asked(
                    codes::YOKOZUNA_INDEX_DELETE_REQ,
                    codes::DEL_RESP,
                    named_req(name@),
                ),
            ),
    {
        let request = write_named_req(name.as_slice());
        self.ask(codes::YOKOZUNA_INDEX_DELETE_REQ, codes::DEL_RESP, request)?;
        Ok(())
    }

    /// One request and its reply: the request's payload, if it could be
    /// rendered, goes through one exchange.
    fn ask(&mut self, code: u8, expected: u8, request: Result<Vec<u8>, SchemaError>) -> (r: Result<
        Vec<u8>,
        RiakErr,
    >)
        ensures
            final(self)@ == old(self)@.after_asking(code, errors::bytes_view(request)),
            payload_view(r) == old(self)@.asked(code, expected, errors::bytes_view(request)),
    {
        match request {
            Ok(payload) => self.connection.exchange(code, expected, payload.as_slice()),
            Err(error) => Err(RiakErr::ProtobufError(error)),
        }
    }
}

} // verus!
