//! Requests that are answered by a run of replies.
//!
//! The server answers a listing request with any number of frames, all
//! under one code, each with some names, and says in each whether it is the
//! last. A stream has a connection of its own, because until the last frame
//! has come nothing else can be read from that connection.

use crate::Client;
use crate::connection::{
    frame, lemma_error_reply_is_server_error, lemma_head_of_frame, opened_view, ConnView, RiakConn,
    PAYLOAD_LEN_MAX,
};
use crate::errors::{IoErrorKind, RiakErr, RiakErrView, SchemaError, ServerErrorView};
use crate::rpb::codes::{
    ERROR_RESP, LIST_BUCKETS_REQ, LIST_BUCKETS_RESP, LIST_KEYS_REQ, LIST_KEYS_RESP,
};
use crate::rpb::riak::error_resp_bytes;
use crate::rpb::riak_kv::{
    lemma_listing_round_trip, list_buckets_req, list_keys_req, listing_bytes, listing_of,
    parse_listing, write_list_buckets_req, write_list_keys_req,
};
use crate::rpb::wire::{lemma_varint_len, VALUE_LEN_MAX};
use vstd::prelude::*;

verus! {

/// A stream as the contracts see it.
pub struct StreamView {
    /// The stream's own connection.
    pub conn: ConnView,
    /// The code of the one request.
    pub request_code: u8,
    /// The code of every reply.
    pub response_code: u8,
    /// The last reply has been consumed.
    pub done: bool,
    /// The first reply has been consumed.
    pub first_request_made: bool,
    /// A failure was reported, and the connection has not been opened anew
    /// since.
    pub wants_reconnect: bool,
    /// Names that `all` has taken off the connection and not yet returned.
    pub gathered: Seq<Seq<u8>>,
}

impl StreamView {
    /// The payload that the next step takes off the connection: the reply
    /// to the request if none has been consumed yet, the next frame
    /// otherwise.
    pub open spec fn fetched(self, request: Seq<u8>) -> Result<Seq<u8>, RiakErrView> {
        if self.first_request_made {
            self.conn.received(self.response_code)
        } else {
            self.conn.exchanged(self.request_code, self.response_code, request)
        }
    }

    /// The connection after that.
    pub open spec fn conn_after_fetch(self, request: Seq<u8>) -> ConnView {
        if self.first_request_made {
            self.conn.after_receive()
        } else {
            self.conn.after_exchange(self.request_code, request)
        }
    }

    /// What `next` yields: nothing once the last reply has been consumed,
    /// else the names of the next reply, or the error that came instead.
    pub open spec fn yielded(self, request: Seq<u8>) -> Option<Result<Seq<Seq<u8>>, RiakErrView>> {
        if self.done {
            None
        } else {
            match self.fetched(request) {
                Err(error) => Some(Err(error)),
                Ok(payload) => match listing_of(payload) {
                    Err(error) => Some(Err(RiakErrView::ProtobufError(error))),
                    Ok((names, done)) => Some(Ok(names)),
                },
            }
        }
    }

    /// The stream after `next`. Any failure but `WouldBlock` asks for a
    /// reconnect; a reply that was read sets `done` from its flag.
    pub open spec fn after_next(self, request: Seq<u8>) -> StreamView {
        if self.done {
            self
        } else {
            let conn = self.conn_after_fetch(request);
            match self.fetched(request) {
                Err(error) => StreamView {
                    conn,
                    wants_reconnect: self.wants_reconnect || error != RiakErrView::IoError(
                        IoErrorKind::WouldBlock,
                    ),
                    ..self
                },
                Ok(payload) => match listing_of(payload) {
                    Err(error) => StreamView { conn, wants_reconnect: true, ..self },
                    Ok((names, done)) => StreamView {
                        conn,
                        done,
                        first_request_made: true,
                        ..self
                    },
                },
            }
        }
    }

    /// The stream with `names` added to what `all` has gathered.
    pub open spec fn gather(self, names: Seq<Seq<u8>>) -> StreamView {
        StreamView { gathered: self.gathered + names, ..self }
    }

    /// What `all` returns: everything gathered so far and every batch that
    /// `next` yields from here on, in order, or the first error.
    pub open spec fn collected(self, request: Seq<u8>) -> Result<Seq<Seq<u8>>, RiakErrView>
        decreases self.conn.inbound.len(),
    {
        match self.yielded(request) {
            None => Ok(self.gathered),
            Some(Err(error)) => Err(error),
            Some(Ok(names)) => {
                let next = self.after_next(request).gather(names);
                if next.conn.inbound.len() < self.conn.inbound.len() {
                    next.collected(request)
                } else {
                    Ok(next.gathered)
                }
            },
        }
    }

    /// The stream after `all`: at the end of the stream nothing is left
    /// gathered; after an error what was gathered is kept, so that a caller
    /// who was told `WouldBlock` repeats the call and loses nothing.
    pub open spec fn after_all(self, request: Seq<u8>) -> StreamView
        decreases self.conn.inbound.len(),
    {
        match self.yielded(request) {
            None => StreamView { gathered: Seq::empty(), ..self },
            Some(Err(error)) => self.after_next(request),
            Some(Ok(names)) => {
                let next = self.after_next(request).gather(names);
                if next.conn.inbound.len() < self.conn.inbound.len() {
                    next.after_all(request)
                } else {
                    next
                }
            },
        }
    }

    /// Whether two states of a stream ask and expect under the same codes.
    /// No operation on a stream changes its codes.
    pub open spec fn same_codes(self, other: StreamView) -> bool {
        self.request_code == other.request_code && self.response_code == other.response_code
    }

    /// Whether the stream is one of bucket names: it asks for the buckets
    /// and expects every reply under the code of a listing of buckets. A
    /// stream of bucket names is made so and stays so.
    pub open spec fn lists_buckets(self) -> bool {
        self.request_code == LIST_BUCKETS_REQ && self.response_code == LIST_BUCKETS_RESP
    }

    /// Whether the stream is one of keys: it asks for the keys and expects
    /// every reply under the code of a listing of keys. A stream of keys is
    /// made so and stays so.
    pub open spec fn lists_keys(self) -> bool {
        self.request_code == LIST_KEYS_REQ && self.response_code == LIST_KEYS_RESP
    }

    /// Whether the next step can put its request on the wire, if it has to.
    pub open spec fn can_ask(self, request: Seq<u8>) -> bool {
        self.first_request_made || self.conn.awaiting || request.len() <= PAYLOAD_LEN_MAX
    }
}

/// The bytes of a run of frames, all under `code`.
pub open spec fn frames(code: u8, payloads: Seq<Seq<u8>>) -> Seq<u8>
    decreases payloads.len(),
{
    if payloads.len() == 0 {
        Seq::empty()
    } else {
        frame(code, payloads.first()) + frames(code, payloads.drop_first())
    }
}

/// The names that a run of payloads carries, batch after batch.
pub open spec fn names_of(payloads: Seq<Seq<u8>>) -> Seq<Seq<u8>>
    decreases payloads.len(),
{
    if payloads.len() == 0 {
        Seq::empty()
    } else {
        listing_of(payloads.first()).unwrap().0 + names_of(payloads.drop_first())
    }
}

/// A whole answer to a listing request: at least one payload, each one fit
/// for a frame and readable as a listing, and the last one, and no other,
/// flagged as the last.
pub open spec fn whole_answer(payloads: Seq<Seq<u8>>) -> bool {
    &&& payloads.len() > 0
    &&& forall|i: int|
        0 <= i < payloads.len() ==> {
            &&& (#[trigger] payloads[i]).len() <= PAYLOAD_LEN_MAX
            &&& listing_of(payloads[i]) is Ok
            &&& listing_of(payloads[i]).unwrap().1 == (i == payloads.len() - 1)
        }
}

/// A batch that `next` yields was taken off the connection.
pub proof fn lemma_batch_consumes(s: StreamView, request: Seq<u8>)
    requires
        s.yielded(request) matches Some(Ok(_)),
    ensures
        s.after_next(request).conn.inbound.len() < s.conn.inbound.len(),
{
}

/// With the frames of an answer at the head of what was received, `next`
/// yields the names of the first frame, whole and in order, consumes that
/// frame and no more, and is done exactly if that frame says so.
pub proof fn lemma_next_yields_first_batch(
    s: StreamView,
    request: Seq<u8>,
    payloads: Seq<Seq<u8>>,
    rest: Seq<u8>,
)
    requires
        !s.done,
        s.response_code != ERROR_RESP,
        s.can_ask(request),
        payloads.len() > 0,
        payloads.first().len() <= PAYLOAD_LEN_MAX,
        listing_of(payloads.first()) is Ok,
        s.conn.inbound == frames(s.response_code, payloads) + rest,
    ensures
        s.yielded(request) == Some(
            Ok::<Seq<Seq<u8>>, RiakErrView>(listing_of(payloads.first()).unwrap().0),
        ),
        s.after_next(request).conn.inbound == frames(s.response_code, payloads.drop_first()) + rest,
        s.after_next(request).done == listing_of(payloads.first()).unwrap().1,
        s.after_next(request).first_request_made,
        s.after_next(request).gathered == s.gathered,
        s.after_next(request).wants_reconnect == s.wants_reconnect,
        s.after_next(request).response_code == s.response_code,
{
    let code = s.response_code;
    let tail = frames(code, payloads.drop_first()) + rest;
    assert(s.conn.inbound =~= frame(code, payloads.first()) + tail);
    lemma_head_of_frame(code, payloads.first(), tail);
}

/// What the server sent is what the caller gets: with the frames of a whole
/// answer received, `all` returns the names of every frame, in the order
/// sent, up to and with those of the frame flagged as the last; it leaves
/// on the connection what followed that frame, and the stream done.
#[verifier::rlimit(40)]
pub proof fn lemma_all_returns_what_was_sent(
    s: StreamView,
    request: Seq<u8>,
    payloads: Seq<Seq<u8>>,
    rest: Seq<u8>,
)
    requires
        !s.done,
        s.response_code != ERROR_RESP,
        s.can_ask(request),
        whole_answer(payloads),
        s.conn.inbound == frames(s.response_code, payloads) + rest,
    ensures
        s.collected(request) == Ok::<Seq<Seq<u8>>, RiakErrView>(s.gathered + names_of(payloads)),
        s.after_all(request).done,
        s.after_all(request).conn.inbound == rest,
        s.after_all(request).gathered == Seq::<Seq<u8>>::empty(),
        s.after_all(request).wants_reconnect == s.wants_reconnect,
    decreases payloads.len(),
{
    assert(payloads[0] == payloads.first());
    lemma_next_yields_first_batch(s, request, payloads, rest);
    lemma_batch_consumes(s, request);
    let names = listing_of(payloads.first()).unwrap().0;
    let next = s.after_next(request).gather(names);
    let later = payloads.drop_first();
    if payloads.len() == 1 {
        assert(later.len() == 0);
        assert(frames(s.response_code, later) + rest =~= rest);
        assert(names_of(later) =~= Seq::<Seq<u8>>::empty());
        assert(s.gathered + names_of(payloads) =~= next.gathered);
        assert(next.done);
        assert(next.yielded(request) is None);
        assert(next.collected(request) == Ok::<Seq<Seq<u8>>, RiakErrView>(next.gathered));
        assert(next.after_all(request) == (StreamView { gathered: Seq::empty(), ..next }));
    } else {
        assert forall|i: int| 0 <= i < later.len() implies {
            &&& (#[trigger] later[i]).len() <= PAYLOAD_LEN_MAX
            &&& listing_of(later[i]) is Ok
            &&& listing_of(later[i]).unwrap().1 == (i == later.len() - 1)
        } by {
            assert(later[i] == payloads[i + 1]);
        }
        assert(!next.done);
        lemma_all_returns_what_was_sent(next, request, later, rest);
        assert(s.gathered + names_of(payloads) =~= next.gathered + names_of(later));
    }
    assert(s.collected(request) == next.collected(request));
    assert(s.after_all(request) == next.after_all(request));
}

/// The payloads of an answer as a server writes it: one listing for each
/// batch of names, the last of them, and no other, flagged as the last.
pub open spec fn answer(batches: Seq<Seq<Seq<u8>>>) -> Seq<Seq<u8>> {
    Seq::new(batches.len(), |i: int| listing_bytes(batches[i], i == batches.len() - 1))
}

/// The names of all batches, batch after batch.
pub open spec fn flat(batches: Seq<Seq<Seq<u8>>>) -> Seq<Seq<u8>>
    decreases batches.len(),
{
    if batches.len() == 0 {
        Seq::empty()
    } else {
        batches.first() + flat(batches.drop_first())
    }
}

/// Whether a server can send the batches: there is at least one, every
/// name is short enough for a field, and every listing is short enough for
/// a frame.
pub open spec fn sendable(batches: Seq<Seq<Seq<u8>>>) -> bool {
    &&& batches.len() > 0
    &&& forall|i: int, k: int|
        0 <= i < batches.len() && 0 <= k < batches[i].len() ==> (#[trigger] batches[i][k]).len()
            <= VALUE_LEN_MAX
    &&& forall|i: int|
        0 <= i < batches.len() ==> (#[trigger] answer(batches)[i]).len() <= PAYLOAD_LEN_MAX
}

/// What a server can send is a whole answer, and its names are the names of
/// the batches.
pub proof fn lemma_answer_is_whole(batches: Seq<Seq<Seq<u8>>>)
    requires
        sendable(batches),
    ensures
        whole_answer(answer(batches)),
        names_of(answer(batches)) == flat(batches),
    decreases batches.len(),
{
    let payloads = answer(batches);
    assert forall|i: int| 0 <= i < payloads.len() implies {
        &&& (#[trigger] payloads[i]).len() <= PAYLOAD_LEN_MAX
        &&& listing_of(payloads[i]) is Ok
        &&& listing_of(payloads[i]).unwrap().1 == (i == payloads.len() - 1)
    } by {
        assert forall|k: int| 0 <= k < batches[i].len() implies (#[trigger] batches[i][k]).len()
            <= VALUE_LEN_MAX by {}
        lemma_listing_round_trip(batches[i], i == batches.len() - 1);
    }
    assert forall|k: int| 0 <= k < batches[0].len() implies (#[trigger] batches[0][k]).len()
        <= VALUE_LEN_MAX by {}
    lemma_listing_round_trip(batches[0], 0 == batches.len() - 1);
    let later = batches.drop_first();
    assert(payloads.drop_first() =~= answer(later));
    if later.len() > 0 {
        assert forall|i: int, k: int| 0 <= i < later.len() && 0 <= k < later[i].len() implies (
        #[trigger] later[i][k]).len() <= VALUE_LEN_MAX by {
            assert(later[i] == batches[i + 1]);
            assert(batches[i + 1][k].len() <= VALUE_LEN_MAX);
        }
        assert forall|i: int| 0 <= i < later.len() implies (#[trigger] answer(later)[i]).len()
            <= PAYLOAD_LEN_MAX by {
            assert(answer(later)[i] == payloads[i + 1]);
        }
        lemma_answer_is_whole(later);
    } else {
        assert(names_of(answer(later)) =~= Seq::<Seq<u8>>::empty());
        assert(flat(later) =~= Seq::<Seq<u8>>::empty());
    }
}

/// The batches delivered are the batches sent: with the frames of an
/// answer received, as a server writes them, `all` returns the names of
/// every batch in the order sent, up to and with the batch flagged as the
/// last, and the first `next` yields the first batch.
pub proof fn lemma_stream_delivers_what_was_sent(
    s: StreamView,
    request: Seq<u8>,
    batches: Seq<Seq<Seq<u8>>>,
    rest: Seq<u8>,
)
    requires
        !s.done,
        s.response_code != ERROR_RESP,
        s.can_ask(request),
        sendable(batches),
        s.conn.inbound == frames(s.response_code, answer(batches)) + rest,
    ensures
        s.collected(request) == Ok::<Seq<Seq<u8>>, RiakErrView>(s.gathered + flat(batches)),
        s.after_all(request).done,
        s.after_all(request).conn.inbound == rest,
        s.yielded(request) == Some(Ok::<Seq<Seq<u8>>, RiakErrView>(batches.first())),
        s.after_next(request).done == (batches.len() == 1),
        s.after_next(request).conn.inbound == frames(
            s.response_code,
            answer(batches.drop_first()),
        ) + rest,
{
    lemma_answer_is_whole(batches);
    let payloads = answer(batches);
    assert(payloads[0] == payloads.first());
    assert forall|k: int| 0 <= k < batches[0].len() implies (#[trigger] batches[0][k]).len()
        <= VALUE_LEN_MAX by {}
    lemma_listing_round_trip(batches[0], 0 == batches.len() - 1);
    lemma_all_returns_what_was_sent(s, request, payloads, rest);
    lemma_next_yields_first_batch(s, request, payloads, rest);
    assert(payloads.drop_first() =~= answer(batches.drop_first()));
}

/// An error reply at any point of a stream fails the call with the
/// server's error, code and message as the server wrote them, and leaves
/// the stream asking for a reconnect.
pub proof fn lemma_error_reply_fails_the_stream(
    s: StreamView,
    request: Seq<u8>,
    error: ServerErrorView,
    rest: Seq<u8>,
)
    requires
        !s.done,
        s.can_ask(request),
        error.data.len() <= VALUE_LEN_MAX,
        error_resp_bytes(error).len() <= PAYLOAD_LEN_MAX,
        s.conn.inbound == frame(ERROR_RESP, error_resp_bytes(error)) + rest,
    ensures
        s.yielded(request) == Some(
            Err::<Seq<Seq<u8>>, RiakErrView>(RiakErrView::ServerError(error)),
        ),
        s.collected(request) == Err::<Seq<Seq<u8>>, RiakErrView>(RiakErrView::ServerError(error)),
        s.after_next(request).wants_reconnect,
{
    lemma_error_reply_is_server_error(
        s.conn,
        s.request_code,
        s.response_code,
        request,
        error,
        rest,
    );
    if !s.first_request_made {
        lemma_head_of_frame(ERROR_RESP, error_resp_bytes(error), rest);
        assert(s.conn.requested(s.request_code, request).inbound == s.conn.inbound);
    }
}

/// A reply that cannot be read as a listing fails the call with the
/// failure of the schema and leaves the stream asking for a reconnect.
pub proof fn lemma_parse_failure_asks_for_reconnect(s: StreamView, request: Seq<u8>)
    requires
        !s.done,
        s.fetched(request) is Ok,
        listing_of(s.fetched(request)->Ok_0) is Err,
    ensures
        s.yielded(request) == Some(
            Err::<Seq<Seq<u8>>, RiakErrView>(
                RiakErrView::ProtobufError(listing_of(s.fetched(request)->Ok_0)->Err_0),
            ),
        ),
        s.after_next(request).wants_reconnect,
{
}

/// After a failure and the reconnect it asked for, the caller is left with
/// the reconnect's failure if the reconnect failed, and with the first
/// failure otherwise.
pub proof fn lemma_reconnect_failure_supersedes(error: RiakErrView, kind: IoErrorKind)
    ensures
        settled(error, Err(kind)) == RiakErrView::IoError(kind),
        settled(error, Ok(())) == error,
{
}

/// A stream of bucket names delivers the names as the server sent them,
/// whatever bytes they are made of: with the frames of an answer received,
/// `next` yields the first batch, name for name and byte for byte, and
/// `all` returns every batch in the order sent, up to and with the batch
/// flagged as the last.
pub proof fn lemma_bucket_stream_delivers_what_was_sent(
    s: StreamView,
    batches: Seq<Seq<Seq<u8>>>,
    rest: Seq<u8>,
)
    requires
        s.lists_buckets(),
        !s.done,
        sendable(batches),
        s.conn.inbound == frames(LIST_BUCKETS_RESP, answer(batches)) + rest,
    ensures
        s.yielded(s.bucket_request()) == Some(Ok::<Seq<Seq<u8>>, RiakErrView>(batches.first())),
        s.after_next(s.bucket_request()).done == (batches.len() == 1),
        s.after_next(s.bucket_request()).conn.inbound == frames(
            LIST_BUCKETS_RESP,
            answer(batches.drop_first()),
        ) + rest,
        s.after_next(s.bucket_request()).lists_buckets(),
        s.collected(s.bucket_request()) == Ok::<Seq<Seq<u8>>, RiakErrView>(
            s.gathered + flat(batches),
        ),
        s.after_all(s.bucket_request()).done,
        s.after_all(s.bucket_request()).conn.inbound == rest,
{
    lemma_varint_len(s.conn.timeout as u64);
    lemma_varint_len(1);
    lemma_varint_len(8);
    lemma_varint_len(16);
    lemma_stream_delivers_what_was_sent(s, s.bucket_request(), batches, rest);
}

/// A stream of keys delivers the keys as the server sent them: with the
/// frames of an answer received, `next` yields the first batch, key for key
/// and byte for byte, and `all` returns every batch in the order sent, up
/// to and with the batch flagged as the last.
pub proof fn lemma_key_stream_delivers_what_was_sent(
    k: KeyStreamView,
    batches: Seq<Seq<Seq<u8>>>,
    rest: Seq<u8>,
)
    requires
        k.stream.lists_keys(),
        !k.stream.done,
        k.can_render(),
        k.stream.can_ask(k.request()),
        sendable(batches),
        k.stream.conn.inbound == frames(LIST_KEYS_RESP, answer(batches)) + rest,
    ensures
        k.yielded() == Some(Ok::<Seq<Seq<u8>>, RiakErrView>(batches.first())),
        k.after_next().stream.done == (batches.len() == 1),
        k.after_next().stream.conn.inbound == frames(
            LIST_KEYS_RESP,
            answer(batches.drop_first()),
        ) + rest,
        k.after_next().stream.lists_keys(),
        k.collected() == Ok::<Seq<Seq<u8>>, RiakErrView>(k.stream.gathered + flat(batches)),
        k.after_all().stream.done,
        k.after_all().stream.conn.inbound == rest,
{
    lemma_stream_delivers_what_was_sent(k.stream, k.request(), batches, rest);
}

/// The view of what `next` yields.
pub open spec fn batch_view(r: Option<Result<Vec<Vec<u8>>, RiakErr>>) -> Option<
    Result<Seq<Seq<u8>>, RiakErrView>,
> {
    match r {
        None => None,
        Some(Ok(names)) => Some(Ok(names.deep_view())),
        Some(Err(error)) => Some(Err(error@)),
    }
}

/// The view of what `all` returns.
pub open spec fn names_view(r: Result<Vec<Vec<u8>>, RiakErr>) -> Result<
    Seq<Seq<u8>>,
    RiakErrView,
> {
    match r {
        Ok(names) => Ok(names.deep_view()),
        Err(error) => Err(error@),
    }
}

/// The error a caller is left with after a failure and the reconnect that
/// followed it: the reconnect's own failure if it failed, the first error
/// otherwise.
pub open spec fn settled(error: RiakErrView, opened: Result<(), IoErrorKind>) -> RiakErrView {
    match opened {
        Ok(()) => error,
        Err(kind) => RiakErrView::IoError(kind),
    }
}

/// The one state machine behind both kinds of stream: one request, then
/// reply after reply until one is flagged as the last.
#[derive(Debug)]
pub struct ReplyStream {
    connection: RiakConn,
    request_code: u8,
    response_code: u8,
    done: bool,
    first_request_made: bool,
    wants_reconnect: bool,
    gathered: Vec<Vec<u8>>,
}

impl View for ReplyStream {
    type V = StreamView;

    closed spec fn view(&self) -> StreamView {
        StreamView {
            conn: self.connection@,
            request_code: self.request_code,
            response_code: self.response_code,
            done: self.done,
            first_request_made: self.first_request_made,
            wants_reconnect: self.wants_reconnect,
            gathered: self.gathered.deep_view(),
        }
    }
}

impl ReplyStream {
    /// A stream on a connection of its own, with nothing asked yet.
    pub fn new(connection: RiakConn, request_code: u8, response_code: u8) -> (r: ReplyStream)
        ensures
            r@ == (StreamView {
                conn: connection@,
                request_code,
                response_code,
                done: false,
                first_request_made: false,
                wants_reconnect: false,
                gathered: Seq::empty(),
            }),
    {
        let gathered: Vec<Vec<u8>> = Vec::new();
        assert(gathered.deep_view() =~= Seq::<Seq<u8>>::empty());
        ReplyStream {
            connection,
            request_code,
            response_code,
            done: false,
            first_request_made: false,
            wants_reconnect: false,
            gathered,
        }
    }

    /// Whether the last reply has been consumed.
    pub fn is_done(&self) -> (r: bool)
        ensures
            r == self@.done,
    {
        self.done
    }

    /// Whether a reply has been consumed.
    pub fn first_request_made(&self) -> (r: bool)
        ensures
            r == self@.first_request_made,
    {
        self.first_request_made
    }

    /// Whether a failure has been reported since the connection was last
    /// opened.
    pub fn wants_reconnect(&self) -> (r: bool)
        ensures
            r == self@.wants_reconnect,
    {
        self.wants_reconnect
    }

    /// Seconds allowed for a read or a write on the stream's connection.
    pub fn timeout(&self) -> (r: u32)
        ensures
            r == self@.conn.timeout,
    {
        self.connection.timeout()
    }

    /// The address of the stream's peer.
    pub fn peer_addr(&self) -> (r: &str)
        ensures
            r@ == self@.conn.peer,
    {
        self.connection.peer_addr()
    }

    /// Takes bytes that were read from the peer.
    pub fn feed(&mut self, bytes: &[u8])
        ensures
            final(self)@ == (StreamView {
                conn: ConnView { inbound: old(self)@.conn.inbound + bytes@, ..old(self)@.conn },
                ..old(self)@
            }),
    {
        self.connection.feed(bytes);
    }

    /// Records that the peer will send nothing more.
    pub fn close(&mut self)
        ensures
            final(self)@ == (StreamView {
                conn: ConnView { closed: true, ..old(self)@.conn },
                ..old(self)@
            }),
    {
        self.connection.close();
    }

    /// Hands out the bytes queued for the peer and empties the queue.
    pub fn take_outbound(&mut self) -> (r: Vec<u8>)
        ensures
            r@ == old(self)@.conn.outbound,
            final(self)@ == (StreamView {
                conn: ConnView { outbound: Seq::empty(), ..old(self)@.conn },
                ..old(self)@
            }),
    {
        self.connection.take_outbound()
    }

    /// The next batch of names; `None` once the last reply has been
    /// consumed. The first call puts `request` on the wire; every call
    /// consumes one reply. The names of the reply flagged as the last are
    /// yielded like any others. Any failure but `WouldBlock` leaves the
    /// stream asking for a reconnect.
    pub fn next(&mut self, request: &[u8]) -> (r: Option<Result<Vec<Vec<u8>>, RiakErr>>)
        ensures
            final(self)@ == old(self)@.after_next(request@),
            batch_view(r) == old(self)@.yielded(request@),
            final(self)@.same_codes(old(self)@),
    {
        if self.done {
            return None;
        }
        let fetched = if self.first_request_made {
            self.connection.receive(self.response_code)
        } else {
            self.connection.exchange(self.request_code, self.response_code, request)
        };
        let payload = match fetched {
            Ok(payload) => payload,
            Err(error) => {
                if !error.is_would_block() {
                    self.wants_reconnect = true;
                }
                return Some(Err(error));
            },
        };
        match parse_listing(payload.as_slice()) {
            Err(error) => {
                self.wants_reconnect = true;
                Some(Err(RiakErr::ProtobufError(error)))
            },
            Ok((names, done)) => {
                self.first_request_made = true;
                self.done = done;
                Some(Ok(names))
            },
        }
    }

    /// Every name from here to the end of the stream, in the order sent, or
    /// the first error. After `WouldBlock` the names read so far are kept
    /// and the call may be repeated.
    pub fn all(&mut self, request: &[u8]) -> (r: Result<Vec<Vec<u8>>, RiakErr>)
        ensures
            final(self)@ == old(self)@.after_all(request@),
            names_view(r) == old(self)@.collected(request@),
            final(self)@.same_codes(old(self)@),
    {
        loop
            invariant
                self@.collected(request@) == old(self)@.collected(request@),
                self@.after_all(request@) == old(self)@.after_all(request@),
                self@.same_codes(old(self)@),
            decreases self@.conn.inbound.len(),
        {
            let ghost before = self@;
            match self.next(request) {
                None => {
                    let mut names: Vec<Vec<u8>> = Vec::new();
                    names.append(&mut self.gathered);
                    assert(names.deep_view() =~= before.gathered);
                    assert(self.gathered.deep_view() =~= Seq::<Seq<u8>>::empty());
                    return Ok(names);
                },
                Some(Err(error)) => {
                    return Err(error);
                },
                Some(Ok(mut batch)) => {
                    let ghost names = batch.deep_view();
                    let ghost held = self.gathered.deep_view();
                    self.gathered.append(&mut batch);
                    proof {
                        lemma_batch_consumes(before, request@);
                        assert(self.gathered.deep_view() =~= held + names);
                        assert(self@ == before.after_next(request@).gather(names));
                    }
                },
            }
        }
    }

    /// Takes note that a read or a write on the stream's socket has failed
    /// with `kind`. The failure is handed back as the error to report, no
    /// reply is outstanding any more, and the stream asks for a reconnect.
    pub fn fail(&mut self, kind: IoErrorKind) -> (r: RiakErr)
        ensures
            r@ == RiakErrView::IoError(kind),
            final(self)@ == (StreamView {
                conn: ConnView { awaiting: false, ..old(self)@.conn },
                wants_reconnect: true,
                ..old(self)@
            }),
            final(self)@.same_codes(old(self)@),
    {
        self.wants_reconnect = true;
        self.connection.fail(kind)
    }

    /// Takes note that the caller, after a failure, has closed the socket
    /// and tried to open it again. Returns the error to report: the
    /// reconnect's own failure if it failed, else `error`, the failure that
    /// led to it.
    pub fn recover(&mut self, error: RiakErr, opened: Result<(), IoErrorKind>) -> (r: RiakErr)
        ensures
            r@ == settled(error@, opened),
            final(self)@ == (StreamView {
                conn: old(self)@.conn.after_reconnect(opened),
                wants_reconnect: false,
                ..old(self)@
            }),
            final(self)@.same_codes(old(self)@),
    {
        self.wants_reconnect = false;
        match self.connection.reconnect(opened) {
            Ok(()) => error,
            Err(failure) => failure,
        }
    }
}

/// A stream that has asked nothing yet, on a connection of its own to the
/// peer of `conn`, with the timeout of `conn`.
pub open spec fn fresh_stream(conn: ConnView, request_code: u8, response_code: u8) -> StreamView {
    StreamView {
        conn: ConnView {
            peer: conn.peer,
            timeout: conn.timeout,
            outbound: Seq::empty(),
            inbound: Seq::empty(),
            closed: false,
            awaiting: false,
        },
        request_code,
        response_code,
        done: false,
        first_request_made: false,
        wants_reconnect: false,
        gathered: Seq::empty(),
    }
}

impl StreamView {
    /// The request of a stream of bucket names: a streamed listing, with
    /// the timeout of the stream's connection.
    pub open spec fn bucket_request(self) -> Seq<u8> {
        list_buckets_req(self.conn.timeout)
    }
}

/// The names of all buckets, as the server streams them.
#[derive(Debug)]
pub struct BucketStream {
    stream: ReplyStream,
}

impl View for BucketStream {
    type V = StreamView;

    closed spec fn view(&self) -> StreamView {
        self.stream@
    }
}

impl BucketStream {
    /// A stream of bucket names on a connection of its own, which the
    /// caller has tried to open to the address of `client`. `opened` is what
    /// became of the attempt; its failure is handed on.
    pub fn new(client: &mut Client, opened: Result<(), IoErrorKind>) -> (r: Result<
        BucketStream,
        RiakErr,
    >)
        ensures
            final(client)@ == old(client)@,
            match r {
                Ok(stream) => opened is Ok && stream@.lists_buckets() && stream@ == fresh_stream(
                    old(client)@.conn,
                    LIST_BUCKETS_REQ,
                    LIST_BUCKETS_RESP,
                ),
                Err(error) => Err::<(), RiakErrView>(error@) == opened_view(opened),
            },
    {
        let connection = RiakConn::new(
            client.connection().peer_addr(),
            client.connection().timeout(),
            opened,
        )?;
        let stream = ReplyStream::new(connection, LIST_BUCKETS_REQ, LIST_BUCKETS_RESP);
        Ok(BucketStream { stream })
    }

    /// The state machine of the stream, for the caller to feed and drain.
    pub fn replies(&mut self) -> (r: &mut ReplyStream)
        ensures
            r@ == old(self)@,
            final(self)@ == final(r)@,
    {
        &mut self.stream
    }

    /// Every bucket name from here to the end of the stream, each as the
    /// server sent it, in the order sent, or the first error.
    pub fn all(&mut self) -> (r: Result<Vec<Vec<u8>>, RiakErr>)
        ensures
            final(self)@ == old(self)@.after_all(old(self)@.bucket_request()),
            names_view(r) == old(self)@.collected(old(self)@.bucket_request()),
            old(self)@.lists_buckets() ==> final(self)@.lists_buckets(),
    {
        let request = write_list_buckets_req(self.stream.timeout());
        self.stream.all(request.as_slice())
    }

    /// The next batch of bucket names, each as the server sent it; `None`
    /// once the last reply has been consumed.
    pub fn next(&mut self) -> (r: Option<Result<Vec<Vec<u8>>, RiakErr>>)
        ensures
            final(self)@ == old(self)@.after_next(old(self)@.bucket_request()),
            batch_view(r) == old(self)@.yielded(old(self)@.bucket_request()),
            old(self)@.lists_buckets() ==> final(self)@.lists_buckets(),
    {
        let request = write_list_buckets_req(self.stream.timeout());
        self.stream.next(request.as_slice())
    }

    /// Takes note that the caller, after a failure, has closed the socket
    /// and tried to open it again. Returns the error to report: the
    /// reconnect's own failure if it failed, else `error`.
    pub fn recover(&mut self, error: RiakErr, opened: Result<(), IoErrorKind>) -> (r: RiakErr)
        ensures
            r@ == settled(error@, opened),
            final(self)@ == (StreamView {
                conn: old(self)@.conn.after_reconnect(opened),
                wants_reconnect: false,
                ..old(self)@
            }),
            old(self)@.lists_buckets() ==> final(self)@.lists_buckets(),
    {
        self.stream.recover(error, opened)
    }
}

/// A stream of keys as the contracts see it.
pub struct KeyStreamView {
    /// The bucket whose keys are listed.
    pub bucket: Seq<u8>,
    /// The state of the stream.
    pub stream: StreamView,
}

impl KeyStreamView {
    /// The request of the stream: the bucket, with the timeout of the
    /// stream's connection.
    pub open spec fn request(self) -> Seq<u8> {
        list_keys_req(self.bucket, self.stream.conn.timeout)
    }

    /// Whether the request can be rendered.
    pub open spec fn can_render(self) -> bool {
        self.bucket.len() <= VALUE_LEN_MAX
    }

    /// What `next` yields: nothing once the stream is done; the failure to
    /// render the request where the bucket's name is too long; else what
    /// the stream yields.
    pub open spec fn yielded(self) -> Option<Result<Seq<Seq<u8>>, RiakErrView>> {
        if self.stream.done {
            None
        } else if !self.can_render() {
            Some(Err(RiakErrView::ProtobufError(SchemaError::TooLong)))
        } else {
            self.stream.yielded(self.request())
        }
    }

    /// The stream after `next`.
    pub open spec fn after_next(self) -> KeyStreamView {
        if self.stream.done || !self.can_render() {
            self
        } else {
            KeyStreamView { stream: self.stream.after_next(self.request()), ..self }
        }
    }

    /// What `all` returns.
    pub open spec fn collected(self) -> Result<Seq<Seq<u8>>, RiakErrView> {
        if !self.stream.done && !self.can_render() {
            Err(RiakErrView::ProtobufError(SchemaError::TooLong))
        } else {
            self.stream.collected(self.request())
        }
    }

    /// The stream after `all`.
    pub open spec fn after_all(self) -> KeyStreamView {
        if !self.stream.done && !self.can_render() {
            self
        } else {
            KeyStreamView { stream: self.stream.after_all(self.request()), ..self }
        }
    }
}

/// The keys of a bucket, as the server streams them.
#[derive(Debug)]
pub struct KeyStream {
    bucket: Vec<u8>,
    stream: ReplyStream,
}

impl View for KeyStream {
    type V = KeyStreamView;

    closed spec fn view(&self) -> KeyStreamView {
        KeyStreamView { bucket: self.bucket@, stream: self.stream@ }
    }
}

impl KeyStream {
    /// A stream of the keys of `bucket` on a connection of its own, which
    /// the caller has tried to open to the address of `client`. `opened` is
    /// what became of the attempt; its failure is handed on.
    pub fn new(client: &mut Client, bucket: Vec<u8>, opened: Result<(), IoErrorKind>) -> (r: Result<
        KeyStream,
        RiakErr,
    >)
        ensures
            final(client)@ == old(client)@,
            match r {
                Ok(keys) => opened is Ok && keys@.stream.lists_keys() && keys@ == (KeyStreamView {
                    bucket: bucket@,
                    stream: fresh_stream(old(client)@.conn, LIST_KEYS_REQ, LIST_KEYS_RESP),
                }),
                Err(error) => Err::<(), RiakErrView>(error@) == opened_view(opened),
            },
    {
        let connection = RiakConn::new(
            client.connection().peer_addr(),
            client.connection().timeout(),
            opened,
        )?;
        let stream = ReplyStream::new(connection, LIST_KEYS_REQ, LIST_KEYS_RESP);
        Ok(KeyStream { bucket, stream })
    }

    /// The state machine of the stream, for the caller to feed and drain.
    pub fn replies(&mut self) -> (r: &mut ReplyStream)
        ensures
            r@ == old(self)@.stream,
            final(self)@ == (KeyStreamView { stream: final(r)@, ..old(self)@ }),
    {
        &mut self.stream
    }

    /// Every key from here to the end of the stream, in the order sent, or
    /// the first error.
    pub fn all(&mut self) -> (r: Result<Vec<Vec<u8>>, RiakErr>)
        ensures
            final(self)@ == old(self)@.after_all(),
            names_view(r) == old(self)@.collected(),
            old(self)@.stream.lists_keys() ==> final(self)@.stream.lists_keys(),
    {
        let request = match write_list_keys_req(self.bucket.as_slice(), self.stream.timeout()) {
            Ok(request) => request,
            Err(error) => {
                if self.stream.is_done() {
                    Vec::new()
                } else {
                    return Err(RiakErr::ProtobufError(error));
                }
            },
        };
        proof {
            lemma_done_asks_nothing(self.stream@, request@, self@.request());
        }
        self.stream.all(request.as_slice())
    }

    /// The next batch of keys; `None` once the last reply has been
    /// consumed.
    pub fn next(&mut self) -> (r: Option<Result<Vec<Vec<u8>>, RiakErr>>)
        ensures
            final(self)@ == old(self)@.after_next(),
            batch_view(r) == old(self)@.yielded(),
            old(self)@.stream.lists_keys() ==> final(self)@.stream.lists_keys(),
    {
        if self.stream.is_done() {
            return None;
        }
        let request = match write_list_keys_req(self.bucket.as_slice(), self.stream.timeout()) {
            Ok(request) => request,
            Err(error) => {
                return Some(Err(RiakErr::ProtobufError(error)));
            },
        };
        self.stream.next(request.as_slice())
    }

    /// Takes note that the caller, after a failure, has closed the socket
    /// and tried to open it again. Returns the error to report: the
    /// reconnect's own failure if it failed, else `error`.
    pub fn recover(&mut self, error: RiakErr, opened: Result<(), IoErrorKind>) -> (r: RiakErr)
        ensures
            r@ == settled(error@, opened),
            final(self)@ == (KeyStreamView {
                stream: StreamView {
                    conn: old(self)@.stream.conn.after_reconnect(opened),
                    wants_reconnect: false,
                    ..old(self)@.stream
                },
                ..old(self)@
            }),
            old(self)@.stream.lists_keys() ==> final(self)@.stream.lists_keys(),
    {
        self.stream.recover(error, opened)
    }
}

/// A stream that is done does not look at its request.
pub proof fn lemma_done_asks_nothing(s: StreamView, one: Seq<u8>, other: Seq<u8>)
    requires
        s.done || one == other,
    ensures
        s.collected(one) == s.collected(other),
        s.after_all(one) == s.after_all(other),
{
}

} // verus!
