//! One connection to one server, without the socket.
//!
//! On the wire a message is a frame: four bytes that hold, big end first,
//! the number of bytes that follow; one byte of message code; the payload.
//! A `RiakConn` queues the frames to be written in `outbound` and takes
//! what was read from the peer into `inbound`. The socket itself belongs
//! to the caller, who writes what `take_outbound` hands out, passes what
//! arrives to `feed`, and reports the end of the peer's stream with `close`.

use crate::errors::{IoErrorKind, RiakErr, RiakErrView, ServerErrorView};
use crate::rpb::codes::ERROR_RESP;
use crate::rpb::riak::{
    error_resp_bytes, error_resp_of, lemma_error_resp_round_trip, parse_error_resp,
};
use crate::rpb::wire::VALUE_LEN_MAX;
use vstd::prelude::*;

verus! {

/// The longest payload a frame can carry: the length field counts the code
/// byte too.
pub const PAYLOAD_LEN_MAX: usize = 0xffff_fffe;

/// The bytes of `n`, most significant first.
pub open spec fn be32(n: u32) -> Seq<u8> {
    seq![
        (n / 0x100_0000) as u8,
        (n / 0x1_0000 % 0x100) as u8,
        (n / 0x100 % 0x100) as u8,
        (n % 0x100) as u8,
    ]
}

/// The number that four bytes spell, most significant first.
pub open spec fn be32_value(b0: u8, b1: u8, b2: u8, b3: u8) -> u32 {
    (b0 * 0x100_0000 + b1 * 0x1_0000 + b2 * 0x100 + b3) as u32
}

/// The frame that carries `payload` under `code`.
pub open spec fn frame(code: u8, payload: Seq<u8>) -> Seq<u8>
    recommends
        payload.len() <= PAYLOAD_LEN_MAX,
{
    be32((payload.len() + 1) as u32) + seq![code] + payload
}

/// What stands at the head of the bytes received so far.
pub enum Head {
    /// Less than one whole frame.
    Incomplete,
    /// A length of zero: a frame with no room for its code.
    Headless,
    /// A whole frame, and what follows it.
    Whole { code: u8, payload: Seq<u8>, rest: Seq<u8> },
}

/// Splits the first frame off the bytes received so far.
pub open spec fn head(inbound: Seq<u8>) -> Head {
    if inbound.len() < 4 {
        Head::Incomplete
    } else {
        let total = be32_value(inbound[0], inbound[1], inbound[2], inbound[3]);
        if total == 0 {
            Head::Headless
        } else if inbound.len() - 4 < total {
            Head::Incomplete
        } else {
            Head::Whole {
                code: inbound[4],
                payload: inbound.subrange(5, 4 + total),
                rest: inbound.subrange(4 + total, inbound.len() as int),
            }
        }
    }
}

/// What a reply with `code` and `payload` means to a caller who expects
/// `expected`. The error code is looked for first: it is an answer to any
/// request.
pub open spec fn reply(expected: u8, code: u8, payload: Seq<u8>) -> Result<Seq<u8>, RiakErrView> {
    if code == ERROR_RESP {
        match error_resp_of(payload) {
            Ok(error) => Err(RiakErrView::ServerError(error)),
            Err(error) => Err(RiakErrView::ProtobufError(error)),
        }
    } else if code == expected {
        Ok(payload)
    } else {
        Err(RiakErrView::IoError(IoErrorKind::InvalidData))
    }
}

/// The view of a payload or the error that came in its place.
pub open spec fn payload_view(r: Result<Vec<u8>, RiakErr>) -> Result<Seq<u8>, RiakErrView> {
    match r {
        Ok(payload) => Ok(payload@),
        Err(error) => Err(error@),
    }
}

/// The view of a call that returns nothing on success.
pub open spec fn unit_view(r: Result<(), RiakErr>) -> Result<(), RiakErrView> {
    match r {
        Ok(()) => Ok(()),
        Err(error) => Err(error@),
    }
}

/// A frame laid out byte by byte: five bytes more than the payload, the
/// length of code and payload first, then the code, then the payload.
pub proof fn lemma_frame_layout(code: u8, payload: Seq<u8>)
    requires
        payload.len() <= PAYLOAD_LEN_MAX,
    ensures
        frame(code, payload).len() == payload.len() + 5,
        be32_value(
            frame(code, payload)[0],
            frame(code, payload)[1],
            frame(code, payload)[2],
            frame(code, payload)[3],
        ) == payload.len() + 1,
        frame(code, payload).subrange(0, 4) == be32((payload.len() + 1) as u32),
        frame(code, payload)[4] == code,
        frame(code, payload).subrange(5, 5 + payload.len() as int) == payload,
{
    let n = (payload.len() + 1) as u32;
    let f = frame(code, payload);
    assert(f.subrange(0, 4) =~= be32(n));
    assert(f.subrange(5, 5 + payload.len() as int) =~= payload);
    assert(be32_value(f[0], f[1], f[2], f[3]) == n);
}

/// A frame is read back as it was written: whatever follows it, the head
/// of the received bytes is that frame's code and payload, byte for byte.
pub proof fn lemma_head_of_frame(code: u8, payload: Seq<u8>, rest: Seq<u8>)
    requires
        payload.len() <= PAYLOAD_LEN_MAX,
    ensures
        head(frame(code, payload) + rest) == (Head::Whole { code, payload, rest }),
{
    lemma_frame_layout(code, payload);
    let f = frame(code, payload);
    let inbound = f + rest;
    let total = be32_value(inbound[0], inbound[1], inbound[2], inbound[3]);
    assert(inbound[0] == f[0] && inbound[1] == f[1] && inbound[2] == f[2] && inbound[3] == f[3]);
    assert(total == payload.len() + 1);
    assert(inbound[4] == f[4]);
    assert(inbound.subrange(5, 4 + total) =~= payload);
    assert(inbound.subrange(4 + total, inbound.len() as int) =~= rest);
}

/// A frame of length one, the code alone, is a whole frame with an empty
/// payload.
pub proof fn lemma_head_of_bare_code(code: u8, rest: Seq<u8>)
    ensures
        head(seq![0u8, 0u8, 0u8, 1u8, code] + rest) == (Head::Whole {
            code,
            payload: Seq::<u8>::empty(),
            rest,
        }),
        frame(code, Seq::<u8>::empty()) == seq![0u8, 0u8, 0u8, 1u8, code],
{
    assert(frame(code, Seq::<u8>::empty()) =~= seq![0u8, 0u8, 0u8, 1u8, code]);
    lemma_head_of_frame(code, Seq::<u8>::empty(), rest);
}

/// Lays a payload out as a frame. Fails with `InvalidInput` exactly when the
/// payload is too long for the length field.
pub fn encode_frame(code: u8, payload: &[u8]) -> (r: Result<Vec<u8>, RiakErr>)
    ensures
        match r {
            Ok(bytes) => payload.len() <= PAYLOAD_LEN_MAX && bytes@ == frame(code, payload@),
            Err(error) => payload.len() > PAYLOAD_LEN_MAX && error@ == RiakErrView::IoError(
                IoErrorKind::InvalidInput,
            ),
        },
{
    if payload.len() > PAYLOAD_LEN_MAX {
        return Err(RiakErr::IoError(IoErrorKind::InvalidInput));
    }
    let total: u32 = (payload.len() + 1) as u32;
    let mut bytes: Vec<u8> = Vec::new();
    bytes.push((total / 0x100_0000) as u8);
    bytes.push((total / 0x1_0000 % 0x100) as u8);
    bytes.push((total / 0x100 % 0x100) as u8);
    bytes.push((total % 0x100) as u8);
    bytes.push(code);
    bytes.extend_from_slice(payload);
    assert(bytes@ =~= frame(code, payload@));
    Ok(bytes)
}

/// The number of bytes that follow a frame's four length bytes.
pub fn frame_len(b0: u8, b1: u8, b2: u8, b3: u8) -> (r: u32)
    ensures
        r == be32_value(b0, b1, b2, b3),
{
    (b0 as u32) * 0x100_0000 + (b1 as u32) * 0x1_0000 + (b2 as u32) * 0x100 + (b3 as u32)
}

/// Tells a caller who expects `expected` what a reply means: the server's
/// error if the code is the error code, the payload if the code is the
/// expected one, and a breach of protocol otherwise.
pub fn classify_reply(expected: u8, code: u8, payload: Vec<u8>) -> (r: Result<Vec<u8>, RiakErr>)
    ensures
        payload_view(r) == reply(expected, code, payload@),
{
    if code == ERROR_RESP {
        match parse_error_resp(payload.as_slice()) {
            Ok(error) => Err(RiakErr::ServerError(error)),
            Err(error) => Err(RiakErr::ProtobufError(error)),
        }
    } else if code == expected {
        Ok(payload)
    } else {
        Err(RiakErr::IoError(IoErrorKind::InvalidData))
    }
}

/// A connection as the contracts see it.
pub struct ConnView {
    /// The address of the peer, as it was given.
    pub peer: Seq<char>,
    /// Seconds allowed for a read or a write.
    pub timeout: u32,
    /// Bytes queued for the peer and not yet handed out.
    pub outbound: Seq<u8>,
    /// Bytes received from the peer and not yet consumed.
    pub inbound: Seq<u8>,
    /// The peer will send nothing more.
    pub closed: bool,
    /// A request was queued whose reply has not been consumed.
    pub awaiting: bool,
}

impl ConnView {
    /// The connection once the frame of `code` and `payload` is queued; a
    /// payload too long for a frame leaves it as it was.
    pub open spec fn after_send(self, code: u8, payload: Seq<u8>) -> ConnView {
        if payload.len() <= PAYLOAD_LEN_MAX {
            ConnView { outbound: self.outbound + frame(code, payload), ..self }
        } else {
            self
        }
    }

    /// The error of a caller who needs bytes that are not there.
    pub open spec fn starved(self) -> RiakErrView {
        if self.closed {
            RiakErrView::IoError(IoErrorKind::UnexpectedEof)
        } else {
            RiakErrView::IoError(IoErrorKind::WouldBlock)
        }
    }

    /// What a caller who expects `expected` receives.
    pub open spec fn received(self, expected: u8) -> Result<Seq<u8>, RiakErrView> {
        match head(self.inbound) {
            Head::Incomplete => Err(self.starved()),
            Head::Headless => Err(RiakErrView::IoError(IoErrorKind::InvalidData)),
            Head::Whole { code, payload, rest } => reply(expected, code, payload),
        }
    }

    /// The connection after a caller has tried to receive: a whole frame is
    /// consumed, a length of zero is consumed, less than a frame stays.
    pub open spec fn after_receive(self) -> ConnView {
        match head(self.inbound) {
            Head::Incomplete => self,
            Head::Headless => ConnView {
                inbound: self.inbound.subrange(4, self.inbound.len() as int),
                awaiting: false,
                ..self
            },
            Head::Whole { code, payload, rest } => ConnView {
                inbound: rest,
                awaiting: false,
                ..self
            },
        }
    }

    /// Whether an exchange would queue its request: not while a reply is
    /// outstanding, and not if the payload cannot be framed.
    pub open spec fn sends(self, payload: Seq<u8>) -> bool {
        !self.awaiting && payload.len() <= PAYLOAD_LEN_MAX
    }

    /// The connection as an exchange finds it once its request is out.
    pub open spec fn requested(self, code: u8, payload: Seq<u8>) -> ConnView {
        if self.awaiting {
            self
        } else {
            ConnView { awaiting: true, ..self.after_send(code, payload) }
        }
    }

    /// What an exchange returns.
    pub open spec fn exchanged(self, code: u8, expected: u8, payload: Seq<u8>) -> Result<
        Seq<u8>,
        RiakErrView,
    > {
        if !self.awaiting && payload.len() > PAYLOAD_LEN_MAX {
            Err(RiakErrView::IoError(IoErrorKind::InvalidInput))
        } else {
            self.requested(code, payload).received(expected)
        }
    }

    /// The connection after an exchange.
    pub open spec fn after_exchange(self, code: u8, payload: Seq<u8>) -> ConnView {
        if !self.awaiting && payload.len() > PAYLOAD_LEN_MAX {
            self
        } else {
            self.requested(code, payload).after_receive()
        }
    }

    /// The connection after the socket was opened anew, or could not be.
    pub open spec fn after_reconnect(self, opened: Result<(), IoErrorKind>) -> ConnView {
        ConnView {
            outbound: Seq::empty(),
            inbound: Seq::empty(),
            closed: opened is Err,
            awaiting: false,
            ..self
        }
    }
}

/// One send writes one frame: the queue grows by five bytes more than the
/// payload, which are the length of code and payload, most significant
/// byte first, the code, and the payload.
pub proof fn lemma_send_writes_one_frame(conn: ConnView, code: u8, payload: Seq<u8>)
    requires
        payload.len() <= PAYLOAD_LEN_MAX,
    ensures
        conn.after_send(code, payload).outbound == conn.outbound + frame(code, payload),
        conn.after_send(code, payload).outbound.len() == conn.outbound.len() + payload.len() + 5,
        frame(code, payload) == be32((payload.len() + 1) as u32) + seq![code] + payload,
{
    lemma_frame_layout(code, payload);
}

/// A request goes out once: an exchange that finds no reply outstanding
/// queues its frame and, until the reply has come, leaves the reply
/// outstanding; an exchange that finds a reply outstanding queues nothing.
pub proof fn lemma_request_goes_out_once(
    conn: ConnView,
    code: u8,
    expected: u8,
    payload: Seq<u8>,
)
    requires
        payload.len() <= PAYLOAD_LEN_MAX,
    ensures
        conn.after_exchange(code, payload).outbound == if conn.awaiting {
            conn.outbound
        } else {
            conn.outbound + frame(code, payload)
        },
        conn.exchanged(code, expected, payload) == Err::<Seq<u8>, RiakErrView>(
            RiakErrView::IoError(IoErrorKind::WouldBlock),
        ) ==> conn.after_exchange(code, payload).awaiting && conn.after_exchange(
            code,
            payload,
        ).inbound == conn.inbound,
{
    let asked = conn.requested(code, payload);
    match head(asked.inbound) {
        Head::Whole { code: reply_code, payload: reply, rest } => {
            if reply_code == ERROR_RESP {
                match error_resp_of(reply) {
                    Ok(error) => {},
                    Err(error) => {},
                }
            }
        },
        _ => {},
    }
}

/// What was sent is what is received: with a frame under the expected code
/// at the head of the bytes that came in, the caller gets that frame's
/// payload, byte for byte, and what followed the frame stays for later.
pub proof fn lemma_receive_returns_what_was_sent(
    conn: ConnView,
    code: u8,
    payload: Seq<u8>,
    rest: Seq<u8>,
)
    requires
        code != ERROR_RESP,
        payload.len() <= PAYLOAD_LEN_MAX,
        conn.inbound == frame(code, payload) + rest,
    ensures
        conn.received(code) == Ok::<Seq<u8>, RiakErrView>(payload),
        conn.after_receive().inbound == rest,
{
    lemma_head_of_frame(code, payload, rest);
}

/// A frame of the code alone answers a request whose reply says nothing:
/// the caller gets the empty payload.
pub proof fn lemma_bare_code_is_a_reply(conn: ConnView, code: u8, rest: Seq<u8>)
    requires
        code != ERROR_RESP,
        conn.inbound == seq![0u8, 0u8, 0u8, 1u8, code] + rest,
    ensures
        conn.received(code) == Ok::<Seq<u8>, RiakErrView>(Seq::empty()),
        conn.after_receive().inbound == rest,
{
    lemma_head_of_bare_code(code, rest);
}

/// A reply under a code that is neither the expected one nor that of an
/// error is a breach of protocol, whatever its payload. The frame is
/// consumed all the same.
pub proof fn lemma_unexpected_code_is_invalid_data(
    conn: ConnView,
    expected: u8,
    code: u8,
    payload: Seq<u8>,
    rest: Seq<u8>,
)
    requires
        code != expected,
        code != ERROR_RESP,
        payload.len() <= PAYLOAD_LEN_MAX,
        conn.inbound == frame(code, payload) + rest,
    ensures
        conn.received(expected) == Err::<Seq<u8>, RiakErrView>(
            RiakErrView::IoError(IoErrorKind::InvalidData),
        ),
        conn.after_receive().inbound == rest,
{
    lemma_head_of_frame(code, payload, rest);
}

/// An error reply fails the call with the server's error, whatever reply
/// was expected: the code and the message are those the server wrote. This
/// holds of a bare receive and of an exchange that can put its request on
/// the wire or has done so before.
pub proof fn lemma_error_reply_is_server_error(
    conn: ConnView,
    code: u8,
    expected: u8,
    request: Seq<u8>,
    error: ServerErrorView,
    rest: Seq<u8>,
)
    requires
        error.data.len() <= VALUE_LEN_MAX,
        error_resp_bytes(error).len() <= PAYLOAD_LEN_MAX,
        conn.inbound == frame(ERROR_RESP, error_resp_bytes(error)) + rest,
    ensures
        conn.received(expected) == Err::<Seq<u8>, RiakErrView>(RiakErrView::ServerError(error)),
        conn.awaiting || request.len() <= PAYLOAD_LEN_MAX ==> conn.exchanged(
            code,
            expected,
            request,
        ) == Err::<Seq<u8>, RiakErrView>(RiakErrView::ServerError(error)),
        conn.after_receive().inbound == rest,
{
    lemma_head_of_frame(ERROR_RESP, error_resp_bytes(error), rest);
    lemma_error_resp_round_trip(error);
}

/// The state of one connection.
#[derive(Debug)]
pub struct RiakConn {
    peer_addr: String,
    timeout: u32,
    outbound: Vec<u8>,
    inbound: Vec<u8>,
    closed: bool,
    awaiting: bool,
}

impl View for RiakConn {
    type V = ConnView;

    closed spec fn view(&self) -> ConnView {
        ConnView {
            peer: self.peer_addr@,
            timeout: self.timeout,
            outbound: self.outbound@,
            inbound: self.inbound@,
            closed: self.closed,
            awaiting: self.awaiting,
        }
    }
}

/// The error that a failed attempt to open the socket becomes.
pub open spec fn opened_view(opened: Result<(), IoErrorKind>) -> Result<(), RiakErrView> {
    match opened {
        Ok(()) => Ok(()),
        Err(kind) => Err(RiakErrView::IoError(kind)),
    }
}

impl RiakConn {
    /// Records a connection that the caller has tried to open to `addr`
    /// with `timeout` seconds for reads and writes. `opened` is what became
    /// of the attempt: its failure is handed on, and on success address and
    /// timeout are kept for reconnecting.
    pub fn new(addr: &str, timeout: u32, opened: Result<(), IoErrorKind>) -> (r: Result<
        RiakConn,
        RiakErr,
    >)
        ensures
            match r {
                Ok(conn) => opened is Ok && conn@ == (ConnView {
                    peer: addr@,
                    timeout,
                    outbound: Seq::empty(),
                    inbound: Seq::empty(),
                    closed: false,
                    awaiting: false,
                }),
                Err(error) => Err::<(), RiakErrView>(error@) == opened_view(opened),
            },
    {
        match opened {
            Ok(()) => Ok(
                RiakConn {
                    peer_addr: addr.to_owned(),
                    timeout,
                    outbound: Vec::new(),
                    inbound: Vec::new(),
                    closed: false,
                    awaiting: false,
                },
            ),
            Err(kind) => Err(RiakErr::IoError(kind)),
        }
    }

    /// The address of the peer.
    pub fn peer_addr(&self) -> (r: &str)
        ensures
            r@ == self@.peer,
    {
        self.peer_addr.as_str()
    }

    /// Seconds allowed for a read or a write.
    pub fn timeout(&self) -> (r: u32)
        ensures
            r == self@.timeout,
    {
        self.timeout
    }

    /// Whether a request is out whose reply has not been consumed.
    pub fn is_awaiting(&self) -> (r: bool)
        ensures
            r == self@.awaiting,
    {
        self.awaiting
    }

    /// Whether the peer's stream has ended.
    pub fn is_closed(&self) -> (r: bool)
        ensures
            r == self@.closed,
    {
        self.closed
    }

    /// Takes bytes that were read from the peer.
    pub fn feed(&mut self, bytes: &[u8])
        ensures
            final(self)@ == (ConnView { inbound: old(self)@.inbound + bytes@, ..old(self)@ }),
    {
        self.inbound.extend_from_slice(bytes);
        assert(self.inbound@ =~= old(self).inbound@ + bytes@);
    }

    /// Records that the peer will send nothing more.
    pub fn close(&mut self)
        ensures
            final(self)@ == (ConnView { closed: true, ..old(self)@ }),
    {
        self.closed = true;
    }

    /// Hands out the bytes queued for the peer, oldest first, and empties
    /// the queue.
    pub fn take_outbound(&mut self) -> (r: Vec<u8>)
        ensures
            r@ == old(self)@.outbound,
            final(self)@ == (ConnView { outbound: Seq::empty(), ..old(self)@ }),
    {
        let mut bytes: Vec<u8> = Vec::new();
        bytes.append(&mut self.outbound);
        assert(bytes@ =~= old(self).outbound@);
        bytes
    }

    /// Queues one frame: the length of code and payload, the code, the
    /// payload. Fails with `InvalidInput`, and queues nothing, exactly when
    /// the payload is longer than `PAYLOAD_LEN_MAX`.
    pub fn send(&mut self, code: u8, payload: &[u8]) -> (r: Result<(), RiakErr>)
        ensures
            final(self)@ == old(self)@.after_send(code, payload@),
            unit_view(r) == if payload.len() <= PAYLOAD_LEN_MAX {
                Ok::<(), RiakErrView>(())
            } else {
                Err(RiakErrView::IoError(IoErrorKind::InvalidInput))
            },
    {
        let mut bytes = encode_frame(code, payload)?;
        let ghost before = self.outbound@;
        self.outbound.append(&mut bytes);
        assert(self.outbound@ =~= before + frame(code, payload@));
        Ok(())
    }

    /// Consumes one frame and tells what it means to a caller who expects
    /// `expected`. Until a whole frame has arrived nothing is consumed, and
    /// the error is `WouldBlock`, or `UnexpectedEof` once the peer's stream
    /// has ended.
    pub fn receive(&mut self, expected: u8) -> (r: Result<Vec<u8>, RiakErr>)
        ensures
            final(self)@ == old(self)@.after_receive(),
            payload_view(r) == old(self)@.received(expected),
    {
        let available = self.inbound.len();
        if available < 4 {
            return Err(self.starved());
        }
        let total = frame_len(self.inbound[0], self.inbound[1], self.inbound[2], self.inbound[3]);
        if total == 0 {
            let rest = self.inbound.split_off(4);
            self.inbound = rest;
            self.awaiting = false;
            return Err(RiakErr::IoError(IoErrorKind::InvalidData));
        }
        if available - 4 < total as usize {
            return Err(self.starved());
        }
        let code = self.inbound[4];
        let end: usize = 4 + total as usize;
        let rest = self.inbound.split_off(end);
        let payload = self.inbound.split_off(5);
        self.inbound = rest;
        self.awaiting = false;
        assert(payload@ =~= old(self)@.inbound.subrange(5, 4 + total));
        classify_reply(expected, code, payload)
    }

    /// One request and its one reply. The request is queued unless one is
    /// already out, so that a caller who was told `WouldBlock` repeats the
    /// call and the request goes out once. Nothing is retried.
    pub fn exchange(&mut self, code: u8, expected: u8, payload: &[u8]) -> (r: Result<
        Vec<u8>,
        RiakErr,
    >)
        ensures
            final(self)@ == old(self)@.after_exchange(code, payload@),
            payload_view(r) == old(self)@.exchanged(code, expected, payload@),
    {
        if !self.awaiting {
            self.send(code, payload)?;
            self.awaiting = true;
        }
        self.receive(expected)
    }

    /// Gives up the reply that is outstanding, after a read or a write on
    /// the socket has failed with `kind`. The failure is handed back as the
    /// error to report, and the next exchange puts its request on the wire.
    pub fn fail(&mut self, kind: IoErrorKind) -> (r: RiakErr)
        ensures
            final(self)@ == (ConnView { awaiting: false, ..old(self)@ }),
            r@ == RiakErrView::IoError(kind),
    {
        self.awaiting = false;
        RiakErr::IoError(kind)
    }

    /// Starts over after the caller has closed the socket and tried to open
    /// it again at the same address: whatever was queued or buffered is
    /// dropped. `opened` is what became of the attempt; its failure is
    /// handed on, and the connection then counts as closed.
    pub fn reconnect(&mut self, opened: Result<(), IoErrorKind>) -> (r: Result<(), RiakErr>)
        ensures
            final(self)@ == old(self)@.after_reconnect(opened),
            unit_view(r) == opened_view(opened),
    {
        self.outbound = Vec::new();
        self.inbound = Vec::new();
        self.awaiting = false;
        match opened {
            Ok(()) => {
                self.closed = false;
                Ok(())
            },
            Err(kind) => {
                self.closed = true;
                Err(RiakErr::IoError(kind))
            },
        }
    }

    fn starved(&self) -> (r: RiakErr)
        ensures
            r@ == self@.starved(),
    {
        if self.closed {
            RiakErr::IoError(IoErrorKind::UnexpectedEof)
        } else {
            RiakErr::IoError(IoErrorKind::WouldBlock)
        }
    }
}

} // verus!
