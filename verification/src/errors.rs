//! What can go wrong: the transport, the schema, or the server's own refusal.

use vstd::prelude::*;

verus! {

/// Why the transport could not complete an operation.
#[derive(Clone, Copy, Debug, PartialEq, Eq, Structural)]
pub enum IoErrorKind {
    /// The reply has not arrived in full yet. Nothing was consumed: feed the
    /// connection more bytes and repeat the call.
    WouldBlock,
    /// The peer closed the connection before the reply was complete.
    UnexpectedEof,
    /// The payload does not fit in a frame.
    InvalidInput,
    /// The peer broke the protocol: a frame without a message code, or a
    /// reply whose code is neither the expected one nor the error code.
    InvalidData,
    /// The peer refused the connection.
    ConnectionRefused,
    /// The peer reset the connection.
    ConnectionReset,
    /// The connection was aborted.
    ConnectionAborted,
    /// The socket is not connected.
    NotConnected,
    /// The address cannot be reached from here, or resolves to nothing.
    AddrNotAvailable,
    /// The peer has stopped reading.
    BrokenPipe,
    /// A read or a write took longer than the timeout.
    TimedOut,
    /// Any other failure of the socket.
    Other,
}

/// Why a payload could not be read as, or rendered from, a typed record.
#[derive(Clone, Copy, Debug, PartialEq, Eq, Structural)]
pub enum SchemaError {
    /// The bytes are not a sequence of protobuf fields.
    Malformed,
    /// A field of the record arrived with a wire type other than its own.
    UnexpectedWireType,
    /// A required field of the record is absent.
    MissingField,
    /// A value is too long for the length prefix of a field.
    TooLong,
}

/// An error reply from the server, as it was sent.
#[derive(Debug)]
pub struct ServerError {
    code: u32,
    data: Vec<u8>,
}

/// What a `ServerError` holds.
pub struct ServerErrorView {
    pub code: u32,
    pub data: Seq<u8>,
}

impl View for ServerError {
    type V = ServerErrorView;

    closed spec fn view(&self) -> ServerErrorView {
        ServerErrorView { code: self.code, data: self.data@ }
    }
}

impl Clone for ServerError {
    fn clone(&self) -> (r: ServerError)
        ensures
            r@ == self@,
    {
        ServerError { code: self.code, data: self.data.clone() }
    }
}

impl ServerError {
    /// An error with the code and the message that the server gave.
    pub fn new(error_code: u32, error_data: Vec<u8>) -> (r: ServerError)
        ensures
            r@ == (ServerErrorView { code: error_code, data: error_data@ }),
    {
        ServerError { code: error_code, data: error_data }
    }

    /// The numeric code the server gave.
    pub fn code(&self) -> (r: u32)
        ensures
            r == self@.code,
    {
        self.code
    }

    /// The server's message, verbatim.
    pub fn data(&self) -> (r: &Vec<u8>)
        ensures
            r@ == self@.data,
    {
        &self.data
    }
}

/// The errors of this client. Exactly one kind applies to any failure.
#[derive(Debug)]
pub enum RiakErr {
    IoError(IoErrorKind),
    ProtobufError(SchemaError),
    ServerError(ServerError),
}

/// What a `RiakErr` holds.
pub enum RiakErrView {
    IoError(IoErrorKind),
    ProtobufError(SchemaError),
    ServerError(ServerErrorView),
}

impl View for RiakErr {
    type V = RiakErrView;

    open spec fn view(&self) -> RiakErrView {
        match *self {
            RiakErr::IoError(kind) => RiakErrView::IoError(kind),
            RiakErr::ProtobufError(error) => RiakErrView::ProtobufError(error),
            RiakErr::ServerError(error) => RiakErrView::ServerError(error@),
        }
    }
}

/// A failure of the schema as an error of the client.
pub open spec fn schema_failure<T>(r: Result<T, SchemaError>) -> Result<T, RiakErrView> {
    match r {
        Ok(value) => Ok(value),
        Err(error) => Err(RiakErrView::ProtobufError(error)),
    }
}

/// The view of what a call returns: of the value, or of the error that came
/// in its place.
pub open spec fn result_view<T: DeepView>(r: Result<T, RiakErr>) -> Result<T::V, RiakErrView> {
    match r {
        Ok(value) => Ok(value.deep_view()),
        Err(error) => Err(error@),
    }
}

/// The view of rendered bytes or the error that came in their place.
pub open spec fn bytes_view(r: Result<Vec<u8>, SchemaError>) -> Result<Seq<u8>, SchemaError> {
    match r {
        Ok(bytes) => Ok(bytes@),
        Err(error) => Err(error),
    }
}

impl RiakErr {
    /// Whether the failed call may simply be repeated once more bytes from
    /// the peer have been fed to the connection.
    pub fn is_would_block(&self) -> (r: bool)
        ensures
            r == (self@ == RiakErrView::IoError(IoErrorKind::WouldBlock)),
    {
        match self {
            RiakErr::IoError(IoErrorKind::WouldBlock) => true,
            _ => false,
        }
    }
}

} // verus!
