//! Reply codes and the errors a connection can end with.
use vstd::prelude::*;

verus! {

/// What went wrong in an I/O operation, as far as the proxy tells cases apart.
#[derive(Clone, Copy, Debug, PartialEq, Eq, Structural)]
pub enum IoErrorKind {
    /// The stream ended before a message was complete.
    UnexpectedEof,
    /// An argument does not describe what it should.
    InvalidInput,
    /// Data does not have the expected content.
    InvalidData,
    /// No address can be used.
    AddrNotAvailable,
    /// An address is taken by another socket.
    AddrInUse,
    /// Access is not allowed.
    PermissionDenied,
    /// The remote end refused the connection.
    ConnectionRefused,
    /// The socket is not connected.
    NotConnected,
    /// Anything else.
    Other,
}

/// A failed I/O operation.
#[derive(Clone, Debug, PartialEq, Eq)]
pub struct IoError {
    pub kind: IoErrorKind,
    pub message: String,
}

/// The mathematical content of an [`IoError`].
#[verifier::ext_equal]
pub struct IoErrorView {
    pub kind: IoErrorKind,
    pub message: Seq<char>,
}

impl View for IoError {
    type V = IoErrorView;

    open spec fn view(&self) -> IoErrorView {
        IoErrorView { kind: self.kind, message: self.message@ }
    }
}

impl IoError {
    /// An error of the given kind with a fixed message.
    pub fn new(kind: IoErrorKind, message: &str) -> (error: IoError)
        ensures
            error@ == (IoErrorView { kind, message: message@ }),
    {
        IoError { kind, message: message.to_owned() }
    }

    /// An error of no particular kind.
    pub fn other(message: &str) -> (error: IoError)
        ensures
            error@ == (IoErrorView { kind: IoErrorKind::Other, message: message@ }),
    {
        IoError::new(IoErrorKind::Other, message)
    }
}

/// Possible SOCKS5 Response Codes
#[derive(Clone, Copy, Debug, PartialEq, Eq, Structural)]
pub enum ResponseCode {
    Success,
    Failure,
    RuleFailure,
    NetworkUnreachable,
    HostUnreachable,
    ConnectionRefused,
    TtlExpired,
    CommandNotSupported,
    AddrTypeNotSupported,
}

/// The `REP` byte of a reply code (RFC 1928 S6).
pub open spec fn response_byte(code: ResponseCode) -> u8 {
    match code {
        ResponseCode::Success => 0x00,
        ResponseCode::Failure => 0x01,
        ResponseCode::RuleFailure => 0x02,
        ResponseCode::NetworkUnreachable => 0x03,
        ResponseCode::HostUnreachable => 0x04,
        ResponseCode::ConnectionRefused => 0x05,
        ResponseCode::TtlExpired => 0x06,
        ResponseCode::CommandNotSupported => 0x07,
        ResponseCode::AddrTypeNotSupported => 0x08,
    }
}

/// The words in which a reply code is logged.
pub open spec fn response_text(code: ResponseCode) -> Seq<char> {
    match code {
        ResponseCode::Success => "Success"@,
        ResponseCode::Failure => "SOCKS5 Server Failure"@,
        ResponseCode::RuleFailure => "SOCKS5 Rule failure"@,
        ResponseCode::NetworkUnreachable => "network unreachable"@,
        ResponseCode::HostUnreachable => "host unreachable"@,
        ResponseCode::ConnectionRefused => "connection refused"@,
        ResponseCode::TtlExpired => "TTL expired"@,
        ResponseCode::CommandNotSupported => "Command not supported"@,
        ResponseCode::AddrTypeNotSupported => "Addr Type not supported"@,
    }
}

impl ResponseCode {
    /// The byte that stands for this code on the wire.
    pub fn code(self) -> (byte: u8)
        ensures
            byte == response_byte(self),
    {
        match self {
            ResponseCode::Success => 0x00,
            ResponseCode::Failure => 0x01,
            ResponseCode::RuleFailure => 0x02,
            ResponseCode::NetworkUnreachable => 0x03,
            ResponseCode::HostUnreachable => 0x04,
            ResponseCode::ConnectionRefused => 0x05,
            ResponseCode::TtlExpired => 0x06,
            ResponseCode::CommandNotSupported => 0x07,
            ResponseCode::AddrTypeNotSupported => 0x08,
        }
    }

    /// A description of this code for people.
    pub fn message(self) -> (text: &'static str)
        ensures
            text@ == response_text(self),
    {
        match self {
            ResponseCode::Success => "Success",
            ResponseCode::Failure => "SOCKS5 Server Failure",
            ResponseCode::RuleFailure => "SOCKS5 Rule failure",
            ResponseCode::NetworkUnreachable => "network unreachable",
            ResponseCode::HostUnreachable => "host unreachable",
            ResponseCode::ConnectionRefused => "connection refused",
            ResponseCode::TtlExpired => "TTL expired",
            ResponseCode::CommandNotSupported => "Command not supported",
            ResponseCode::AddrTypeNotSupported => "Addr Type not supported",
        }
    }
}

/// Why a connection could not be served.
#[derive(Clone, Debug, PartialEq, Eq)]
pub enum MerinoError {
    /// An I/O operation failed.
    Io(IoError),
    /// The request cannot be granted, for the reason the code gives.
    Socks(ResponseCode),
}

/// The mathematical content of a [`MerinoError`].
#[verifier::ext_equal]
pub enum ErrorView {
    Io(IoErrorView),
    Socks(ResponseCode),
}

impl View for MerinoError {
    type V = ErrorView;

    open spec fn view(&self) -> ErrorView {
        match *self {
            MerinoError::Io(error) => ErrorView::Io(error@),
            MerinoError::Socks(code) => ErrorView::Socks(code),
        }
    }
}

/// The code a client is told about `error`.
pub open spec fn code_for(error: ErrorView) -> ResponseCode {
    match error {
        ErrorView::Socks(code) => code,
        ErrorView::Io(_) => ResponseCode::Failure,
    }
}

/// The words in which an error is logged.
pub open spec fn error_text(error: ErrorView) -> Seq<char> {
    match error {
        ErrorView::Io(error) => "IO error: "@ + error.message,
        ErrorView::Socks(code) => "Socks error: "@ + response_text(code),
    }
}

impl MerinoError {
    /// The code a client is told about this error: an I/O error is a general
    /// failure, any other error carries its own code.
    pub fn response_code(&self) -> (code: ResponseCode)
        ensures
            code == code_for(self@),
    {
        match self {
            MerinoError::Socks(code) => *code,
            MerinoError::Io(_) => ResponseCode::Failure,
        }
    }

    /// A description of this error for people.
    pub fn message(&self) -> (text: String)
        ensures
            text@ == match self@ {
                ErrorView::Io(error) => "IO error: "@ + error.message,
                ErrorView::Socks(code) => "Socks error: "@ + response_text(code),
            },
            text@ == error_text(self@),
    {
        match self {
            MerinoError::Io(error) => {
                let mut text = "IO error: ".to_owned();
                text.append(error.message.as_str());
                text
            },
            MerinoError::Socks(code) => {
                let mut text = "Socks error: ".to_owned();
                text.append(code.message());
                text
            },
        }
    }
}

impl From<MerinoError> for ResponseCode {
    fn from(e: MerinoError) -> (code: ResponseCode) {
        e.response_code()
    }
}

impl vstd::std_specs::convert::FromSpecImpl<MerinoError> for ResponseCode {
    open spec fn obeys_from_spec() -> bool {
        true
    }

    open spec fn from_spec(e: MerinoError) -> ResponseCode {
        code_for(e@)
    }
}

impl From<ResponseCode> for MerinoError {
    fn from(code: ResponseCode) -> (error: MerinoError) {
        MerinoError::Socks(code)
    }
}

impl vstd::std_specs::convert::FromSpecImpl<ResponseCode> for MerinoError {
    open spec fn obeys_from_spec() -> bool {
        true
    }

    open spec fn from_spec(code: ResponseCode) -> MerinoError {
        MerinoError::Socks(code)
    }
}

impl From<IoError> for MerinoError {
    fn from(error: IoError) -> (e: MerinoError) {
        MerinoError::Io(error)
    }
}

impl vstd::std_specs::convert::FromSpecImpl<IoError> for MerinoError {
    open spec fn obeys_from_spec() -> bool {
        true
    }

    open spec fn from_spec(error: IoError) -> MerinoError {
        MerinoError::Io(error)
    }
}

/// The error of a message that ends before all of its declared fields.
pub open spec fn truncated_error() -> ErrorView {
    ErrorView::Io(
        IoErrorView { kind: IoErrorKind::UnexpectedEof, message: "truncated SOCKS message"@ },
    )
}

/// Error used by the pure parsers when a message ends before all of its
/// declared fields have been read.
pub fn truncated() -> (error: MerinoError)
    ensures
        error@ == truncated_error(),
{
    MerinoError::Io(IoError::new(IoErrorKind::UnexpectedEof, "truncated SOCKS message"))
}

/// Error reported when the bounded outbound connect attempt runs out of time.
///
/// A timeout is not the same as the peer refusing the connection, so it is
/// reported as `TTL expired` (RFC 1928 S6) rather than `connection refused`.
/// This lets a client tell a blackholed or merely slow destination apart from
/// one that is actively rejecting the connection.
pub fn connect_timeout_error() -> (error: MerinoError)
    ensures
        error == MerinoError::Socks(ResponseCode::TtlExpired),
{
    MerinoError::Socks(ResponseCode::TtlExpired)
}

/// Two reply codes share a byte only when they are the same code, and every
/// byte is at most `0x08`.
pub proof fn law_response_bytes_are_distinct(a: ResponseCode, b: ResponseCode)
    ensures
        response_byte(a) == response_byte(b) <==> a == b,
        response_byte(a) <= 0x08,
{
}

/// A client is told the very code that a request was refused with, and a
/// general failure, `0x01`, about every I/O error.
pub proof fn law_clients_are_told_the_code(code: ResponseCode, error: IoErrorView)
    ensures
        code_for(ErrorView::Socks(code)) == code,
        response_byte(code_for(ErrorView::Io(error))) == 0x01,
{
}

/// An error is described by what it is, followed by its own description as a
/// whole.
pub proof fn law_errors_are_described(code: ResponseCode, error: IoErrorView)
    ensures
        "IO error: "@.is_prefix_of(error_text(ErrorView::Io(error))),
        error_text(ErrorView::Io(error)).skip("IO error: "@.len() as int) == error.message,
        "Socks error: "@.is_prefix_of(error_text(ErrorView::Socks(code))),
        error_text(ErrorView::Socks(code)).skip("Socks error: "@.len() as int) == response_text(
            code,
        ),
{
    assert(error_text(ErrorView::Io(error)).skip("IO error: "@.len() as int) =~= error.message);
    assert(error_text(ErrorView::Socks(code)).skip("Socks error: "@.len() as int) =~= response_text(
        code,
    ));
}

} // verus!
