//! What can go wrong while talking to the server.
use vstd::prelude::*;
use crate::numbers::{decimal, int_text, push_decimal, push_int};

verus! {

/// Why a protocol exchange failed.
#[derive(Debug)]
pub enum ProtoError {
    /// A received line has no ` crc32=` trailer.
    MissingCrc,
    /// A received line's checksum does not match its content.
    BadCrc,
    /// A received line has no command word.
    MissingCommand,
    /// A parameter has no `=`.
    BadParam,
    /// A `%` escape is cut short or holds a non-hexadecimal digit.
    BadEscape,
    /// A decoded value is not well-formed UTF-8.
    BadUtf8,
    /// A received line has no `seq` parameter.
    MissingSeq,
    /// A reply answers another request than the one sent.
    SeqMismatch { expected: u64, got: String },
    /// The server answered with an `ERR` line.
    Server { code: String, msg: String },
    /// A required parameter is absent.
    Missing(String),
    /// A required parameter is not a number.
    Bad(String),
    /// The greeting carries no `OK` line.
    MissingOk,
    /// The greeting names no protocol version.
    MissingProto,
    /// The server speaks another protocol version.
    ProtoMismatch { server: i64 },
    /// The server closed the connection.
    ConnectionClosed,
    /// Reading or writing the connection failed.
    Io(String),
}

/// The protocol version this client speaks.
pub const SUPPORTED_PROTO_VERSION: i64 = 2;

/// The label of a server error: its code, or `ERR` where it has none.
pub open spec fn server_label(code: Seq<char>) -> Seq<char> {
    if code.len() == 0 {
        "ERR"@
    } else {
        code
    }
}

/// The text shown for an error.
pub open spec fn error_text(e: ProtoError) -> Seq<char> {
    match e {
        ProtoError::MissingCrc => "MissingCRC"@,
        ProtoError::BadCrc => "BadCRC"@,
        ProtoError::MissingCommand => "MissingCommand"@,
        ProtoError::BadParam => "BadParam"@,
        ProtoError::BadEscape => "BadEscape"@,
        ProtoError::BadUtf8 => "BadUtf8"@,
        ProtoError::MissingSeq => "MissingSeq"@,
        ProtoError::SeqMismatch { expected, got } => "SeqMismatch expected="@ + decimal(
            expected as nat,
        ) + " got="@ + got@,
        ProtoError::Server { code, msg } => server_label(code@) + ": "@ + msg@,
        ProtoError::Missing(key) => "Missing "@ + key@,
        ProtoError::Bad(key) => "Bad "@ + key@,
        ProtoError::MissingOk => "Missing OK response"@,
        ProtoError::MissingProto => "Missing proto version"@,
        ProtoError::ProtoMismatch { server } => "Proto mismatch (server "@ + int_text(server as int)
            + " vs client "@ + int_text(SUPPORTED_PROTO_VERSION as int) + ")"@,
        ProtoError::ConnectionClosed => "Connection closed"@,
        ProtoError::Io(text) => text@,
    }
}

impl ProtoError {
    /// The text shown for this error.
    pub fn describe(&self) -> (r: String)
        ensures
            r@ == error_text(*self),
    {
        match self {
            ProtoError::MissingCrc => String::from_str("MissingCRC"),
            ProtoError::BadCrc => String::from_str("BadCRC"),
            ProtoError::MissingCommand => String::from_str("MissingCommand"),
            ProtoError::BadParam => String::from_str("BadParam"),
            ProtoError::BadEscape => String::from_str("BadEscape"),
            ProtoError::BadUtf8 => String::from_str("BadUtf8"),
            ProtoError::MissingSeq => String::from_str("MissingSeq"),
            ProtoError::SeqMismatch { expected, got } => {
                let mut s = String::from_str("SeqMismatch expected=");
                push_decimal(&mut s, *expected);
                s.append(" got=");
                s.append(got.as_str());
                s
            },
            ProtoError::Server { code, msg } => {
                let mut s = if code.as_str().is_empty() {
                    String::from_str("ERR")
                } else {
                    code.clone()
                };
                s.append(": ");
                s.append(msg.as_str());
                s
            },
            ProtoError::Missing(key) => {
                let mut s = String::from_str("Missing ");
                s.append(key.as_str());
                s
            },
            ProtoError::Bad(key) => {
                let mut s = String::from_str("Bad ");
                s.append(key.as_str());
                s
            },
            ProtoError::MissingOk => String::from_str("Missing OK response"),
            ProtoError::MissingProto => String::from_str("Missing proto version"),
            ProtoError::ProtoMismatch { server } => {
                let mut s = String::from_str("Proto mismatch (server ");
                push_int(&mut s, *server);
                s.append(" vs client ");
                push_int(&mut s, SUPPORTED_PROTO_VERSION);
                s.append(")");
                s
            },
            ProtoError::ConnectionClosed => String::from_str("Connection closed"),
            ProtoError::Io(text) => text.clone(),
        }
    }
}

} // verus!
