//! Errors of the S7 protocol library.
use vstd::prelude::*;
use std::sync::Arc;
use crate::text::{dec_digits, hex_byte, push_decimal, push_hex_byte, string_push};

verus! {

#[verifier::external_type_specification]
#[verifier::external_body]
pub struct ExIoError(std::io::Error);

#[derive(Debug, Clone)]
pub enum S7Error {
    IoErr(Arc<std::io::Error>),
    /// Connection refused
    ConnectionRefused { host: String, port: u16 },
    /// Connection timeout
    ConnectionTimeout { host: String, port: u16 },
    /// Connection closed unexpectedly
    ConnectionClosed,
    /// Connection not established
    NotConnected,
    /// Operation timeout
    Timeout(u64),
    /// S7 protocol error
    ProtocolError { code: u32, message: String },
    /// PDU parse error
    PduParseError { offset: usize, message: String },
    /// Invalid memory area
    InvalidArea(u8),
    /// Data length mismatch
    DataLengthMismatch { expected: usize, actual: usize },
    BufferTooShort { need: usize, have: usize },
    Error(String),
}

impl S7Error {
    /// Whether this error is about the connection itself.
    pub fn is_connection_error(&self) -> (r: bool)
        ensures
            r == (self is ConnectionRefused || self is ConnectionTimeout || self is ConnectionClosed
                || self is NotConnected),
    {
        match self {
            S7Error::ConnectionRefused { .. } | S7Error::ConnectionTimeout { .. }
            | S7Error::ConnectionClosed | S7Error::NotConnected => true,
            _ => false,
        }
    }
}

/// An error that carries the message `msg`.
pub fn error_msg(msg: &str) -> (e: S7Error)
    ensures
        is_error_text(e, msg@),
{
    S7Error::Error(String::from_str(msg))
}

/// The message `prefix`, then `0x` and the byte in two upper-case hexadecimal digits.
pub open spec fn hex_text(prefix: Seq<char>, b: u8) -> Seq<char> {
    prefix + seq!['0', 'x'] + hex_byte(b)
}

/// The message `prefix`, then the number in decimal.
pub open spec fn dec_text(prefix: Seq<char>, n: nat) -> Seq<char> {
    prefix + dec_digits(n)
}

/// Whether `e` is a plain error with the message `text`.
pub open spec fn is_error_text(e: S7Error, text: Seq<char>) -> bool {
    e matches S7Error::Error(m) && m@ == text
}

/// An error whose message is `prefix`, then `0x` and the byte in hexadecimal.
pub fn error_hex(prefix: &str, b: u8) -> (e: S7Error)
    ensures
        is_error_text(e, hex_text(prefix@, b)),
{
    let mut m = String::from_str(prefix);
    string_push(&mut m, '0');
    string_push(&mut m, 'x');
    push_hex_byte(&mut m, b);
    assert(m@ =~= hex_text(prefix@, b));
    S7Error::Error(m)
}

/// An error whose message is `prefix`, then the number in decimal.
pub fn error_dec(prefix: &str, n: u64) -> (e: S7Error)
    ensures
        is_error_text(e, dec_text(prefix@, n as nat)),
{
    let mut m = String::from_str(prefix);
    push_decimal(&mut m, n);
    S7Error::Error(m)
}

} // verus!
