//! S7 protocol header: message type, PDU reference, lengths and error fields.
use vstd::prelude::*;
use tokio_util::bytes::BytesMut;
use crate::buffer::{be16, buf_from, buf_new, buf_to_vec, from_be16, get_u16, get_u8, put_u16, put_u8, remaining};
use crate::error::{error_hex, hex_text, is_error_text, S7Error};
use crate::types::{S7ErrorClass, S7MessageType};

verus! {

#[derive(Debug, Eq, PartialEq, Clone, Copy, Structural)]
pub struct S7Header {
    /// Protocol id, 0x32 (byte 0).
    pub protocol_id: u8,
    /// Message type (byte 1).
    pub message_type: S7MessageType,
    /// Reserved (bytes 2-3).
    pub reserved: u16,
    /// PDU reference chosen by the requester, echoed by the PLC (bytes 4-5).
    pub pdu_reference: u16,
    /// Length of the parameter part (bytes 6-7).
    pub parameter_length: u16,
    /// Length of the data part (bytes 8-9).
    pub data_length: u16,
    /// Error class, in acknowledgements (byte 10).
    pub error_class: Option<S7ErrorClass>,
    /// Error code, in acknowledgements (byte 11).
    pub error_code: Option<u8>,
}

impl S7Header {
    /// A header of the given type and reference, with empty parameter and data parts.
    pub open spec fn spec_new(message_type: S7MessageType, pdu_reference: u16) -> S7Header {
        S7Header {
            protocol_id: 0x32,
            message_type,
            reserved: 0x0000,
            pdu_reference,
            parameter_length: 0x0000,
            data_length: 0x0000,
            error_class: None,
            error_code: None,
        }
    }

    /// A header of type `message_type` with PDU reference `pdu_reference`.
    pub fn new(message_type: S7MessageType, pdu_reference: u16) -> (r: Self)
        ensures
            r == S7Header::spec_new(message_type, pdu_reference),
    {
        S7Header {
            protocol_id: 0x32,
            message_type,
            reserved: 0x0000,
            pdu_reference,
            parameter_length: 0x0000,
            data_length: 0x0000,
            error_class: None,
            error_code: None,
        }
    }

    pub fn set_data_len(&mut self, len: u16)
        ensures
            *final(self) == (S7Header { data_length: len, ..*old(self) }),
    {
        self.data_length = len;
    }

    pub fn set_parameter_len(&mut self, len: u16)
        ensures
            *final(self) == (S7Header { parameter_length: len, ..*old(self) }),
    {
        self.parameter_length = len;
    }

    pub fn message_type(&self) -> (r: S7MessageType)
        ensures
            r == self.message_type,
    {
        self.message_type
    }

    pub fn paremater_len(&self) -> (r: u16)
        ensures
            r == self.parameter_length,
    {
        self.parameter_length
    }

    pub fn data_len(&self) -> (r: u16)
        ensures
            r == self.data_length,
    {
        self.data_length
    }

    /// Whether the header carries the two error bytes.
    pub open spec fn has_error_fields(self) -> bool {
        self.error_class is Some && self.error_code is Some
    }

    pub open spec fn spec_byte_len(&self) -> usize {
        if self.has_error_fields() {
            12
        } else {
            10
        }
    }

    #[verifier::when_used_as_spec(spec_byte_len)]
    pub fn byte_len(&self) -> (r: usize)
        ensures
            r == self.spec_byte_len(),
            r == self.encoded().len(),
    {
        if let (Some(_ec), Some(_ecd)) = (self.error_class, self.error_code) {
            12
        } else {
            10
        }
    }

    /// The bytes of this header on the wire.
    pub open spec fn encoded(self) -> Seq<u8> {
        seq![self.protocol_id, self.message_type.code()] + be16(self.reserved) + be16(
            self.pdu_reference,
        ) + be16(self.parameter_length) + be16(self.data_length) + if self.has_error_fields() {
            seq![self.error_class.unwrap().code(), self.error_code.unwrap()]
        } else {
            Seq::<u8>::empty()
        }
    }

    pub fn to_be_bytes(&self) -> (r: Vec<u8>)
        ensures
            r@ == self.encoded(),
    {
        let mut buf: BytesMut = buf_new();
        put_u8(&mut buf, self.protocol_id);
        put_u8(&mut buf, self.message_type.code());
        put_u16(&mut buf, self.reserved);
        put_u16(&mut buf, self.pdu_reference);
        put_u16(&mut buf, self.parameter_length);
        put_u16(&mut buf, self.data_length);
        if let (Some(ec), Some(ecd)) = (self.error_class, self.error_code) {
            put_u8(&mut buf, ec.code());
            put_u8(&mut buf, ecd);
        }
        let r = buf_to_vec(&buf);
        assert(r@ =~= self.encoded());
        r
    }

    /// Whether `d` is long enough for the decoder: the message type byte must be
    /// there, and a known message type needs the ten bytes of a header.
    pub open spec fn readable(d: Seq<u8>) -> bool {
        d.len() >= 2 && (S7MessageType::decode(d[1]) is Some ==> d.len() >= 10)
    }

    /// The header at the start of `d`. Acknowledgements followed by at least two
    /// more bytes carry an error class and an error code in bytes 10 and 11.
    pub open spec fn from_wire(d: Seq<u8>) -> Result<S7Header, ()> {
        match S7MessageType::decode(d[1]) {
            None => Err(()),
            Some(t) => {
                let base = S7Header {
                    protocol_id: d[0],
                    message_type: t,
                    reserved: from_be16(d[2], d[3]),
                    pdu_reference: from_be16(d[4], d[5]),
                    parameter_length: from_be16(d[6], d[7]),
                    data_length: from_be16(d[8], d[9]),
                    error_class: None,
                    error_code: None,
                };
                if (t == S7MessageType::Ack || t == S7MessageType::AckData) && d.len() >= 12 {
                    match S7ErrorClass::decode(d[10]) {
                        None => Err(()),
                        Some(ec) => Ok(S7Header { error_class: Some(ec), error_code: Some(d[11]), ..base }),
                    }
                } else {
                    Ok(base)
                }
            },
        }
    }

    /// The message that refuses the header at the start of `d`: an unknown
    /// message type, or an unknown error class.
    pub open spec fn wire_error(d: Seq<u8>) -> Seq<char> {
        if S7MessageType::decode(d[1]) is None {
            hex_text("Unknown message type: "@, d[1])
        } else {
            hex_text("Unknown error class: "@, d[10])
        }
    }

    pub fn from_be_bytes(bytes: &[u8]) -> (r: Result<Option<Self>, S7Error>)
        requires
            Self::readable(bytes@),
        ensures
            match r {
                Ok(Some(h)) => Self::from_wire(bytes@) == Ok::<S7Header, ()>(h),
                Ok(None) => false,
                Err(e) => Self::from_wire(bytes@) is Err && is_error_text(e, Self::wire_error(bytes@)),
            },
    {
        let msg_type = bytes[1];
        let message_type = match S7MessageType::from(msg_type) {
            Some(t) => t,
            None => {
                return Err(error_hex("Unknown message type: ", msg_type));
            },
        };
        let mut buf = buf_from(bytes);
        let protocol_id = get_u8(&mut buf);
        let _msg_type = get_u8(&mut buf);
        let reserved = get_u16(&mut buf);
        let pdu_reference = get_u16(&mut buf);
        let parameter_length = get_u16(&mut buf);
        let data_length = get_u16(&mut buf);
        let is_ack = match message_type {
            S7MessageType::Ack | S7MessageType::AckData => true,
            _ => false,
        };
        let (error_class, error_code) = if is_ack && remaining(&buf) >= 2 {
            let ec = get_u8(&mut buf);
            let class = match S7ErrorClass::from(ec) {
                Some(c) => c,
                None => {
                    return Err(error_hex("Unknown error class: ", ec));
                },
            };
            (Some(class), Some(get_u8(&mut buf)))
        } else {
            (None, None)
        };
        Ok(
            Some(
                S7Header {
                    protocol_id,
                    message_type,
                    reserved,
                    pdu_reference,
                    parameter_length,
                    data_length,
                    error_class,
                    error_code,
                },
            ),
        )
    }
}

impl Default for S7Header {
    fn default() -> (r: Self)
        ensures
            r == S7Header::spec_new(S7MessageType::Job, 0),
    {
        S7Header::new(S7MessageType::Job, 0)
    }
}

/// A header that survives decoding whatever follows it: the error fields come
/// together, and exactly in acknowledgements.
pub open spec fn header_wf(h: S7Header) -> bool {
    &&& (h.error_class is Some) == (h.error_code is Some)
    &&& (h.message_type == S7MessageType::Ack || h.message_type == S7MessageType::AckData) <==> h.error_class is Some
}

/// Decoding the bytes of a well-formed header, whatever follows them, gives the header back.
pub proof fn lemma_header_roundtrip(h: S7Header, rest: Seq<u8>)
    requires
        header_wf(h),
    ensures
        S7Header::readable(h.encoded() + rest),
        S7Header::from_wire(h.encoded() + rest) == Ok::<S7Header, ()>(h),
{
    let d = h.encoded() + rest;
    S7MessageType::lemma_decode_code(h.message_type);
    if h.has_error_fields() {
        S7ErrorClass::lemma_decode_code(h.error_class.unwrap());
    }
    assert(d[1] == h.message_type.code());
}

/// A decoded header encodes to the bytes it was read from.
pub proof fn lemma_header_reencode(d: Seq<u8>)
    requires
        S7Header::readable(d),
    ensures
        S7Header::from_wire(d) matches Ok(h) ==> h.encoded() == d.subrange(0, h.byte_len() as int),
{
    if let Ok(h) = S7Header::from_wire(d) {
        assert(h.message_type.code() == d[1]);
        if h.has_error_fields() {
            assert(h.error_class.unwrap().code() == d[10]);
        }
        assert(h.encoded() =~= d.subrange(0, h.byte_len() as int));
    }
}

} // verus!
