//! TPKT header (RFC 1006): version, reserved byte and total frame length.
use vstd::prelude::*;
use tokio_util::bytes::BytesMut;
use crate::buffer::{be16, buf_from, buf_to_vec, buf_with_capacity, from_be16, get_u16, get_u8, put_u16, put_u8};
use crate::error::{error_dec, S7Error};
use crate::text::dec_digits;

verus! {

#[derive(Debug, Eq, PartialEq, Clone, Copy, Structural)]
pub struct TPKT {
    /// Version, always 0x03 (byte 0).
    pub version: u8,
    /// Reserved, 0x00 (byte 1).
    pub reserved: u8,
    /// Length of the whole frame, this header included (bytes 2-3).
    pub length: u16,
}

impl Default for TPKT {
    fn default() -> (r: Self)
        ensures
            r == (TPKT { version: 0x03, reserved: 0x00, length: 0x0000 }),
    {
        Self { version: 0x03, reserved: 0x00, length: 0x0000 }
    }
}

impl TPKT {
    pub const BYTE_LEN: usize = 4;

    /// The four bytes of this header on the wire.
    pub open spec fn encoded(self) -> Seq<u8> {
        seq![self.version, self.reserved] + be16(self.length)
    }

    /// The header at the start of `data`, if `data` is long enough to hold one.
    pub open spec fn from_wire(data: Seq<u8>) -> Option<TPKT> {
        if data.len() < 4 {
            None
        } else {
            Some(TPKT { version: data[0], reserved: data[1], length: from_be16(data[2], data[3]) })
        }
    }

    pub fn byte_len(&self) -> (r: usize)
        ensures
            r == self.encoded().len(),
    {
        Self::BYTE_LEN
    }

    pub fn to_be_bytes(&self) -> (r: Vec<u8>)
        ensures
            r@ == self.encoded(),
    {
        let mut buf: BytesMut = buf_with_capacity(Self::BYTE_LEN);
        put_u8(&mut buf, self.version);
        put_u8(&mut buf, self.reserved);
        put_u16(&mut buf, self.length);
        let r = buf_to_vec(&buf);
        assert(r@ =~= self.encoded());
        r
    }

    pub fn from_be_bytes(data: &[u8]) -> (r: Result<Self, S7Error>)
        ensures
            match r {
                Ok(t) => TPKT::from_wire(data@) == Some(t),
                Err(e) => TPKT::from_wire(data@) is None && (e matches S7Error::Error(m) && m@
                    == "Invalid TPKT len: "@ + dec_digits(data@.len())),
            },
    {
        if data.len() < 4 {
            return Err(error_dec("Invalid TPKT len: ", data.len() as u64));
        }
        let mut buf = buf_from(data);
        let version = get_u8(&mut buf);
        let reserved = get_u8(&mut buf);
        let length = get_u16(&mut buf);
        Ok(TPKT { version, reserved, length })
    }
}

/// Decoding the bytes of a header gives the header back.
pub proof fn lemma_tpkt_roundtrip(t: TPKT)
    ensures
        TPKT::from_wire(t.encoded()) == Some(t),
{
}

/// A decoded header encodes to the four bytes it was read from.
pub proof fn lemma_tpkt_reencode(data: Seq<u8>)
    ensures
        TPKT::from_wire(data) matches Some(t) ==> t.encoded() == data.subrange(0, 4),
{
    if let Some(t) = TPKT::from_wire(data) {
        assert(t.encoded() =~= data.subrange(0, 4));
    }
}

} // verus!
