//! COTP (ISO 8073) headers: connection management and data transfer.
use vstd::prelude::*;
use tokio_util::bytes::BytesMut;
use crate::buffer::{be16, buf_from, buf_to_vec, buf_with_capacity, from_be16, get_u16, get_u8, put_u16, put_u8};
use crate::error::{dec_text, error_dec, error_hex, hex_text, is_error_text, S7Error};
use crate::types::PduType;

verus! {

#[derive(Debug, Eq, PartialEq, Clone, Copy, Structural)]
pub enum Cotp {
    CotpConnection(CotpConnection),
    CotpData(CotpData),
}

/// COTP connection management header, 18 bytes.
#[derive(Debug, Eq, PartialEq, Clone, Copy, Structural)]
pub struct CotpConnection {
    /// Length of the rest of the header (byte 0).
    pub length: u8,
    /// PDU type (byte 1).
    pub pdu_type: PduType,
    /// Destination reference (bytes 2-3).
    pub destination_reference: u16,
    /// Source reference (bytes 4-5).
    pub source_reference: u16,
    /// Class and options (byte 6).
    pub flags: u8,
    /// Parameter code of the TPDU size (byte 7).
    pub parameter_code_tpdu_size: u8,
    /// Length of the TPDU size parameter (byte 8).
    pub parameter_length1: u8,
    /// TPDU size as a power of two (byte 9).
    pub tpdu_size: u8,
    /// Parameter code of the source TSAP (byte 10).
    pub parameter_code_src_tsap: u8,
    /// Length of the source TSAP (byte 11).
    pub parameter_length2: u8,
    /// Source TSAP (bytes 12-13).
    pub source_tsap: u16,
    /// Parameter code of the destination TSAP (byte 14).
    pub parameter_code_dst_tsap: u8,
    /// Length of the destination TSAP (byte 15).
    pub parameter_length3: u8,
    /// Destination TSAP (bytes 16-17).
    pub destination_tsap: u16,
}

/// COTP data header, 3 bytes.
#[derive(Debug, Eq, PartialEq, Clone, Copy, Structural)]
pub struct CotpData {
    /// Length of the rest of the header (byte 0).
    pub length: u8,
    /// PDU type (byte 1).
    pub pdu_type: PduType,
    /// TPDU number, the low seven bits of byte 2.
    pub tpdu_number: u16,
    /// Whether this is the last data unit, the high bit of byte 2.
    pub last_data_unit: bool,
}

impl CotpConnection {
    pub const BYTE_LENGTH: usize = 18;

    /// The connection request header with its usual parameters.
    pub open spec fn spec_default() -> CotpConnection {
        CotpConnection {
            length: 0x11,
            pdu_type: PduType::ConnectRequest,
            destination_reference: 0x0000,
            source_reference: 0x0001,
            flags: 0x00,
            parameter_code_tpdu_size: 0xC0,
            parameter_length1: 0x01,
            tpdu_size: 0x0A,
            parameter_code_src_tsap: 0xC1,
            parameter_length2: 0x02,
            source_tsap: 0x0100,
            parameter_code_dst_tsap: 0xC2,
            parameter_length3: 0x02,
            destination_tsap: 0x0100,
        }
    }

    /// A connection request from TSAP `local` to TSAP `remote`.
    pub fn create_cr_connection(local: u16, remote: u16) -> (r: CotpConnection)
        ensures
            r == (CotpConnection {
                source_tsap: local,
                destination_tsap: remote,
                ..CotpConnection::spec_default()
            }),
    {
        Self { source_tsap: local, destination_tsap: remote, ..CotpConnection::default() }
    }

    /// A disconnect request from TSAP `local` to TSAP `remote`.
    pub fn create_cr_disconnection(local: u16, remote: u16) -> (r: CotpConnection)
        ensures
            r == (CotpConnection {
                pdu_type: PduType::DisconnectRequest,
                source_tsap: local,
                destination_tsap: remote,
                ..CotpConnection::spec_default()
            }),
    {
        Self {
            pdu_type: PduType::DisconnectRequest,
            source_tsap: local,
            destination_tsap: remote,
            ..CotpConnection::default()
        }
    }

    /// The 18 bytes of this header on the wire.
    pub open spec fn encoded(self) -> Seq<u8> {
        seq![self.length, self.pdu_type.code()] + be16(self.destination_reference) + be16(
            self.source_reference,
        ) + seq![
            self.flags,
            self.parameter_code_tpdu_size,
            self.parameter_length1,
            self.tpdu_size,
            self.parameter_code_src_tsap,
            self.parameter_length2,
        ] + be16(self.source_tsap) + seq![self.parameter_code_dst_tsap, self.parameter_length3]
            + be16(self.destination_tsap)
    }

    /// The header held by the first 18 bytes of `d`, with PDU type `t`.
    pub open spec fn read(d: Seq<u8>, t: PduType) -> CotpConnection {
        CotpConnection {
            length: d[0],
            pdu_type: t,
            destination_reference: from_be16(d[2], d[3]),
            source_reference: from_be16(d[4], d[5]),
            flags: d[6],
            parameter_code_tpdu_size: d[7],
            parameter_length1: d[8],
            tpdu_size: d[9],
            parameter_code_src_tsap: d[10],
            parameter_length2: d[11],
            source_tsap: from_be16(d[12], d[13]),
            parameter_code_dst_tsap: d[14],
            parameter_length3: d[15],
            destination_tsap: from_be16(d[16], d[17]),
        }
    }
}

impl Default for CotpConnection {
    fn default() -> (r: CotpConnection)
        ensures
            r == CotpConnection::spec_default(),
    {
        Self {
            length: 0x11,
            pdu_type: PduType::ConnectRequest,
            destination_reference: 0x0000,
            source_reference: 0x0001,
            flags: 0x00,
            parameter_code_tpdu_size: 0xC0,
            parameter_length1: 0x01,
            tpdu_size: 0x0A,
            parameter_code_src_tsap: 0xC1,
            parameter_length2: 0x02,
            source_tsap: 0x0100,
            parameter_code_dst_tsap: 0xC2,
            parameter_length3: 0x02,
            destination_tsap: 0x0100,
        }
    }
}

/// Byte 2 of a data header: the last-unit flag in the high bit, the TPDU number below it.
pub open spec fn data_unit_byte(last_data_unit: bool, tpdu_number: u16) -> u8 {
    (if last_data_unit { 0x80u8 } else { 0x00u8 }) | ((tpdu_number & 0xFF) as u8)
}

impl CotpData {
    pub const BYTE_LENGTH: usize = 3;

    pub open spec fn spec_default() -> CotpData {
        CotpData { length: 2, pdu_type: PduType::DtData, tpdu_number: 0, last_data_unit: true }
    }

    /// The 3 bytes of this header on the wire.
    pub open spec fn encoded(self) -> Seq<u8> {
        seq![self.length, self.pdu_type.code(), data_unit_byte(self.last_data_unit, self.tpdu_number)]
    }

    /// The header held by the first 3 bytes of `d`, with PDU type `t`.
    pub open spec fn read(d: Seq<u8>, t: PduType) -> CotpData {
        CotpData {
            length: d[0],
            pdu_type: t,
            tpdu_number: (d[2] & 0x7F) as u16,
            last_data_unit: (d[2] & 0x80) != 0,
        }
    }
}

impl Default for CotpData {
    fn default() -> (r: Self)
        ensures
            r == CotpData::spec_default(),
    {
        Self { length: 2, pdu_type: PduType::DtData, tpdu_number: 0, last_data_unit: true }
    }
}

impl Default for Cotp {
    fn default() -> (r: Self)
        ensures
            r == Cotp::CotpConnection(CotpConnection::spec_default()),
    {
        Cotp::CotpConnection(CotpConnection::default())
    }
}

impl Cotp {
    pub open spec fn spec_pdu_type(&self) -> PduType {
        match *self {
            Cotp::CotpConnection(c) => c.pdu_type,
            Cotp::CotpData(c) => c.pdu_type,
        }
    }

    #[verifier::when_used_as_spec(spec_pdu_type)]
    pub fn pdu_type(&self) -> (r: PduType)
        ensures
            r == self.spec_pdu_type(),
    {
        match self {
            Cotp::CotpConnection(c) => c.pdu_type,
            Cotp::CotpData(c) => c.pdu_type,
        }
    }

    /// The bytes of this header on the wire.
    pub open spec fn encoded(self) -> Seq<u8> {
        match self {
            Cotp::CotpConnection(c) => c.encoded(),
            Cotp::CotpData(d) => d.encoded(),
        }
    }

    pub open spec fn spec_byte_len(&self) -> usize {
        match *self {
            Cotp::CotpConnection(_) => 18,
            Cotp::CotpData(_) => 3,
        }
    }

    #[verifier::when_used_as_spec(spec_byte_len)]
    pub fn byte_len(&self) -> (r: usize)
        ensures
            r == self.spec_byte_len(),
            r == self.encoded().len(),
    {
        match self {
            Cotp::CotpConnection(_) => CotpConnection::BYTE_LENGTH,
            Cotp::CotpData(_) => CotpData::BYTE_LENGTH,
        }
    }

    pub fn to_be_bytes(&self) -> (r: Vec<u8>)
        ensures
            r@ == self.encoded(),
    {
        match self {
            Cotp::CotpConnection(conn) => {
                let mut buf: BytesMut = buf_with_capacity(CotpConnection::BYTE_LENGTH);
                put_u8(&mut buf, conn.length);
                put_u8(&mut buf, conn.pdu_type.code());
                put_u16(&mut buf, conn.destination_reference);
                put_u16(&mut buf, conn.source_reference);
                put_u8(&mut buf, conn.flags);
                put_u8(&mut buf, conn.parameter_code_tpdu_size);
                put_u8(&mut buf, conn.parameter_length1);
                put_u8(&mut buf, conn.tpdu_size);
                put_u8(&mut buf, conn.parameter_code_src_tsap);
                put_u8(&mut buf, conn.parameter_length2);
                put_u16(&mut buf, conn.source_tsap);
                put_u8(&mut buf, conn.parameter_code_dst_tsap);
                put_u8(&mut buf, conn.parameter_length3);
                put_u16(&mut buf, conn.destination_tsap);
                let r = buf_to_vec(&buf);
                assert(r@ =~= self.encoded());
                r
            },
            Cotp::CotpData(dt) => {
                let mut buf: BytesMut = buf_with_capacity(CotpData::BYTE_LENGTH);
                put_u8(&mut buf, dt.length);
                put_u8(&mut buf, dt.pdu_type.code());
                let bit: u8 = if dt.last_data_unit { 0x80 } else { 0x00 };
                let b: u8 = bit | ((dt.tpdu_number & 0xFF) as u8);
                put_u8(&mut buf, b);
                let r = buf_to_vec(&buf);
                assert(r@ =~= self.encoded());
                r
            },
        }
    }

    /// What the start of `d` holds: `Ok(None)` while the frame is incomplete (or a
    /// reject), `Ok(Some(..))` for a complete header, `Err` for a malformed one.
    pub open spec fn from_wire(d: Seq<u8>) -> Result<Option<Cotp>, ()> {
        if d.len() == 0 || d.len() < 1 + d[0] {
            Ok(None)
        } else {
            match PduType::decode(d[1]) {
                None => Err(()),
                Some(PduType::DtData) => if d[0] == 2 {
                    Ok(Some(Cotp::CotpData(CotpData::read(d, PduType::DtData))))
                } else {
                    Err(())
                },
                Some(PduType::Reject) => Ok(None),
                Some(t) => if d[0] == 17 {
                    Ok(Some(Cotp::CotpConnection(CotpConnection::read(d, t))))
                } else {
                    Err(())
                },
            }
        }
    }

    /// Whether `d` holds enough for its frame length and its PDU type to be read:
    /// a length byte of zero needs a second byte after it.
    pub open spec fn readable(d: Seq<u8>) -> bool {
        d.len() == 1 ==> d[0] != 0
    }

    /// The message that refuses the header at the start of `d`: an unknown PDU
    /// type, or a length that does not fit the PDU type.
    pub open spec fn wire_error(d: Seq<u8>) -> Seq<char> {
        if PduType::decode(d[1]) is None {
            hex_text("Unknown PDU type: "@, d[1])
        } else if PduType::decode(d[1]) == Some(PduType::DtData) {
            dec_text("Invalid CotpData frame length: expected 3, got "@, (1 + d[0]) as nat)
        } else {
            dec_text("Invalid CotpConnection frame length: expected 18, got "@, (1 + d[0]) as nat)
        }
    }

    pub fn from_be_bytes(bytes: &[u8]) -> (r: Result<Option<Self>, S7Error>)
        requires
            Self::readable(bytes@),
        ensures
            match r {
                Ok(c) => Self::from_wire(bytes@) == Ok::<Option<Cotp>, ()>(c),
                Err(e) => Self::from_wire(bytes@) is Err && is_error_text(e, Self::wire_error(bytes@)),
            },
    {
        if bytes.len() == 0 {
            return Ok(None);
        }
        let length = bytes[0] as usize;
        let frame_len = 1 + length;
        if bytes.len() < frame_len {
            return Ok(None);
        }
        let pdu_code = bytes[1];
        let pdu_type = match PduType::from(pdu_code) {
            Some(t) => t,
            None => {
                return Err(error_hex("Unknown PDU type: ", pdu_code));
            },
        };
        let mut buf = buf_from(bytes);
        let cotp = match pdu_type {
            PduType::DtData => {
                if frame_len != 3 {
                    return Err(
                        error_dec(
                            "Invalid CotpData frame length: expected 3, got ",
                            frame_len as u64,
                        ),
                    );
                }
                let len = get_u8(&mut buf);
                let _pdu = get_u8(&mut buf);
                let combined = get_u8(&mut buf);
                let last_data_unit = (combined & 0x80) != 0;
                let tpdu_number = (combined & 0x7F) as u16;
                Cotp::CotpData(CotpData { length: len, pdu_type, tpdu_number, last_data_unit })
            },
            PduType::Reject => return Ok(None),
            _ => {
                if frame_len != 18 {
                    return Err(
                        error_dec(
                            "Invalid CotpConnection frame length: expected 18, got ",
                            frame_len as u64,
                        ),
                    );
                }
                let length = get_u8(&mut buf);
                let _pdu = get_u8(&mut buf);
                let destination_reference = get_u16(&mut buf);
                let source_reference = get_u16(&mut buf);
                let flags = get_u8(&mut buf);
                let parameter_code_tpdu_size = get_u8(&mut buf);
                let parameter_length1 = get_u8(&mut buf);
                let tpdu_size = get_u8(&mut buf);
                let parameter_code_src_tsap = get_u8(&mut buf);
                let parameter_length2 = get_u8(&mut buf);
                let source_tsap = get_u16(&mut buf);
                let parameter_code_dst_tsap = get_u8(&mut buf);
                let parameter_length3 = get_u8(&mut buf);
                let destination_tsap = get_u16(&mut buf);
                Cotp::CotpConnection(
                    CotpConnection {
                        length,
                        pdu_type,
                        destination_reference,
                        source_reference,
                        flags,
                        parameter_code_tpdu_size,
                        parameter_length1,
                        tpdu_size,
                        parameter_code_src_tsap,
                        parameter_length2,
                        source_tsap,
                        parameter_code_dst_tsap,
                        parameter_length3,
                        destination_tsap,
                    },
                )
            },
        };
        Ok(Some(cotp))
    }
}

/// A header that the decoder gives back unchanged: the length byte matches the
/// header's size, a data header's TPDU number fits in seven bits, and a
/// connection header is not of the data or reject type.
pub open spec fn cotp_wf(c: Cotp) -> bool {
    match c {
        Cotp::CotpData(d) => d.length == 2 && d.pdu_type == PduType::DtData && d.tpdu_number < 128,
        Cotp::CotpConnection(k) => k.length == 17 && k.pdu_type != PduType::DtData && k.pdu_type
            != PduType::Reject,
    }
}

proof fn lemma_data_unit_byte(last: bool, n: u16)
    requires
        n < 128,
    ensures
        (data_unit_byte(last, n) & 0x80 != 0) == last,
        (data_unit_byte(last, n) & 0x7F) as u16 == n,
{
    if last {
        assert((0x80u8 | ((n & 0xFF) as u8)) & 0x80 != 0) by (bit_vector)
            requires
                n < 128,
        ;
        assert(((0x80u8 | ((n & 0xFF) as u8)) & 0x7F) as u16 == n) by (bit_vector)
            requires
                n < 128,
        ;
    } else {
        assert(!((0x00u8 | ((n & 0xFF) as u8)) & 0x80 != 0)) by (bit_vector)
            requires
                n < 128,
        ;
        assert(((0x00u8 | ((n & 0xFF) as u8)) & 0x7F) as u16 == n) by (bit_vector)
            requires
                n < 128,
        ;
    }
}

/// Decoding the bytes of a well-formed header gives the header back.
pub proof fn lemma_cotp_roundtrip(c: Cotp)
    requires
        cotp_wf(c),
    ensures
        Cotp::from_wire(c.encoded()) == Ok::<Option<Cotp>, ()>(Some(c)),
{
    let d = c.encoded();
    PduType::lemma_decode_code(c.pdu_type());
    match c {
        Cotp::CotpData(x) => {
            lemma_data_unit_byte(x.last_data_unit, x.tpdu_number);
            assert(CotpData::read(d, PduType::DtData) == x);
        },
        Cotp::CotpConnection(k) => {
            assert(CotpConnection::read(d, k.pdu_type) == k);
        },
    }
}

/// A decoded header is well formed and encodes to the bytes it was read from.
pub proof fn lemma_cotp_reencode(d: Seq<u8>)
    ensures
        Cotp::from_wire(d) matches Ok(Some(c)) ==> cotp_wf(c) && c.encoded() == d.subrange(
            0,
            c.byte_len() as int,
        ),
{
    if let Ok(Some(c)) = Cotp::from_wire(d) {
        let t = PduType::decode(d[1]).unwrap();
        assert(t.code() == d[1]);
        match c {
            Cotp::CotpData(x) => {
                let b = d[2];
                assert(data_unit_byte((b & 0x80) != 0, (b & 0x7F) as u16) == b) by (bit_vector);
                assert((b & 0x7F) < 128) by (bit_vector);
                assert(t == PduType::DtData);
                assert(c.encoded() =~= d.subrange(0, 3));
            },
            Cotp::CotpConnection(k) => {
                assert(t != PduType::DtData && t != PduType::Reject);
                assert(c.encoded() =~= d.subrange(0, 18));
            },
        }
    }
}

} // verus!
