//! A whole S7 frame: TPKT, COTP, and optionally the S7 header, parameter part
//! and data part; its encoding, its decoding and the requests of the client.
use vstd::prelude::*;
use crate::cotp::{cotp_wf, data_unit_byte, lemma_cotp_roundtrip, Cotp, CotpConnection, CotpData};
use crate::datum::{rw_items_from_wire, rw_items_readable, lemma_read_datum_roundtrip, lemma_szl_daum_roundtrip, read_items_wf, SzlDaumView, Datum, DatumView, ReadWriteDatum, SzlDaum, as_data_items, items_encodable, datum_encoded};
use crate::error::{error_msg, is_error_text, S7Error};
use tokio_util::bytes::BytesMut;
use crate::buffer::{be16, buf_at, buf_len, buf_with_capacity, bytes_of, extend_from_slice, fits, from_be16, put_buf, put_u16, put_u8, reserve, split_to};
use crate::header::{header_wf, lemma_header_roundtrip, S7Header};
use crate::item::{lemma_return_item_roundtrip, DataItem, RequestItem, S7ReturnItemView};
use crate::paramter::{lemma_parameter_roundtrip, parameter_wf, items_computable, items_encoded, lemma_items_encoded_len, ReadWriteParameter, S7Parameter, S7ParameterView, SetupComParameter, SzlParameter};
use crate::tpkt::TPKT;
use crate::types::{S7FunctionCode, S7MessageType};

verus! {

#[derive(Debug, Clone)]
pub struct S7Data {
    /// TPKT header, 4 bytes.
    pub tpkt: TPKT,
    /// COTP header, 3 or 18 bytes.
    pub cotp: Option<Cotp>,
    /// S7 header, 10 or 12 bytes.
    pub header: Option<S7Header>,
    /// Parameter part: setup, read/write or SZL parameters.
    pub parameter: Option<S7Parameter>,
    /// Data part: read/write items or an SZL record.
    pub datum: Option<Datum>,
}

/// A frame as values.
pub struct S7DataView {
    pub tpkt: TPKT,
    pub cotp: Option<Cotp>,
    pub header: Option<S7Header>,
    pub parameter: Option<S7ParameterView>,
    pub datum: Option<DatumView>,
}

impl View for S7Data {
    type V = S7DataView;

    open spec fn view(&self) -> S7DataView {
        S7DataView {
            tpkt: self.tpkt,
            cotp: self.cotp,
            header: self.header,
            parameter: match self.parameter {
                Some(p) => Some(p@),
                None => None,
            },
            datum: match self.datum {
                Some(d) => Some(d@),
                None => None,
            },
        }
    }
}

impl S7DataView {
    /// The bytes of the frame: each present part after the other.
    pub open spec fn encoded(self) -> Seq<u8> {
        self.tpkt.encoded() + match self.cotp {
            Some(c) => c.encoded(),
            None => Seq::<u8>::empty(),
        } + match self.header {
            Some(h) => h.encoded(),
            None => Seq::<u8>::empty(),
        } + match self.parameter {
            Some(p) => p.encoded(),
            None => Seq::<u8>::empty(),
        } + match self.datum {
            Some(d) => d.encoded(),
            None => Seq::<u8>::empty(),
        }
    }
}

impl S7Data {
    /// The sizes that `byte_len` adds up: an SZL parameter counts its response
    /// fields when it has them.
    pub open spec fn spec_byte_len(&self) -> int {
        4 + match self.cotp {
            Some(c) => c.spec_byte_len() as int,
            None => 0,
        } + match self.header {
            Some(h) => h.spec_byte_len() as int,
            None => 0,
        } + match self.parameter {
            Some(p) => p.spec_byte_len() as int,
            None => 0,
        } + match self.datum {
            Some(d) => d@.encoded().len() as int,
            None => 0,
        }
    }

    /// Whether the frame can be measured and written out.
    pub open spec fn encodable(&self) -> bool {
        &&& match self.parameter {
            Some(p) => p.encodable(),
            None => true,
        }
        &&& match self.datum {
            Some(d) => d@.encodable(),
            None => true,
        }
        &&& self.spec_byte_len() <= isize::MAX
        &&& self@.encoded().len() <= isize::MAX
    }

    pub fn byte_len(&self) -> (r: usize)
        requires
            self.encodable(),
        ensures
            r == self.spec_byte_len(),
    {
        let mut len: usize = 0;
        len += self.tpkt.byte_len();
        if let Some(ref cotp) = self.cotp {
            len += cotp.byte_len();
        }
        if let Some(ref header) = self.header {
            len += header.byte_len();
        }
        if let Some(ref parameter) = self.parameter {
            len += parameter.byte_len();
        }
        if let Some(ref datum) = self.datum {
            len += datum.byte_len();
        }
        len
    }

    pub fn to_be_bytes(&self) -> (r: Vec<u8>)
        requires
            self.encodable(),
        ensures
            r@ == self@.encoded(),
    {
        let mut bytes: Vec<u8> = Vec::with_capacity(self.byte_len());
        let t = self.tpkt.to_be_bytes();
        bytes.extend_from_slice(t.as_slice());
        if let Some(ref cotp) = self.cotp {
            let c = cotp.to_be_bytes();
            bytes.extend_from_slice(c.as_slice());
        }
        if let Some(ref header) = self.header {
            let h = header.to_be_bytes();
            bytes.extend_from_slice(h.as_slice());
        }
        if let Some(ref parameter) = self.parameter {
            let p = parameter.to_be_bytes();
            bytes.extend_from_slice(p.as_slice());
        }
        if let Some(ref datum) = self.datum {
            let d = datum.to_be_bytes();
            bytes.extend_from_slice(d.as_slice());
        }
        assert(bytes@ =~= self@.encoded());
        bytes
    }
}

/// What follows the COTP header in a frame: the S7 header, then the parameter
/// and data parts where the header's lengths say they lie; the data part is
/// read according to the parameter's function code. `base` holds the parts
/// read before.
#[verifier::opaque]
pub open spec fn s7_parts_from_wire(r2: Seq<u8>, base: S7DataView) -> Result<S7DataView, ()> {
    match S7Header::from_wire(r2) {
        Err(()) => Err(()),
        Ok(h) => {
            let hl = h.spec_byte_len() as int;
            let pl = h.parameter_length as int;
            let dl = h.data_length as int;
            let param = if pl > 0 {
                S7Parameter::from_wire(r2.subrange(hl, hl + pl))
            } else {
                Ok(None)
            };
            match param {
                Err(()) => Err(()),
                Ok(p) => {
                    let with_param = S7DataView { header: Some(h), parameter: p, ..base };
                    if dl > 0 {
                        match Datum::from_wire(
                            r2.subrange(hl + pl, hl + pl + dl),
                            h.message_type,
                            p.unwrap().function_code(),
                        ) {
                            Err(()) => Err(()),
                            Ok(dv) => Ok(S7DataView { datum: Some(dv), ..with_param }),
                        }
                    } else {
                        Ok(with_param)
                    }
                },
            }
        },
    }
}

/// The message that refuses what follows the COTP header: that of the first
/// part that cannot be read.
#[verifier::opaque]
pub open spec fn s7_parts_error(r2: Seq<u8>) -> Seq<char> {
    match S7Header::from_wire(r2) {
        Err(()) => S7Header::wire_error(r2),
        Ok(h) => {
            let hl = h.spec_byte_len() as int;
            let pl = h.parameter_length as int;
            let dl = h.data_length as int;
            let param = if pl > 0 {
                S7Parameter::from_wire(r2.subrange(hl, hl + pl))
            } else {
                Ok(None)
            };
            match param {
                Err(()) => S7Parameter::wire_error(r2.subrange(hl, hl + pl)),
                Ok(p) => Datum::wire_error(
                    r2.subrange(hl + pl, hl + pl + dl),
                    h.message_type,
                    p.unwrap().function_code(),
                ),
            }
        },
    }
}

/// Whether reading what follows the COTP header stays within `r2`: the lengths
/// in the header lie within it, each part is readable, and a data part comes
/// with a parameter part that names its function.
#[verifier::opaque]
pub open spec fn s7_parts_readable(r2: Seq<u8>) -> bool {
    S7Header::readable(r2) && match S7Header::from_wire(r2) {
        Ok(h) => {
            let hl = h.spec_byte_len() as int;
            let pl = h.parameter_length as int;
            let dl = h.data_length as int;
            &&& pl > 0 ==> hl + pl <= r2.len() && S7Parameter::readable(r2.subrange(hl, hl + pl))
            &&& dl > 0 ==> {
                let param = if pl > 0 {
                    S7Parameter::from_wire(r2.subrange(hl, hl + pl))
                } else {
                    Ok(None)
                };
                param is Ok ==> {
                    &&& hl + pl + dl <= r2.len()
                    &&& param.unwrap() is Some
                    &&& Datum::readable(
                        r2.subrange(hl + pl, hl + pl + dl),
                        h.message_type,
                        param.unwrap().unwrap().function_code(),
                    )
                }
            }
        },
        Err(()) => true,
    }
}

/// The frame that `d` holds, its parts read one after the other; a frame ends
/// after its COTP header when nothing follows it.
pub open spec fn s7data_from_wire(d: Seq<u8>) -> Result<S7DataView, ()> {
    let tpkt = TPKT::from_wire(d).unwrap();
    let r = d.subrange(4, d.len() as int);
    let bare = S7DataView { tpkt, cotp: None, header: None, parameter: None, datum: None };
    match Cotp::from_wire(r) {
        Err(()) => Err(()),
        Ok(None) => Ok(bare),
        Ok(Some(c)) => if r.len() <= c.spec_byte_len() {
            Ok(S7DataView { cotp: Some(c), ..bare })
        } else {
            s7_parts_from_wire(r.subrange(c.spec_byte_len() as int, r.len() as int), S7DataView { cotp: Some(c), ..bare })
        },
    }
}

/// The message that refuses the frame `d`: that of the first part that cannot
/// be read.
pub open spec fn s7data_error(d: Seq<u8>) -> Seq<char> {
    let r = d.subrange(4, d.len() as int);
    match Cotp::from_wire(r) {
        Err(()) => Cotp::wire_error(r),
        Ok(Some(c)) => s7_parts_error(r.subrange(c.spec_byte_len() as int, r.len() as int)),
        Ok(None) => Seq::<char>::empty(),
    }
}

/// Whether the frame decoder stays within `d` and never needs a part that is
/// missing.
pub open spec fn s7data_readable(d: Seq<u8>) -> bool {
    d.len() >= 4 && {
        let r = d.subrange(4, d.len() as int);
        Cotp::readable(r) && match Cotp::from_wire(r) {
            Ok(Some(c)) => r.len() > c.spec_byte_len() ==> s7_parts_readable(
                r.subrange(c.spec_byte_len() as int, r.len() as int),
            ),
            _ => true,
        }
    }
}

/// Whether the S7 parts after the COTP header can be read; see `s7_parts_readable`.
fn parts_are_readable(r2: &[u8]) -> (r: bool)
    ensures
        r == s7_parts_readable(r2@),
{
    reveal(s7_parts_readable);
    if !(r2.len() >= 2 && (S7MessageType::from(r2[1]).is_none() || r2.len() >= 10)) {
        return false;
    }
    let h = match S7Header::from_be_bytes(r2) {
        Ok(Some(h)) => h,
        _ => {
            return true;
        },
    };
    let hl = h.byte_len();
    let pl = h.paremater_len() as usize;
    let dl = h.data_len() as usize;
    let n = r2.len();
    if pl > 0 {
        if hl + pl > n {
            return false;
        }
        if !S7Parameter::is_readable(&r2[hl..hl + pl]) {
            return false;
        }
    }
    if dl == 0 {
        return true;
    }
    if pl == 0 {
        return false;
    }
    let param = S7Parameter::from_be_bytes(&r2[hl..hl + pl]);
    match param {
        Err(_) => true,
        Ok(None) => false,
        Ok(Some(p)) => {
            if hl + pl + dl > n {
                return false;
            }
            Datum::is_readable(&r2[hl + pl..hl + pl + dl], h.message_type(), p.function_code())
        },
    }
}

impl S7Data {
    /// Whether `from_be_bytes` can read `bytes`: its decoders then stay within
    /// them.
    pub fn is_readable(bytes: &[u8]) -> (r: bool)
        ensures
            r == s7data_readable(bytes@),
    {
        if bytes.len() < 4 {
            return false;
        }
        let rest = &bytes[4..bytes.len()];
        assert(rest@ =~= bytes@.subrange(4, bytes@.len() as int));
        if rest.len() == 1 && rest[0] == 0 {
            return false;
        }
        match Cotp::from_be_bytes(rest) {
            Ok(Some(c)) => {
                let cl = c.byte_len();
                if rest.len() > cl {
                    parts_are_readable(&rest[cl..rest.len()])
                } else {
                    true
                }
            },
            _ => true,
        }
    }
}

impl S7Data {
    pub fn from_be_bytes(bytes: &[u8]) -> (r: Result<Option<Self>, S7Error>)
        requires
            s7data_readable(bytes@),
        ensures
            match r {
                Ok(Some(s)) => s7data_from_wire(bytes@) == Ok::<S7DataView, ()>(s@),
                Ok(None) => false,
                Err(e) => s7data_from_wire(bytes@) is Err && is_error_text(e, s7data_error(bytes@)),
            },
    {
        let ghost d = bytes@;
        let tpkt_bytes = &bytes[0..TPKT::BYTE_LEN];
        let tpkt = TPKT::from_be_bytes(tpkt_bytes)?;
        assert(TPKT::from_wire(tpkt_bytes@) == TPKT::from_wire(d));
        let remain_bytes = &bytes[TPKT::BYTE_LEN..bytes.len()];
        let ghost r = remain_bytes@;
        assert(r =~= d.subrange(4, d.len() as int));
        let cotp = Cotp::from_be_bytes(remain_bytes)?;
        let mut s7data = S7Data { tpkt, cotp: None, header: None, parameter: None, datum: None };
        s7data.cotp = cotp;
        let c = match cotp {
            None => {
                return Ok(Some(s7data));
            },
            Some(c) => c,
        };
        if remain_bytes.len() <= c.byte_len() {
            return Ok(Some(s7data));
        }
        let remain_bytes = &remain_bytes[c.byte_len()..remain_bytes.len()];
        let ghost r2 = remain_bytes@;
        assert(r2 =~= r.subrange(c.spec_byte_len() as int, r.len() as int));
        proof {
            reveal(s7_parts_readable);
            reveal(s7_parts_from_wire);
            reveal(s7_parts_error);
        }
        let header = S7Header::from_be_bytes(remain_bytes)?;
        s7data.header = header;
        let h = match header {
            None => {
                return Ok(Some(s7data));
            },
            Some(h) => h,
        };
        let header_len = h.byte_len();
        let h_param_len = h.paremater_len() as usize;
        let h_data_len = h.data_len() as usize;
        if h_param_len > 0 {
            let param_bytes = &remain_bytes[header_len..header_len + h_param_len];
            let p = S7Parameter::from_be_bytes(param_bytes)?;
            s7data.parameter = p;
        }
        if h_data_len > 0 {
            let data_bytes = &remain_bytes[header_len + h_param_len..header_len + h_param_len + h_data_len];
            let function_code = s7data.parameter.as_ref().unwrap().function_code();
            let datum = Datum::from_be_bytes(data_bytes, h.message_type(), function_code)?;
            s7data.datum = Some(datum);
        }
        Ok(Some(s7data))
    }
}

/// Whether the parameter part is an SZL parameter with its response fields,
/// which `byte_len` counts although only its head is written.
pub open spec fn has_szl_response_fields(parameter: Option<S7Parameter>) -> bool {
    parameter matches Some(S7Parameter::Szl(p)) && p.has_response_fields()
}

/// The lengths that a frame states agree with its parts: the TPKT length is
/// the length of all the frame's bytes, and the S7 header's parameter and data
/// lengths are those of the parameter and data parts.
pub open spec fn lengths_agree(v: S7DataView) -> bool {
    &&& v.tpkt.length == v.encoded().len()
    &&& (v.header matches Some(h) ==> h.parameter_length == match v.parameter {
        Some(p) => p.encoded().len(),
        None => 0,
    } && h.data_length == match v.datum {
        Some(d) => d.encoded().len(),
        None => 0,
    })
}

/// A frame whose parameter part is not an SZL parameter carrying response
/// fields measures exactly its bytes: what `byte_len` gives is the length of
/// what `to_be_bytes` writes.
pub proof fn lemma_frame_measure(d: S7Data)
    requires
        d.encodable(),
        !has_szl_response_fields(d.parameter),
    ensures
        d.spec_byte_len() == d@.encoded().len(),
{
    if let Some(S7Parameter::ReadWriteParameter(p)) = d.parameter {
        lemma_items_encoded_len(p.request_items@);
    }
}

/// The header after `self_check`: its lengths are those of the parts that follow it.
pub open spec fn checked_header(h: S7Header, parameter: Option<S7Parameter>, datum: Option<Datum>) -> S7Header {
    S7Header {
        parameter_length: match parameter {
            Some(p) => p.spec_byte_len() as u16,
            None => 0,
        },
        data_length: match datum {
            Some(d) => d@.encoded().len() as u16,
            None => 0,
        },
        ..h
    }
}

impl S7Data {
    /// Sets the header's parameter and data lengths, and the TPKT length, to the
    /// lengths of the parts.
    fn self_check(&mut self)
        requires
            old(self).encodable(),
        ensures
            final(self).cotp == old(self).cotp,
            final(self).parameter == old(self).parameter,
            final(self).datum == old(self).datum,
            final(self).header == match old(self).header {
                Some(h) => Some(checked_header(h, old(self).parameter, old(self).datum)),
                None => None,
            },
            final(self).tpkt == (TPKT { length: old(self).spec_byte_len() as u16, ..old(self).tpkt }),
    {
        if let Some(ref mut h) = self.header {
            h.set_data_len(0);
            h.set_parameter_len(0);
            if let Some(ref parameter) = self.parameter {
                h.set_parameter_len(parameter.byte_len() as u16);
            }
            if let Some(ref datum) = self.datum {
                h.set_data_len(datum.byte_len() as u16);
            }
        }
        let n = self.byte_len();
        self.tpkt.length = n as u16;
    }

    /// Connection request from TSAP `local` to TSAP `remote`.
    pub fn create_cr_connection(local: u16, remote: u16) -> (r: Self)
        ensures
            r.encodable(),
            r@.tpkt.length == r@.encoded().len(),
            lengths_agree(r@),
            r.spec_byte_len() == r@.encoded().len(),
            r@ == (S7DataView {
                tpkt: TPKT { version: 3, reserved: 0, length: 22 },
                cotp: Some(Cotp::CotpConnection(CotpConnection {
                    source_tsap: local,
                    destination_tsap: remote,
                    ..CotpConnection::spec_default()
                })),
                header: None,
                parameter: None,
                datum: None,
            }),
            r@.encoded() == seq![
                0x03u8, 0x00, 0x00, 0x16, 0x11, 0xE0, 0x00, 0x00, 0x00, 0x01, 0x00, 0xC0, 0x01, 0x0A, 0xC1, 0x02,
            ] + be16(local) + seq![0xC2u8, 0x02] + be16(remote),
    {
        let mut s7data = Self {
            tpkt: TPKT::default(),
            cotp: Some(Cotp::CotpConnection(CotpConnection::create_cr_connection(local, remote))),
            header: None,
            parameter: None,
            datum: None,
        };
        s7data.self_check();
        assert(s7data@.encoded() =~= seq![
            0x03u8, 0x00, 0x00, 0x16, 0x11, 0xE0, 0x00, 0x00, 0x00, 0x01, 0x00, 0xC0, 0x01, 0x0A, 0xC1, 0x02,
        ] + be16(local) + seq![0xC2u8, 0x02] + be16(remote));
        s7data
    }

    /// Disconnect request from TSAP `local` to TSAP `remote`.
    pub fn create_cr_disconnection(local: u16, remote: u16) -> (r: Self)
        ensures
            r.encodable(),
            r@.tpkt.length == r@.encoded().len(),
            lengths_agree(r@),
            r.spec_byte_len() == r@.encoded().len(),
            r@ == (S7DataView {
                tpkt: TPKT { version: 3, reserved: 0, length: 22 },
                cotp: Some(Cotp::CotpConnection(CotpConnection {
                    pdu_type: crate::types::PduType::DisconnectRequest,
                    source_tsap: local,
                    destination_tsap: remote,
                    ..CotpConnection::spec_default()
                })),
                header: None,
                parameter: None,
                datum: None,
            }),
            r@.encoded() == seq![
                0x03u8, 0x00, 0x00, 0x16, 0x11, 0x80, 0x00, 0x00, 0x00, 0x01, 0x00, 0xC0, 0x01, 0x0A, 0xC1, 0x02,
            ] + be16(local) + seq![0xC2u8, 0x02] + be16(remote),
    {
        let mut s7data = Self {
            tpkt: TPKT::default(),
            cotp: Some(Cotp::CotpConnection(CotpConnection::create_cr_disconnection(local, remote))),
            header: None,
            parameter: None,
            datum: None,
        };
        s7data.self_check();
        assert(s7data@.encoded() =~= seq![
            0x03u8, 0x00, 0x00, 0x16, 0x11, 0x80, 0x00, 0x00, 0x00, 0x01, 0x00, 0xC0, 0x01, 0x0A, 0xC1, 0x02,
        ] + be16(local) + seq![0xC2u8, 0x02] + be16(remote));
        s7data
    }

    /// Communication setup job proposing the PDU length `pdu_len`.
    pub fn create_setup_comm(pdu_len: u16) -> (r: Self)
        ensures
            r.encodable(),
            r@.tpkt.length == r@.encoded().len(),
            lengths_agree(r@),
            r.spec_byte_len() == r@.encoded().len(),
            r@ == (S7DataView {
                tpkt: TPKT { version: 3, reserved: 0, length: 25 },
                cotp: Some(Cotp::CotpData(CotpData::spec_default())),
                header: Some(S7Header {
                    parameter_length: 8,
                    ..S7Header::spec_new(S7MessageType::Job, 0)
                }),
                parameter: Some(S7ParameterView::SetupParameter(SetupComParameter::spec_new(pdu_len))),
                datum: None,
            }),
            r@.encoded() == seq![
                0x03u8, 0x00, 0x00, 0x19, 0x02, 0xF0, 0x80, 0x32, 0x01, 0x00, 0x00, 0x00, 0x00, 0x00, 0x08, 0x00,
                0x00, 0xF0, 0x00, 0x00, 0x01, 0x00, 0x01,
            ] + be16(pdu_len),
    {
        let mut s7data = Self {
            tpkt: TPKT::default(),
            cotp: Some(Cotp::CotpData(CotpData::default())),
            header: Some(S7Header::default()),
            parameter: Some(S7Parameter::SetupParameter(SetupComParameter::new(pdu_len))),
            datum: None,
        };
        s7data.self_check();
        assert(data_unit_byte(true, 0) == 0x80) by (bit_vector);
        assert(CotpData::spec_default().encoded() =~= seq![0x02u8, 0xF0, 0x80]);
        assert(s7data@.encoded() =~= seq![
            0x03u8, 0x00, 0x00, 0x19, 0x02, 0xF0, 0x80, 0x32, 0x01, 0x00, 0x00, 0x00, 0x00, 0x00, 0x08, 0x00,
            0x00, 0xF0, 0x00, 0x00, 0x01, 0x00, 0x01,
        ] + be16(pdu_len));
        s7data
    }

    /// Gives the S7 header, where there is one, the PDU reference `pdu_ref`;
    /// nothing else changes.
    pub fn set_pdu_reference(&mut self, pdu_ref: u16)
        ensures
            final(self).tpkt == old(self).tpkt,
            final(self).cotp == old(self).cotp,
            final(self).parameter == old(self).parameter,
            final(self).datum == old(self).datum,
            final(self).header == match old(self).header {
                Some(h) => Some(S7Header { pdu_reference: pdu_ref, ..h }),
                None => None,
            },
            old(self).encodable() ==> final(self).encodable(),
    {
        if let Some(h) = &mut self.header {
            h.pdu_reference = pdu_ref;
        }
        assert(self@.encoded().len() == old(self)@.encoded().len());
    }

    /// Read job for the items that `request_items` held; `request_items` is
    /// left empty.
    pub fn create_read_request(request_items: &mut Vec<RequestItem>) -> (r: Self)
        requires
            items_computable(old(request_items)@),
            2 + 12 * old(request_items)@.len() <= u16::MAX,
        ensures
            r.encodable(),
            r@.encoded().len() <= 0xFFFF ==> r@.tpkt.length == r@.encoded().len(),
            r@.encoded().len() <= 0xFFFF ==> lengths_agree(r@),
            r.spec_byte_len() == r@.encoded().len(),
            r@ == (S7DataView {
                tpkt: TPKT { version: 3, reserved: 0, length: (19 + 12 * old(request_items)@.len()) as u16 },
                cotp: Some(Cotp::CotpData(CotpData::spec_default())),
                header: Some(S7Header {
                    parameter_length: (2 + 12 * old(request_items)@.len()) as u16,
                    ..S7Header::spec_new(S7MessageType::Job, 0)
                }),
                parameter: Some(S7ParameterView::ReadWriteParameter(crate::paramter::ReadWriteParameterView {
                    function_code: S7FunctionCode::ReadVariable,
                    item_count: old(request_items)@.len() as u8,
                    request_items: old(request_items)@,
                })),
                datum: None,
            }),
            final(request_items)@ == Seq::<RequestItem>::empty(),
            r@.encoded() == seq![0x03u8, 0x00] + be16((19 + 12 * old(request_items)@.len()) as u16) + seq![
                0x02u8, 0xF0, 0x80, 0x32, 0x01, 0x00, 0x00, 0x00, 0x00,
            ] + be16((2 + 12 * old(request_items)@.len()) as u16) + seq![0x00u8, 0x00, 0x04, old(request_items)@.len() as u8]
                + items_encoded(old(request_items)@),
    {
        let ghost items_before = request_items@;
        proof {
            lemma_items_encoded_len(old(request_items)@);
        }
        let mut s7data = Self {
            tpkt: TPKT::default(),
            cotp: Some(Cotp::CotpData(CotpData::default())),
            header: Some(S7Header::default()),
            parameter: Some(
                S7Parameter::ReadWriteParameter(ReadWriteParameter::new(S7FunctionCode::ReadVariable, request_items)),
            ),
            datum: None,
        };
        s7data.self_check();
        assert(data_unit_byte(true, 0) == 0x80) by (bit_vector);
        assert(CotpData::spec_default().encoded() =~= seq![0x02u8, 0xF0, 0x80]);
        assert(s7data@.encoded() =~= seq![0x03u8, 0x00] + be16((19 + 12 * items_before.len()) as u16) + seq![
                0x02u8, 0xF0, 0x80, 0x32, 0x01, 0x00, 0x00, 0x00, 0x00,
            ] + be16((2 + 12 * items_before.len()) as u16) + seq![0x00u8, 0x00, 0x04, items_before.len() as u8]
                + items_encoded(items_before));
        s7data
    }

    /// Write job for the items that `request_items` held, with the data items
    /// `data_item`; `request_items` is left empty.
    pub fn create_write_request(request_items: &mut Vec<RequestItem>, data_item: Vec<DataItem>) -> (r: Self)
        requires
            items_computable(old(request_items)@),
            2 + 12 * old(request_items)@.len() <= u16::MAX,
            items_encodable(as_data_items(data_item@)),
            datum_encoded(as_data_items(data_item@)).len() <= 0x10000,
        ensures
            r.encodable(),
            r@.encoded().len() <= 0xFFFF ==> r@.tpkt.length == r@.encoded().len(),
            r@.encoded().len() <= 0xFFFF ==> lengths_agree(r@),
            r.spec_byte_len() == r@.encoded().len(),
            r@ == (S7DataView {
                tpkt: TPKT {
                    version: 3,
                    reserved: 0,
                    length: (19 + 12 * old(request_items)@.len() + datum_encoded(as_data_items(data_item@)).len()) as u16,
                },
                cotp: Some(Cotp::CotpData(CotpData::spec_default())),
                header: Some(S7Header {
                    parameter_length: (2 + 12 * old(request_items)@.len()) as u16,
                    data_length: datum_encoded(as_data_items(data_item@)).len() as u16,
                    ..S7Header::spec_new(S7MessageType::Job, 0)
                }),
                parameter: Some(S7ParameterView::ReadWriteParameter(crate::paramter::ReadWriteParameterView {
                    function_code: S7FunctionCode::WriteVariable,
                    item_count: old(request_items)@.len() as u8,
                    request_items: old(request_items)@,
                })),
                datum: Some(DatumView::ReadWrite(as_data_items(data_item@))),
            }),
            final(request_items)@ == Seq::<RequestItem>::empty(),
            r@.encoded() == seq![0x03u8, 0x00] + be16(
                (19 + 12 * old(request_items)@.len() + datum_encoded(as_data_items(data_item@)).len()) as u16,
            ) + seq![0x02u8, 0xF0, 0x80, 0x32, 0x01, 0x00, 0x00, 0x00, 0x00] + be16(
                (2 + 12 * old(request_items)@.len()) as u16,
            ) + be16(datum_encoded(as_data_items(data_item@)).len() as u16) + seq![0x05u8, old(request_items)@.len() as u8]
                + items_encoded(old(request_items)@) + datum_encoded(as_data_items(data_item@)),
    {
        let ghost items_before = request_items@;
        let ghost data_before = data_item@;
        proof {
            lemma_items_encoded_len(old(request_items)@);
        }
        let mut s7data = Self {
            tpkt: TPKT::default(),
            cotp: Some(Cotp::CotpData(CotpData::default())),
            header: Some(S7Header::default()),
            parameter: Some(
                S7Parameter::ReadWriteParameter(ReadWriteParameter::new(S7FunctionCode::WriteVariable, request_items)),
            ),
            datum: Some(Datum::ReadWrite(ReadWriteDatum::new(data_item))),
        };
        s7data.self_check();
        assert(data_unit_byte(true, 0) == 0x80) by (bit_vector);
        assert(CotpData::spec_default().encoded() =~= seq![0x02u8, 0xF0, 0x80]);
        assert(s7data@.encoded() =~= seq![0x03u8, 0x00] + be16(
                (19 + 12 * items_before.len() + datum_encoded(as_data_items(data_before)).len()) as u16,
            ) + seq![0x02u8, 0xF0, 0x80, 0x32, 0x01, 0x00, 0x00, 0x00, 0x00] + be16(
                (2 + 12 * items_before.len()) as u16,
            ) + be16(datum_encoded(as_data_items(data_before)).len() as u16) + seq![0x05u8, items_before.len() as u8]
                + items_encoded(items_before) + datum_encoded(as_data_items(data_before)));
        s7data
    }

    /// User-data job reading SZL `szl_id`, index `szl_index`.
    pub fn create_szl_request(szl_id: u16, szl_index: u16) -> (r: Self)
        ensures
            r.encodable(),
            r@.tpkt.length == r@.encoded().len(),
            lengths_agree(r@),
            r.spec_byte_len() == r@.encoded().len(),
            r@ == (S7DataView {
                tpkt: TPKT { version: 3, reserved: 0, length: 33 },
                cotp: Some(Cotp::CotpData(CotpData::spec_default())),
                header: Some(S7Header {
                    parameter_length: 8,
                    data_length: 8,
                    ..S7Header::spec_new(S7MessageType::UserData, 0)
                }),
                parameter: Some(S7ParameterView::Szl(SzlParameter::spec_default())),
                datum: Some(DatumView::Szl(crate::datum::SzlDaumView {
                    return_code: crate::types::S7ReturnCode::Success,
                    transport_size: 0x09,
                    data_len: 0x0004,
                    szl_id,
                    szl_index,
                    partlist_byte_len: None,
                    partlist_count: None,
                    all_data: None,
                })),
            }),
            r@.encoded() == seq![
                0x03u8, 0x00, 0x00, 0x21, 0x02, 0xF0, 0x80, 0x32, 0x07, 0x00, 0x00, 0x00, 0x00, 0x00, 0x08, 0x00,
                0x08, 0x00, 0x01, 0x12, 0x04, 0x11, 0x44, 0x01, 0x00, 0xFF, 0x09, 0x00, 0x04,
            ] + be16(szl_id) + be16(szl_index),
    {
        let mut s7data = Self {
            tpkt: TPKT::default(),
            cotp: Some(Cotp::CotpData(CotpData::default())),
            header: Some(S7Header::new(S7MessageType::UserData, 0)),
            parameter: Some(S7Parameter::Szl(SzlParameter::default())),
            datum: Some(Datum::Szl(SzlDaum::new(szl_id, szl_index))),
        };
        s7data.self_check();
        assert(data_unit_byte(true, 0) == 0x80) by (bit_vector);
        assert(CotpData::spec_default().encoded() =~= seq![0x02u8, 0xF0, 0x80]);
        assert(s7data@.encoded() =~= seq![
            0x03u8, 0x00, 0x00, 0x21, 0x02, 0xF0, 0x80, 0x32, 0x07, 0x00, 0x00, 0x00, 0x00, 0x00, 0x08, 0x00,
            0x08, 0x00, 0x01, 0x12, 0x04, 0x11, 0x44, 0x01, 0x00, 0xFF, 0x09, 0x00, 0x04,
        ] + be16(szl_id) + be16(szl_index));
        s7data
    }
}

/// A data part that the decoder gives back for a message of type `mt` whose
/// parameters name function `fc`: an SZL record whose part-list fields are all
/// present or all absent; the data items of a read or write (not a write
/// acknowledgement); or the single result of a write acknowledgement.
pub open spec fn datum_wf(dv: DatumView, mt: S7MessageType, fc: S7FunctionCode) -> bool {
    match dv {
        DatumView::Szl(z) => fc == S7FunctionCode::CpuServices && (z.has_partlist() || (
        !(z.partlist_byte_len is Some) && !(z.partlist_count is Some) && !(z.all_data is Some))),
        DatumView::ReadWrite(items) => (fc == S7FunctionCode::ReadVariable || fc == S7FunctionCode::WriteVariable)
            && items.len() > 0 && if mt == S7MessageType::AckData && fc == S7FunctionCode::WriteVariable {
            items.len() == 1 && items[0] is Return
        } else {
            read_items_wf(items)
        },
    }
}

/// A frame that the decoder gives back: a well-formed COTP header; with no S7
/// header, nothing more; with one, a well-formed header whose lengths are those
/// of the parts that follow, a well-formed parameter part, and a data part only
/// when there are parameters, well formed for their function.
pub open spec fn frame_wf(v: S7DataView) -> bool {
    &&& v.cotp matches Some(c) && cotp_wf(c)
    &&& match v.header {
        None => v.parameter is None && v.datum is None,
        Some(h) => {
            &&& header_wf(h)
            &&& h.parameter_length == match v.parameter {
                Some(p) => p.encoded().len(),
                None => 0,
            }
            &&& h.data_length == match v.datum {
                Some(d) => d.encoded().len(),
                None => 0,
            }
            &&& v.parameter matches Some(p) ==> parameter_wf(p)
            &&& v.datum matches Some(d) ==> (v.parameter matches Some(p) && datum_wf(d, h.message_type, p.function_code()))
        },
    }
}

proof fn lemma_datum_roundtrip(dv: DatumView, mt: S7MessageType, fc: S7FunctionCode)
    requires
        datum_wf(dv, mt, fc),
    ensures
        dv.encoded().len() > 0,
        Datum::readable(dv.encoded(), mt, fc),
        Datum::from_wire(dv.encoded(), mt, fc) == Ok::<DatumView, ()>(dv),
{
    reveal(Datum::readable);
    reveal(Datum::from_wire);
    match dv {
        DatumView::Szl(z) => {
            lemma_szl_daum_roundtrip(z);
            assert(dv.encoded() == z.encoded());
            assert(SzlDaum::from_wire(dv.encoded()) == Ok::<SzlDaumView, ()>(z));
            assert(fc == S7FunctionCode::CpuServices);
            assert(Datum::readable(dv.encoded(), mt, fc));
            assert(Datum::from_wire(dv.encoded(), mt, fc) == Ok::<DatumView, ()>(DatumView::Szl(z)));
        },
        DatumView::ReadWrite(items) => {
            if mt == S7MessageType::AckData && fc == S7FunctionCode::WriteVariable {
                let r = items[0]->Return_0;
                assert(items =~= seq![S7ReturnItemView::Return(r)]);
                assert(items.drop_last() =~= Seq::<S7ReturnItemView>::empty());
                let d = datum_encoded(items);
                assert(d =~= r.encoded());
                lemma_return_item_roundtrip(r);
                let e = d.subrange(1, d.len() as int);
                assert(e =~= Seq::<u8>::empty());
                assert(rw_items_from_wire(e, true) == Ok::<Seq<S7ReturnItemView>, ()>(Seq::<S7ReturnItemView>::empty()));
                assert(rw_items_readable(e, true));
                assert(seq![S7ReturnItemView::Return(r)] + Seq::<S7ReturnItemView>::empty() =~= items);
                assert(rw_items_from_wire(d, true) == Ok::<Seq<S7ReturnItemView>, ()>(items));
                assert(rw_items_readable(d, true));
            } else {
                lemma_read_datum_roundtrip(items);
                let x = items.last();
                assert(items[items.len() - 1] == x);
                assert(x.encoded().len() >= 4);
                assert(!(mt == S7MessageType::AckData && fc == S7FunctionCode::WriteVariable));
            }
        },
    }
}

#[verifier::spinoff_prover]
#[verifier::rlimit(100)]
proof fn lemma_parts_roundtrip(v: S7DataView)
    requires
        frame_wf(v),
        v.header is Some,
    ensures
        ({
            let pe = match v.parameter {
                Some(p) => p.encoded(),
                None => Seq::<u8>::empty(),
            };
            let de = match v.datum {
                Some(x) => x.encoded(),
                None => Seq::<u8>::empty(),
            };
            let r2 = v.header.unwrap().encoded() + pe + de;
            &&& s7_parts_readable(r2)
            &&& s7_parts_from_wire(r2, S7DataView { header: None, parameter: None, datum: None, ..v }) == Ok::<S7DataView, ()>(v)
        }),
{
    reveal(s7_parts_readable);
    reveal(s7_parts_from_wire);
    let h = v.header.unwrap();
    let pe = match v.parameter {
        Some(p) => p.encoded(),
        None => Seq::<u8>::empty(),
    };
    let de = match v.datum {
        Some(x) => x.encoded(),
        None => Seq::<u8>::empty(),
    };
    let he = h.encoded();
    let r2 = he + pe + de;
    assert(r2 =~= he + (pe + de));
    lemma_header_roundtrip(h, pe + de);
    let hl = h.spec_byte_len() as int;
    let pl = h.parameter_length as int;
    let dl = h.data_length as int;
    assert(r2.subrange(hl, hl + pl) =~= pe);
    assert(r2.subrange(hl + pl, hl + pl + dl) =~= de);
    if let Some(p) = v.parameter {
        lemma_parameter_roundtrip(p);
    }
    if let Some(x) = v.datum {
        let p = v.parameter.unwrap();
        lemma_datum_roundtrip(x, h.message_type, p.function_code());
    }
}

/// Decoding the bytes of a well-formed frame gives the frame back.
#[verifier::spinoff_prover]
#[verifier::rlimit(100)]
pub proof fn lemma_s7data_roundtrip(v: S7DataView)
    requires
        frame_wf(v),
    ensures
        s7data_readable(v.encoded()),
        s7data_from_wire(v.encoded()) == Ok::<S7DataView, ()>(v),
{
    let d = v.encoded();
    let c = v.cotp.unwrap();
    let r = d.subrange(4, d.len() as int);
    lemma_cotp_roundtrip(c);
    assert(d.subrange(0, 4) =~= v.tpkt.encoded());
    crate::tpkt::lemma_tpkt_roundtrip(v.tpkt);
    assert(TPKT::from_wire(d) == TPKT::from_wire(v.tpkt.encoded()));
    match v.header {
        None => {
            assert(r =~= c.encoded());
        },
        Some(h) => {
            let pe = match v.parameter {
                Some(p) => p.encoded(),
                None => Seq::<u8>::empty(),
            };
            let de = match v.datum {
                Some(x) => x.encoded(),
                None => Seq::<u8>::empty(),
            };
            let rest = h.encoded() + pe + de;
            assert(r =~= c.encoded() + rest);
            lemma_cotp_prefix(c, rest);
            assert(r.subrange(c.spec_byte_len() as int, r.len() as int) =~= rest);
            lemma_parts_roundtrip(v);
        },
    }
}

/// Decoding a header that well-formed bytes follow gives the header, as if alone.
proof fn lemma_cotp_prefix(c: Cotp, rest: Seq<u8>)
    requires
        cotp_wf(c),
        rest.len() > 0,
    ensures
        Cotp::readable(c.encoded() + rest),
        Cotp::from_wire(c.encoded() + rest) == Ok::<Option<Cotp>, ()>(Some(c)),
{
    lemma_cotp_roundtrip(c);
    let d = c.encoded() + rest;
    let e = c.encoded();
    assert(d[0] == e[0] && d[1] == e[1]);
    match c {
        Cotp::CotpData(x) => {
            assert(d[2] == e[2]);
        },
        Cotp::CotpConnection(k) => {
            assert(d.subrange(0, 18) =~= e);
            assert(CotpConnection::read(d, k.pdu_type) == CotpConnection::read(e, k.pdu_type));
        },
    }
}

/// How a buffer of received bytes starts: `Some((n, tpkt))` when its first
/// frame is `n` bytes long (`tpkt` tells whether it starts with a TPKT header),
/// `None` when fewer than four bytes are there or a TPKT length is below 4.
pub open spec fn frame_start(b: Seq<u8>) -> Option<(int, bool)> {
    if b.len() < 4 {
        None
    } else if b[0] == 3 && b[1] == 0 {
        let len = from_be16(b[2], b[3]) as int;
        if len < 4 {
            None
        } else {
            Some((len, true))
        }
    } else {
        Some((1 + b[0] as int, false))
    }
}

/// The first frame of `b` as the upper layers see it: a frame that lacks a
/// TPKT header gets one in front.
pub open spec fn framed(b: Seq<u8>, n: int, tpkt: bool) -> Seq<u8> {
    if tpkt {
        b.subrange(0, n)
    } else {
        seq![3u8, 0u8] + be16((4 + n) as u16) + b.subrange(0, n)
    }
}

/// A frame that begins with a TPKT header holding its own length is cut
/// from the front of the received bytes exactly, whatever follows it.
pub proof fn lemma_frame_split(f: Seq<u8>, rest: Seq<u8>)
    requires
        f.len() >= 4,
        f[0] == 3,
        f[1] == 0,
        from_be16(f[2], f[3]) == f.len(),
    ensures
        frame_start(f + rest) == Some((f.len() as int, true)),
        framed(f + rest, f.len() as int, true) == f,
        (f + rest).subrange(f.len() as int, (f + rest).len() as int) == rest,
{
    assert((f + rest).subrange(0, f.len() as int) =~= f);
    assert((f + rest).subrange(f.len() as int, (f + rest).len() as int) =~= rest);
}

/// The bytes of a frame whose TPKT header is version 3 and holds the frame's
/// length are cut back out of the received bytes, whatever follows them.
pub proof fn lemma_sent_frame_split(v: S7DataView, rest: Seq<u8>)
    requires
        v.tpkt.version == 3,
        v.tpkt.reserved == 0,
        v.tpkt.length == v.encoded().len(),
    ensures
        frame_start(v.encoded() + rest) == Some((v.encoded().len() as int, true)),
        framed(v.encoded() + rest, v.encoded().len() as int, true) == v.encoded(),
{
    let f = v.encoded();
    assert(f[2] == be16(v.tpkt.length)[0] && f[3] == be16(v.tpkt.length)[1]);
    lemma_frame_split(f, rest);
}

/// Frames TPKT packets on a byte stream.
pub struct S7DataCodec;

impl S7DataCodec {
    /// Takes the first complete frame from `src`, if there is one; a TPKT
    /// length below 4 is an error.
    pub fn decode(&mut self, src: &mut BytesMut) -> (r: Result<Option<BytesMut>, S7Error>)
        ensures
            ({
                let b = bytes_of(*old(src));
                if b.len() < 4 {
                    r matches Ok(None) && bytes_of(*final(src)) == b
                } else {
                    match frame_start(b) {
                        None => r is Err && is_error_text(r->Err_0, "Invalid TPKT length"@) && bytes_of(*final(src))
                            == b,
                        Some((n, tpkt)) => if b.len() < n {
                            r matches Ok(None) && bytes_of(*final(src)) == b
                        } else {
                            r matches Ok(Some(f)) && bytes_of(f) == framed(b, n, tpkt) && bytes_of(*final(src))
                                == b.subrange(n, b.len() as int)
                        },
                    }
                }
            }),
    {
        let len = buf_len(src);
        if len < 4 {
            return Ok(None);
        }
        let b0 = buf_at(src, 0);
        let b1 = buf_at(src, 1);
        let has_tpkt = b0 == 0x03 && b1 == 0x00;
        let frame_len: usize = if has_tpkt {
            let hi = buf_at(src, 2) as u16;
            let lo = buf_at(src, 3) as u16;
            let tl: usize = (hi * 256 + lo) as usize;
            if tl < 4 {
                return Err(error_msg("Invalid TPKT length"));
            }
            tl
        } else {
            1 + b0 as usize
        };
        if len < frame_len {
            reserve(src, frame_len - len);
            return Ok(None);
        }
        let raw = split_to(src, frame_len);
        if !has_tpkt {
            let tpkt_total: usize = 4 + frame_len;
            let mut full: BytesMut = buf_with_capacity(tpkt_total);
            put_u8(&mut full, 0x03);
            put_u8(&mut full, 0x00);
            put_u16(&mut full, tpkt_total as u16);
            put_buf(&mut full, raw);
            assert(bytes_of(full) =~= framed(bytes_of(*old(src)), frame_len as int, false));
            Ok(Some(full))
        } else {
            Ok(Some(raw))
        }
    }

    /// Appends `data` to `dst`.
    pub fn encode(&mut self, data: Vec<u8>, dst: &mut BytesMut) -> (r: Result<(), S7Error>)
        requires
            fits(bytes_of(*old(dst)).len() + data@.len()),
        ensures
            r is Ok,
            bytes_of(*final(dst)) == bytes_of(*old(dst)) + data@,
    {
        reserve(dst, data.len());
        extend_from_slice(dst, data.as_slice());
        Ok(())
    }
}

} // verus!
