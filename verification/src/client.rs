//! Client-side logic: connection settings, the framing of received bytes,
//! the checks of the connection handshake and of responses, the layout of PLC
//! values and strings, and the reading of system status list (SZL) records.
use vstd::prelude::*;
use tokio_util::bytes::BytesMut;
use crate::buffer::{
    be16, be32, from_be32, buf_at, buf_len, buf_to_vec, buf_with_capacity, bytes_of, clear, extend_from_slice,
    fits, from_be16, put_buf, put_u16, put_u8, reserve, split_to,
};
use crate::cotp::Cotp;
use crate::datum::{Datum, DatumView};
use crate::error::{error_msg, is_error_text, S7Error};
use crate::item::{DataItem, DataItemView, S7ReturnItem, S7ReturnItemView};
use crate::packet::{frame_start, framed, S7Data, S7DataView};
use crate::paramter::{S7Parameter, S7ParameterView};
use crate::types::{PduType, PlcType, S7ErrorClass};
use vstd::utf8::{decode_utf8, valid_utf8};
use crate::text::dec_digits;

verus! {

/// S7 connection configuration.
#[derive(Debug, Clone)]
pub struct S7Config {
    /// Host address.
    pub host: String,
    /// Port (default 102).
    pub port: u16,
    /// PLC type.
    pub plc_type: PlcType,
    /// Connection type (PG/OP/S7).
    pub connection_type: u8,
    /// Rack number.
    pub rack: u8,
    /// Slot number.
    pub slot: u8,
    /// Timeout in milliseconds.
    pub timeout_ms: u64,
    /// Maximum PDU size.
    pub max_pdu_size: u16,
    /// Whether to reconnect after the connection is lost.
    pub auto_reconnect: bool,
}

/// The settings of a configuration for host `host`, apart from the host.
pub open spec fn default_settings(c: S7Config) -> bool {
    &&& c.port == 102
    &&& c.plc_type == PlcType::S1200
    &&& c.connection_type == 0x01
    &&& c.rack == 0
    &&& c.slot == 2
    &&& c.timeout_ms == 5000
    &&& c.max_pdu_size == 960
    &&& !c.auto_reconnect
}

/// A default configuration talks to port 102 (ISO-on-TCP) as a PG
/// connection (type 01) with an S7-1200 in rack 0, slot 2, waits 5000 ms,
/// proposes a PDU of 960 bytes and does not reconnect.
pub proof fn lemma_default_settings(c: S7Config)
    requires
        default_settings(c),
    ensures
        c.port == 102,
        c.plc_type == PlcType::S1200,
        c.connection_type == 0x01,
        c.rack == 0,
        c.slot == 2,
        c.timeout_ms == 5000,
        c.max_pdu_size == 960,
        c.auto_reconnect == false,
{
}

impl Default for S7Config {
    fn default() -> (r: Self)
        ensures
            r.host@ == "127.0.0.1"@,
            default_settings(r),
    {
        Self {
            host: String::from_str("127.0.0.1"),
            port: 102,
            plc_type: PlcType::S1200,
            connection_type: 0x01,
            rack: 0,
            slot: 2,
            timeout_ms: 5000,
            max_pdu_size: 960,
            auto_reconnect: false,
        }
    }
}

impl S7Config {
    /// Default settings for host `host`.
    pub fn new(host: &str) -> (r: Self)
        ensures
            r.host@ == host@,
            default_settings(r),
    {
        Self { host: String::from_str(host), ..Default::default() }
    }

    /// Sets the PLC type, and the rack and slot that it usually has.
    pub fn with_plc_type(self, plc_type: PlcType) -> (r: Self)
        ensures
            r == (S7Config {
                plc_type,
                rack: plc_type.default_rack_slot().0,
                slot: plc_type.default_rack_slot().1,
                ..self
            }),
    {
        let mut c = self;
        let (rack, slot) = plc_type.default_rack_slot();
        c.plc_type = plc_type;
        c.rack = rack;
        c.slot = slot;
        c
    }

    /// Sets rack and slot.
    pub fn with_rack_slot(self, rack: u8, slot: u8) -> (r: Self)
        ensures
            r == (S7Config { rack, slot, ..self }),
    {
        let mut c = self;
        c.rack = rack;
        c.slot = slot;
        c
    }

    /// Sets the connection type.
    pub fn with_connection_type(self, conn_type: u8) -> (r: Self)
        ensures
            r == (S7Config { connection_type: conn_type, ..self }),
    {
        let mut c = self;
        c.connection_type = conn_type;
        c
    }

    /// Sets the port.
    pub fn with_port(self, port: u16) -> (r: Self)
        ensures
            r == (S7Config { port, ..self }),
    {
        let mut c = self;
        c.port = port;
        c
    }

    /// Sets the timeout.
    pub fn with_timeout(self, timeout_ms: u64) -> (r: Self)
        ensures
            r == (S7Config { timeout_ms, ..self }),
    {
        let mut c = self;
        c.timeout_ms = timeout_ms;
        c
    }

    /// Sets whether to reconnect.
    pub fn with_auto_reconnect(self, auto_reconnect: bool) -> (r: Self)
        ensures
            r == (S7Config { auto_reconnect, ..self }),
    {
        let mut c = self;
        c.auto_reconnect = auto_reconnect;
        c
    }

    /// The local and remote TSAPs of the connection request: fixed pairs for
    /// the 200 families and the Sinumerik, otherwise 0x0100 and 0x0300 plus
    /// 32 times the rack plus the slot.
    pub open spec fn spec_tsap_pair(&self) -> (u16, u16) {
        match self.plc_type {
            PlcType::S200 => (0x4D57, 0x4D57),
            PlcType::S200Smart => (0x1000, 0x3000),
            PlcType::Sinumerik828D => (0x0400, 0x0D04),
            _ => (0x0100, (0x0300 + 0x20 * self.rack + self.slot) as u16),
        }
    }

    #[verifier::when_used_as_spec(spec_tsap_pair)]
    pub fn tsap_pair(&self) -> (r: (u16, u16))
        requires
            !(self.plc_type is S200 || self.plc_type is S200Smart || self.plc_type is Sinumerik828D) ==> 0x20
                * self.rack + self.slot <= u8::MAX,
        ensures
            r == self.spec_tsap_pair(),
    {
        match self.plc_type {
            PlcType::S200 => (0x4D57, 0x4D57),
            PlcType::S200Smart => (0x1000, 0x3000),
            PlcType::Sinumerik828D => (0x0400, 0x0D04),
            _ => (0x0100, 0x0300 + (0x20 * self.rack + self.slot) as u16),
        }
    }
}

impl S7Config {
    /// The TSAPs of the connection request: 4D57/4D57 for the S7-200,
    /// 1000/3000 for the S7-200 Smart, 0400/0D04 for the Sinumerik 828D, and
    /// otherwise local 0100 and remote 0300 + 32 * rack + slot (hexadecimal
    /// constants). A configuration set to a PLC family addresses that family's
    /// usual CPU slot: remote TSAP 0301 for the S7-1200 and S7-1500, 0302 for
    /// the S7-300 and 0303 for the S7-400.
    pub proof fn lemma_tsap_pairs(c: S7Config, t: PlcType)
        ensures
            c.plc_type == PlcType::S200 ==> c.spec_tsap_pair() == (0x4D57u16, 0x4D57u16),
            c.plc_type == PlcType::S200Smart ==> c.spec_tsap_pair() == (0x1000u16, 0x3000u16),
            c.plc_type == PlcType::Sinumerik828D ==> c.spec_tsap_pair() == (0x0400u16, 0x0D04u16),
            !(c.plc_type == PlcType::S200 || c.plc_type == PlcType::S200Smart || c.plc_type
                == PlcType::Sinumerik828D) && 32 * c.rack + c.slot <= 255 ==> c.spec_tsap_pair().0 == 0x0100
                && c.spec_tsap_pair().1 == 0x0300 + 32 * c.rack + c.slot,
            ({
                let d = S7Config {
                    plc_type: t,
                    rack: t.spec_default_rack_slot().0,
                    slot: t.spec_default_rack_slot().1,
                    ..c
                };
                &&& (t == PlcType::S1200 || t == PlcType::S1500) ==> d.spec_tsap_pair() == (0x0100u16, 0x0301u16)
                &&& t == PlcType::S300 ==> d.spec_tsap_pair() == (0x0100u16, 0x0302u16)
                &&& t == PlcType::S400 ==> d.spec_tsap_pair() == (0x0100u16, 0x0303u16)
            }),
    {
        PlcType::lemma_rack_slots();
    }
}

/// S7 connection state.
#[derive(Debug, Clone, Copy, PartialEq, Eq, Structural)]
pub enum ConnectionState {
    /// Not connected.
    Disconnected,
    /// Connecting.
    Connecting,
    /// Connected but not negotiated.
    Connected,
    /// Connection established and negotiated.
    Negotiated,
    /// Communicating.
    Communicating,
}

/// Splits received bytes into frames.
pub struct FrameDecoder {
    buffer: BytesMut,
}

impl FrameDecoder {
    /// The received bytes not yet taken as frames.
    pub closed spec fn pending(&self) -> Seq<u8> {
        bytes_of(self.buffer)
    }

    pub fn new() -> (r: Self)
        ensures
            r.pending() == Seq::<u8>::empty(),
    {
        Self { buffer: buf_with_capacity(4096) }
    }

    /// How many received bytes are not yet taken as frames.
    pub fn pending_len(&self) -> (r: usize)
        ensures
            r == self.pending().len(),
    {
        buf_len(&self.buffer)
    }

    /// Adds received bytes.
    pub fn extend_from_slice(&mut self, data: &[u8])
        requires
            fits(old(self).pending().len() + data@.len()),
        ensures
            final(self).pending() == old(self).pending() + data@,
    {
        extend_from_slice(&mut self.buffer, data);
    }

    /// Takes the first complete frame, if there is one. A TPKT length below 4
    /// drops everything received.
    pub fn try_decode(&mut self) -> (r: Option<Vec<u8>>)
        ensures
            ({
                let b = old(self).pending();
                match frame_start(b) {
                    None => r is None && final(self).pending() == if b.len() < 4 {
                        b
                    } else {
                        Seq::<u8>::empty()
                    },
                    Some((n, tpkt)) => if b.len() < n {
                        r is None && final(self).pending() == b
                    } else {
                        r matches Some(f) && f@ == framed(b, n, tpkt) && final(self).pending()
                            == b.subrange(n, b.len() as int)
                    },
                }
            }),
    {
        let len = buf_len(&self.buffer);
        if len < 4 {
            return None;
        }
        let b0 = buf_at(&self.buffer, 0);
        let b1 = buf_at(&self.buffer, 1);
        let (frame_len, has_tpkt) = if b0 == 0x03 && b1 == 0x00 {
            let hi = buf_at(&self.buffer, 2) as u16;
            let lo = buf_at(&self.buffer, 3) as u16;
            let tl: usize = (hi * 256 + lo) as usize;
            if tl < 4 {
                clear(&mut self.buffer);
                return None;
            }
            (tl, true)
        } else {
            (1 + b0 as usize, false)
        };
        if len < frame_len {
            reserve(&mut self.buffer, frame_len - len);
            return None;
        }
        let raw = split_to(&mut self.buffer, frame_len);
        if !has_tpkt {
            let tpkt_len: usize = 4 + frame_len;
            let mut full: BytesMut = buf_with_capacity(tpkt_len);
            put_u8(&mut full, 0x03);
            put_u8(&mut full, 0x00);
            put_u16(&mut full, tpkt_len as u16);
            put_buf(&mut full, raw);
            let f = buf_to_vec(&full);
            assert(f@ =~= framed(old(self).pending(), frame_len as int, false));
            Some(f)
        } else {
            Some(buf_to_vec(&raw))
        }
    }

    /// Drops everything received.
    pub fn clear(&mut self)
        ensures
            final(self).pending() == Seq::<u8>::empty(),
    {
        clear(&mut self.buffer);
    }
}

/// The name of an error class, as its variant is written.
pub open spec fn class_name(c: S7ErrorClass) -> Seq<char> {
    match c {
        S7ErrorClass::NoError => "NoError"@,
        S7ErrorClass::ApplicationRelationship => "ApplicationRelationship"@,
        S7ErrorClass::ObjectDefinition => "ObjectDefinition"@,
        S7ErrorClass::NoResourcesAvailable => "NoResourcesAvailable"@,
        S7ErrorClass::ErrorOnServiceProcessing => "ErrorOnServiceProcessing"@,
        S7ErrorClass::ErrorOnSupplies => "ErrorOnSupplies"@,
        S7ErrorClass::AccessError => "AccessError"@,
        S7ErrorClass::DownloadError => "DownloadError"@,
    }
}

/// An optional error class written out: `None`, or `Some(` and the class name and `)`.
pub open spec fn class_debug(c: Option<S7ErrorClass>) -> Seq<char> {
    match c {
        None => "None"@,
        Some(k) => "Some("@ + class_name(k) + seq![')'],
    }
}

/// The message that reports an error class and code after `prefix`:
/// `prefix: class=<class>, code=<code in decimal>`.
pub open spec fn class_message(prefix: Seq<char>, class: Option<S7ErrorClass>, code: u8) -> Seq<char> {
    prefix + ": class="@ + class_debug(class) + ", code="@ + dec_digits(code as nat)
}

fn class_name_str(c: S7ErrorClass) -> (r: &'static str)
    ensures
        r@ == class_name(c),
{
    match c {
        S7ErrorClass::NoError => "NoError",
        S7ErrorClass::ApplicationRelationship => "ApplicationRelationship",
        S7ErrorClass::ObjectDefinition => "ObjectDefinition",
        S7ErrorClass::NoResourcesAvailable => "NoResourcesAvailable",
        S7ErrorClass::ErrorOnServiceProcessing => "ErrorOnServiceProcessing",
        S7ErrorClass::ErrorOnSupplies => "ErrorOnSupplies",
        S7ErrorClass::AccessError => "AccessError",
        S7ErrorClass::DownloadError => "DownloadError",
    }
}

/// The message that reports an error class and code; see `class_message`.
pub fn class_error_text(prefix: &str, class: Option<S7ErrorClass>, code: u8) -> (r: String)
    ensures
        r@ == class_message(prefix@, class, code),
{
    let mut s = String::from_str(prefix);
    s.append(": class=");
    match class {
        None => {
            s.append("None");
        },
        Some(k) => {
            s.append("Some(");
            s.append(class_name_str(k));
            crate::text::string_push(&mut s, ')');
        },
    }
    s.append(", code=");
    crate::text::push_decimal(&mut s, code as u64);
    assert(s@ =~= class_message(prefix@, class, code));
    s
}

/// Whether a header reports an error: both error fields present and the class
/// other than "no error".
pub open spec fn header_reports_error(h: crate::header::S7Header) -> bool {
    h.error_class is Some && h.error_code is Some && h.error_class.unwrap() != S7ErrorClass::NoError
}

/// Refuses a response whose header reports an error.
pub fn check_response(resp: &S7Data) -> (r: Result<(), S7Error>)
    ensures
        r is Err <==> reports_error(resp@),
        r is Err ==> (r matches Err(S7Error::Error(m)) && m@ == response_error_text(resp@, "Response error"@)),
{
    if let Some(h) = &resp.header {
        if let (Some(class), Some(code)) = (h.error_class, h.error_code) {
            if class != S7ErrorClass::NoError {
                return Err(S7Error::Error(class_error_text("Response error", h.error_class, code)));
            }
        }
    }
    Ok(())
}

/// The message that refuses a response whose header reports an error.
pub open spec fn response_error_text(resp: S7DataView, prefix: Seq<char>) -> Seq<char> {
    class_message(prefix, resp.header->0.error_class, resp.header->0.error_code->0)
}

/// Whether a frame's header, if it has one, reports an error.
pub open spec fn reports_error(resp: S7DataView) -> bool {
    match resp.header {
        Some(h) => header_reports_error(h),
        None => false,
    }
}

/// Whether the answer to a connection request accepts it: no error is
/// reported and the COTP header is a connect confirm.
pub open spec fn connect_confirmed(resp: S7DataView) -> bool {
    !reports_error(resp) && match resp.cotp {
        Some(c) => c.pdu_type() == PduType::ConnectConfirm,
        None => false,
    }
}

/// The PDU length that the answer to a setup request grants: it reports no
/// error and carries a data COTP header, an S7 header and setup parameters.
pub open spec fn granted_pdu_length(resp: S7DataView) -> Option<u16> {
    if reports_error(resp) {
        None
    } else {
        match (resp.cotp, resp.header, resp.parameter) {
            (Some(c), Some(h), Some(S7ParameterView::SetupParameter(s))) => if c.pdu_type() == PduType::DtData {
                Some(s.pdu_length)
            } else {
                None
            },
            _ => None,
        }
    }
}

/// The message that refuses the answer to a setup request, for the first of
/// its faults: a reported error, a missing or non-data COTP header, a missing
/// header, missing or other parameters.
pub open spec fn setup_error_text(resp: S7DataView) -> Seq<char> {
    if reports_error(resp) {
        response_error_text(resp, "Response error"@)
    } else if resp.cotp is None {
        "Missing COTP in setup response"@
    } else if resp.cotp->0.pdu_type() != PduType::DtData {
        "Setup response COTP type error"@
    } else if resp.header is None {
        "Missing header in setup response"@
    } else if resp.parameter is None {
        "Missing parameter in setup response"@
    } else {
        "Setup parameter type mismatch"@
    }
}

/// The answer to a connection request: accepted when it reports no error and
/// its COTP header is a connect confirm.
pub fn check_connect_confirm(resp: &S7Data) -> (r: Result<(), S7Error>)
    ensures
        r is Ok <==> connect_confirmed(resp@),
        r is Err ==> (r matches Err(S7Error::Error(m)) && m@ == if reports_error(resp@) {
            response_error_text(resp@, "Response error"@)
        } else if resp@.cotp is None {
            "Missing COTP in response"@
        } else {
            "COTP connection refused"@
        }),
{
    check_response(resp)?;
    let cotp = match &resp.cotp {
        Some(c) => c,
        None => {
            return Err(error_msg("Missing COTP in response"));
        },
    };
    if cotp.pdu_type() != PduType::ConnectConfirm {
        return Err(error_msg("COTP connection refused"));
    }
    Ok(())
}

/// The PDU length that the answer to a setup request grants: it must report
/// no error, carry a data COTP header, an S7 header and setup parameters.
pub fn negotiated_pdu_length(resp: &S7Data) -> (r: Result<u16, S7Error>)
    ensures
        match r {
            Ok(n) => granted_pdu_length(resp@) == Some(n),
            Err(e) => granted_pdu_length(resp@) is None && (e matches S7Error::Error(m) && m@ == setup_error_text(
                resp@,
            )),
        },
{
    check_response(resp)?;
    let setup_cotp = match &resp.cotp {
        Some(c) => c,
        None => {
            return Err(error_msg("Missing COTP in setup response"));
        },
    };
    if setup_cotp.pdu_type() != PduType::DtData {
        return Err(error_msg("Setup response COTP type error"));
    }
    match &resp.header {
        Some(h) => {
            if let (Some(class), Some(code)) = (h.error_class, h.error_code) {
                if class != S7ErrorClass::NoError {
                    return Err(S7Error::Error(class_error_text("Setup failed", h.error_class, code)));
                }
            }
        },
        None => {
            return Err(error_msg("Missing header in setup response"));
        },
    }
    match &resp.parameter {
        None => Err(error_msg("Missing parameter in setup response")),
        Some(S7Parameter::SetupParameter(s)) => Ok(s.pdu_length),
        Some(_) => Err(error_msg("Setup parameter type mismatch")),
    }
}

/// Refuses a request whose S7 part (the frame without its 7 TPKT and COTP
/// bytes) is longer than the negotiated PDU length; the message names a write
/// request or a read request.
pub fn check_pdu_limit(frame_len: usize, pdu_limit: u16, is_write: bool) -> (r: Result<(), S7Error>)
    requires
        frame_len >= 7,
    ensures
        r is Ok <==> frame_len - 7 <= pdu_limit,
        r matches Err(e) ==> is_error_text(
            e,
            if is_write {
                "Write request exceeds PDU limit"@
            } else {
                "Read request exceeds PDU limit"@
            },
        ),
{
    if frame_len - 7 > pdu_limit as usize {
        if is_write {
            return Err(error_msg("Write request exceeds PDU limit"));
        }
        return Err(error_msg("Read request exceeds PDU limit"));
    }
    Ok(())
}

/// The data items of a response whose data part holds the items of a read,
/// in order; write results among them are left out.
pub open spec fn data_items_in(items: Seq<S7ReturnItemView>) -> Seq<DataItemView>
    decreases items.len(),
{
    if items.len() == 0 {
        Seq::<DataItemView>::empty()
    } else {
        let prev = data_items_in(items.drop_last());
        match items.last() {
            S7ReturnItemView::Data(d) => prev.push(d),
            S7ReturnItemView::Return(_) => prev,
        }
    }
}

/// The views of a sequence of data items.
pub open spec fn data_item_views(v: Seq<DataItem>) -> Seq<DataItemView> {
    v.map_values(|d: DataItem| d@)
}

/// The data items of a read response.
pub fn read_response_items(resp: &S7Data) -> (r: Result<Vec<DataItem>, S7Error>)
    ensures
        match r {
            Ok(v) => resp@.datum matches Some(DatumView::ReadWrite(items)) && data_item_views(v@)
                == data_items_in(items),
            Err(e) => !(resp@.datum matches Some(DatumView::ReadWrite(_))) && (e matches S7Error::Error(m) && m@
                == "No data in read response"@),
        },
{
    if let Some(Datum::ReadWrite(datum)) = &resp.datum {
        let mut data_items: Vec<DataItem> = Vec::new();
        let n = datum.return_items.len();
        for i in 0..n
            invariant
                n == datum.return_items@.len(),
                data_item_views(data_items@) == data_items_in(datum@.take(i as int)),
        {
            assert(datum@.take(i + 1).drop_last() =~= datum@.take(i as int));
            let ghost before = data_item_views(data_items@);
            if let S7ReturnItem::Data(di) = &datum.return_items[i] {
                data_items.push(di.clone_item());
                assert(data_item_views(data_items@) =~= before.push(di@));
            }
        }
        assert(datum@.take(n as int) =~= datum@);
        Ok(data_items)
    } else {
        Err(error_msg("No data in read response"))
    }
}

/// The data of the first item of a read, as `read_bytes` returns it.
pub fn first_item_data(items: Vec<DataItem>) -> (r: Result<Vec<u8>, S7Error>)
    ensures
        match r {
            Ok(v) => items@.len() > 0 && v@ == items@[0].data@,
            Err(e) => items@.len() == 0 && (e matches S7Error::Error(m) && m@ == "read_bytes: no data item returned"@),
        },
{
    let mut items = items;
    if items.len() == 0 {
        return Err(error_msg("read_bytes: no data item returned"));
    }
    let first = items.remove(0);
    Ok(first.data)
}

/// The first byte of a read, as `read_byte` returns it.
pub fn first_byte(bytes: &Vec<u8>) -> (r: Result<u8, S7Error>)
    ensures
        match r {
            Ok(b) => bytes@.len() > 0 && b == bytes@[0],
            Err(e) => bytes@.len() == 0 && (e matches S7Error::Error(m) && m@ == "read_byte: empty response"@),
        },
{
    if bytes.len() == 0 {
        return Err(error_msg("read_byte: empty response"));
    }
    Ok(bytes[0])
}

/// The bit that a bit read returns: the lowest bit of the first byte of the
/// first item.
pub fn bool_from_items(items: &Vec<DataItem>) -> (r: Result<bool, S7Error>)
    ensures
        match r {
            Ok(b) => items@.len() > 0 && items@[0].data@.len() > 0 && b == (items@[0].data@[0] & 1 != 0),
            Err(e) => (items@.len() == 0 || items@[0].data@.len() == 0) && (e matches S7Error::Error(m) && m@
                == "read_bool: empty response"@),
        },
{
    if items.len() == 0 || items[0].data.len() == 0 {
        return Err(error_msg("read_bool: empty response"));
    }
    let byte = items[0].data[0];
    assert((byte & 0xFF) & 1 == byte & 1) by (bit_vector);
    Ok((byte & 0xFF) & 1 != 0)
}

/// Big-endian encoding of a 64-bit value.
pub open spec fn be64(v: u64) -> Seq<u8> {
    be32((v / 0x1_0000_0000) as u32) + be32((v % 0x1_0000_0000) as u32)
}

/// The 64-bit value whose big-endian encoding is the first eight bytes of `b`.
pub open spec fn from_be64(b: Seq<u8>) -> u64 {
    (from_be32(b[0], b[1], b[2], b[3]) as int * 0x1_0000_0000 + from_be32(b[4], b[5], b[6], b[7]) as int) as u64
}

/// The unsigned 16-bit value in the first two bytes, most significant first.
pub fn u16_from_be(bytes: &[u8]) -> (r: u16)
    requires
        bytes@.len() >= 2,
    ensures
        r == from_be16(bytes@[0], bytes@[1]),
{
    (bytes[0] as u16) * 256 + bytes[1] as u16
}

/// The signed 16-bit value in the first two bytes, most significant first.
pub fn i16_from_be(bytes: &[u8]) -> (r: i16)
    requires
        bytes@.len() >= 2,
    ensures
        r == from_be16(bytes@[0], bytes@[1]) as i16,
{
    u16_from_be(bytes) as i16
}

/// The unsigned 32-bit value in the first four bytes, most significant first.
pub fn u32_from_be(bytes: &[u8]) -> (r: u32)
    requires
        bytes@.len() >= 4,
    ensures
        r == from_be32(bytes@[0], bytes@[1], bytes@[2], bytes@[3]),
{
    (bytes[0] as u32) * 0x1000000 + (bytes[1] as u32) * 0x10000 + (bytes[2] as u32) * 256 + bytes[3] as u32
}

/// The signed 32-bit value in the first four bytes, most significant first.
pub fn i32_from_be(bytes: &[u8]) -> (r: i32)
    requires
        bytes@.len() >= 4,
    ensures
        r == from_be32(bytes@[0], bytes@[1], bytes@[2], bytes@[3]) as i32,
{
    u32_from_be(bytes) as i32
}

/// The unsigned 64-bit value in the first eight bytes, most significant first.
pub fn u64_from_be(bytes: &[u8]) -> (r: u64)
    requires
        bytes@.len() >= 8,
    ensures
        r == from_be64(bytes@),
{
    let hi = u32_from_be(bytes) as u64;
    let lo = u32_from_be(&bytes[4..8]) as u64;
    hi * 0x1_0000_0000 + lo
}

/// The signed 64-bit value in the first eight bytes, most significant first.
pub fn i64_from_be(bytes: &[u8]) -> (r: i64)
    requires
        bytes@.len() >= 8,
    ensures
        r == from_be64(bytes@) as i64,
{
    u64_from_be(bytes) as i64
}

/// The two bytes of `v`, most significant first.
pub fn u16_to_be(v: u16) -> (r: Vec<u8>)
    ensures
        r@ == be16(v),
{
    let r = vec![(v / 256) as u8, (v % 256) as u8];
    assert(r@ =~= be16(v));
    r
}

/// The two bytes of `v` in two's complement, most significant first.
pub fn i16_to_be(v: i16) -> (r: Vec<u8>)
    ensures
        r@ == be16(v as u16),
{
    u16_to_be(v as u16)
}

/// The four bytes of `v`, most significant first.
pub fn u32_to_be(v: u32) -> (r: Vec<u8>)
    ensures
        r@ == be32(v),
{
    let r = vec![(v / 0x1000000) as u8, ((v / 0x10000) % 256) as u8, ((v / 256) % 256) as u8, (v % 256) as u8];
    assert(r@ =~= be32(v));
    r
}

/// The four bytes of `v` in two's complement, most significant first.
pub fn i32_to_be(v: i32) -> (r: Vec<u8>)
    ensures
        r@ == be32(v as u32),
{
    u32_to_be(v as u32)
}

/// The eight bytes of `v`, most significant first.
pub fn u64_to_be(v: u64) -> (r: Vec<u8>)
    ensures
        r@ == be64(v),
{
    let mut r = u32_to_be((v / 0x1_0000_0000) as u32);
    let lo = u32_to_be((v % 0x1_0000_0000) as u32);
    r.extend_from_slice(lo.as_slice());
    assert(r@ =~= be64(v));
    r
}

/// The eight bytes of `v` in two's complement, most significant first.
pub fn i64_to_be(v: i64) -> (r: Vec<u8>)
    ensures
        r@ == be64(v as u64),
{
    u64_to_be(v as u64)
}

/// Reading back the bytes of a 16-bit value gives the value.
pub proof fn lemma_u16_be_roundtrip(v: u16)
    ensures
        from_be16(be16(v)[0], be16(v)[1]) == v,
{
}

/// Reading back the bytes of a 32-bit value gives the value.
pub proof fn lemma_u32_be_roundtrip(v: u32)
    ensures
        from_be32(be32(v)[0], be32(v)[1], be32(v)[2], be32(v)[3]) == v,
{
}

/// Reading back the bytes of a 64-bit value gives the value.
pub proof fn lemma_u64_be_roundtrip(v: u64)
    ensures
        from_be64(be64(v)) == v,
{
    let hi = (v / 0x1_0000_0000) as u32;
    let lo = (v % 0x1_0000_0000) as u32;
    lemma_u32_be_roundtrip(hi);
    lemma_u32_be_roundtrip(lo);
    assert(be64(v).subrange(0, 4) =~= be32(hi));
    assert(be64(v).subrange(4, 8) =~= be32(lo));
}

/// `String::from_utf8_lossy`, the result as characters.
pub uninterp spec fn utf8_lossy_of(b: Seq<u8>) -> Seq<char>;

/// `String::from_utf8_lossy`, owned: valid UTF-8 is decoded, invalid
/// sequences become replacement characters.
#[verifier::external_body]
pub(crate) fn utf8_lossy(b: &[u8]) -> (r: String)
    ensures
        r@ == utf8_lossy_of(b@),
        valid_utf8(b@) ==> r@ == decode_utf8(b@),
{
    String::from_utf8_lossy(b).into_owned()
}

/// The characters that UTF-16 code units stand for: a unit outside the
/// surrogate range is that character; a high surrogate (D800-DBFF) followed by
/// a low surrogate (DC00-DFFF) is the character 10000 + 400 * (high - D800) +
/// (low - DC00), in hexadecimal; any other surrogate makes the units invalid
/// (`None`).
pub open spec fn utf16_decode(units: Seq<u16>) -> Option<Seq<char>>
    decreases units.len(),
{
    if units.len() == 0 {
        Some(Seq::<char>::empty())
    } else {
        let u = units[0];
        if u < 0xD800 || u > 0xDFFF {
            match utf16_decode(units.drop_first()) {
                Some(rest) => Some(seq![(u as u32) as char] + rest),
                None => None,
            }
        } else if u <= 0xDBFF && units.len() >= 2 && 0xDC00 <= units[1] <= 0xDFFF {
            let c = (0x10000 + (u - 0xD800) * 0x400 + (units[1] - 0xDC00)) as u32;
            match utf16_decode(units.subrange(2, units.len() as int)) {
                Some(rest) => Some(seq![c as char] + rest),
                None => None,
            }
        } else {
            None
        }
    }
}

/// `String::from_utf16`: `None` when the units are not valid UTF-16.
#[verifier::external_body]
fn utf16_to_string(units: &[u16]) -> (r: Option<String>)
    ensures
        match r {
            Some(s) => utf16_decode(units@) == Some(s@),
            None => utf16_decode(units@) is None,
        },
{
    String::from_utf16(units).ok()
}

/// The UTF-16 code units of one character: the character itself below 10000
/// (hexadecimal), else the surrogate pair D800 + (c - 10000) / 400,
/// DC00 + (c - 10000) % 400.
pub open spec fn char_utf16(c: char) -> Seq<u16> {
    let u = c as u32;
    if u < 0x10000 {
        seq![u as u16]
    } else {
        seq![(0xD800 + (u - 0x10000) / 0x400) as u16, (0xDC00 + (u - 0x10000) % 0x400) as u16]
    }
}

/// The UTF-16 code units of text, character after character.
pub open spec fn utf16_encode(s: Seq<char>) -> Seq<u16>
    decreases s.len(),
{
    if s.len() == 0 {
        Seq::<u16>::empty()
    } else {
        utf16_encode(s.drop_last()) + char_utf16(s.last())
    }
}

proof fn lemma_utf16_encode_first(s: Seq<char>)
    requires
        s.len() > 0,
    ensures
        utf16_encode(s) == char_utf16(s[0]) + utf16_encode(s.drop_first()),
    decreases s.len(),
{
    if s.len() > 1 {
        lemma_utf16_encode_first(s.drop_last());
        assert(s.drop_last().drop_first() =~= s.drop_first().drop_last());
    } else {
        assert(s.drop_first() =~= Seq::<char>::empty());
        assert(s.drop_last() =~= Seq::<char>::empty());
    }
}

proof fn lemma_utf16_decode_char(c: char, rest: Seq<u16>)
    ensures
        utf16_decode(char_utf16(c) + rest) == match utf16_decode(rest) {
            Some(r) => Some(seq![c] + r),
            None => None::<Seq<char>>,
        },
{
    let u = c as u32;
    vstd::utf8::char_is_scalar(c);
    vstd::utf8::char_u32_cast(c, u);
    let units = char_utf16(c) + rest;
    if u < 0x10000 {
        assert(((u as u16) as u32) == u) by (bit_vector)
            requires
                u < 0x10000,
        ;
        assert(units.drop_first() =~= rest);
    } else {
        let v = (u - 0x10000) as u32;
        let hi = (0xD800 + v / 0x400) as u16;
        let lo = (0xDC00 + v % 0x400) as u16;
        assert(0xD800 <= hi <= 0xDBFF && 0xDC00 <= lo <= 0xDFFF && (0x10000 + (hi - 0xD800) * 0x400 + (lo
            - 0xDC00)) as u32 == u) by (bit_vector)
            requires
                0x10000 <= u <= 0x10FFFF,
                v == u - 0x10000,
                hi == (0xD800 + v / 0x400) as u16,
                lo == (0xDC00 + v % 0x400) as u16,
        ;
        assert(units[0] == hi && units[1] == lo);
        assert(units.subrange(2, units.len() as int) =~= rest);
    }
}

/// Text written as UTF-16 code units reads back as the same text.
pub proof fn lemma_utf16_roundtrip(s: Seq<char>)
    ensures
        utf16_decode(utf16_encode(s)) == Some(s),
    decreases s.len(),
{
    if s.len() == 0 {
        assert(utf16_encode(s) =~= Seq::<u16>::empty());
    } else {
        lemma_utf16_encode_first(s);
        lemma_utf16_roundtrip(s.drop_first());
        lemma_utf16_decode_char(s[0], utf16_encode(s.drop_first()));
        assert(seq![s[0]] + s.drop_first() =~= s);
    }
}

/// `str::encode_utf16`, collected into a vector.
#[verifier::external_body]
fn utf16_units(s: &str) -> (r: Vec<u16>)
    ensures
        r@ == utf16_encode(s@),
{
    s.encode_utf16().collect()
}

/// The characters of ISO-8859-1 (Latin-1) bytes: each byte is the character
/// with that code.
pub open spec fn latin1_chars(b: Seq<u8>) -> Seq<char> {
    Seq::new(b.len(), |i: int| b[i] as char)
}

/// The text of a STRING read: its actual length is byte 1, its characters
/// follow from byte 2, one ISO-8859-1 character per byte.
pub fn decode_string(bytes: &Vec<u8>) -> (r: Result<String, S7Error>)
    ensures
        match r {
            Ok(s) => bytes@.len() >= 2 && bytes@.len() >= 2 + bytes@[1] && s@ == latin1_chars(
                bytes@.subrange(2, 2 + bytes@[1] as int),
            ),
            Err(e) => (bytes@.len() < 2 || bytes@.len() < 2 + bytes@[1]) && (e matches S7Error::Error(m) && m@
                == if bytes@.len() < 2 {
                "read_string: response too short"@
            } else {
                "read_string: data truncated"@
            }),
        },
{
    if bytes.len() < 2 {
        return Err(error_msg("read_string: response too short"));
    }
    let actual_len = bytes[1] as usize;
    if bytes.len() < 2 + actual_len {
        return Err(error_msg("read_string: data truncated"));
    }
    let ghost text = bytes@.subrange(2, 2 + actual_len as int);
    let mut s = String::new();
    let mut k: usize = 0;
    while k < actual_len
        invariant
            k <= actual_len,
            2 + actual_len <= bytes.len(),
            text == bytes@.subrange(2, 2 + actual_len as int),
            s@ == latin1_chars(text.take(k as int)),
        decreases actual_len - k,
    {
        let b = bytes[2 + k];
        crate::text::string_push(&mut s, b as char);
        k += 1;
        assert(s@ =~= latin1_chars(text.take(k as int)));
    }
    assert(text.take(actual_len as int) =~= text);
    Ok(s)
}

/// The actual length of a WSTRING read: its stated length, at most its
/// stated maximum.
pub open spec fn wstring_len(b: Seq<u8>) -> int {
    let max = from_be16(b[0], b[1]);
    let actual = from_be16(b[2], b[3]);
    if actual > max {
        max as int
    } else {
        actual as int
    }
}

/// The first `n` UTF-16 code units after the four length bytes, big-endian.
pub open spec fn wstring_units(b: Seq<u8>, n: int) -> Seq<u16> {
    Seq::new(n as nat, |i: int| from_be16(b[4 + 2 * i], b[5 + 2 * i]))
}

/// The text of a WSTRING read: the maximum and actual lengths in bytes 0-3,
/// then the UTF-16 code units, big-endian.
pub fn decode_wstring(bytes: &Vec<u8>) -> (r: Result<String, S7Error>)
    ensures
        match r {
            Ok(s) => bytes@.len() >= 4 && bytes@.len() >= 4 + 2 * wstring_len(bytes@) && utf16_decode(
                wstring_units(bytes@, wstring_len(bytes@)),
            ) == Some(s@),
            Err(e) => (bytes@.len() < 4 || bytes@.len() < 4 + 2 * wstring_len(bytes@) || utf16_decode(
                wstring_units(bytes@, wstring_len(bytes@)),
            ) is None) && (e matches S7Error::Error(m) && m@ == if bytes@.len() < 4 {
                "read_wstring: response too short"@
            } else if bytes@.len() < 4 + 2 * wstring_len(bytes@) {
                "read_wstring: data truncated"@
            } else {
                "read_wstring: invalid UTF-16 data"@
            }),
        },
{
    if bytes.len() < 4 {
        return Err(error_msg("read_wstring: response too short"));
    }
    let max_len_resp = ((bytes[0] as u16) * 256 + bytes[1] as u16) as usize;
    let mut actual_len = ((bytes[2] as u16) * 256 + bytes[3] as u16) as usize;
    if actual_len > max_len_resp {
        actual_len = max_len_resp;
    }
    let data_start: usize = 4;
    let data_end = data_start + actual_len * 2;
    if bytes.len() < data_end {
        return Err(error_msg("read_wstring: data truncated"));
    }
    let mut u16s: Vec<u16> = Vec::new();
    let mut i: usize = 0;
    while i < actual_len
        invariant
            actual_len == wstring_len(bytes@),
            data_start == 4,
            bytes@.len() >= 4 + 2 * actual_len,
            i <= actual_len,
            u16s@ == wstring_units(bytes@, i as int),
        decreases actual_len - i,
    {
        let pos = data_start + i * 2;
        let unit = (bytes[pos] as u16) * 256 + bytes[pos + 1] as u16;
        u16s.push(unit);
        i += 1;
        assert(u16s@ =~= wstring_units(bytes@, i as int));
    }
    match utf16_to_string(u16s.as_slice()) {
        Some(s) => Ok(s),
        None => Err(error_msg("read_wstring: invalid UTF-16 data")),
    }
}

/// Whether every character is in Latin-1 (code point at most 0xFF).
pub open spec fn is_latin1(s: Seq<char>) -> bool {
    forall|i: int| 0 <= i < s.len() ==> (#[trigger] s[i]) as u32 <= 0xFF
}

/// The Latin-1 bytes of characters that are all in Latin-1.
pub open spec fn latin1_bytes(s: Seq<char>) -> Seq<u8> {
    Seq::new(s.len(), |i: int| s[i] as u32 as u8)
}

/// The first character of `s` outside Latin-1.
pub open spec fn first_non_latin1(s: Seq<char>) -> char
    decreases s.len(),
{
    if s.len() == 0 {
        ' '
    } else if (s[0] as u32) > 0xFF {
        s[0]
    } else {
        first_non_latin1(s.drop_first())
    }
}

/// The message that refuses the character `c` as outside Latin-1.
pub open spec fn latin1_error_text(c: char) -> Seq<char> {
    "Character '"@ + seq![c] + "' cannot be encoded in Latin-1 / STRING"@
}

/// The first character outside Latin-1 is the one after a Latin-1 prefix.
proof fn lemma_first_non_latin1(s: Seq<char>, i: int)
    requires
        0 <= i < s.len(),
        is_latin1(s.take(i)),
        (s[i] as u32) > 0xFF,
    ensures
        first_non_latin1(s) == s[i],
    decreases i,
{
    if i > 0 {
        assert(s.take(i)[0] == s[0]);
        let t = s.drop_first();
        assert forall|j: int| 0 <= j < t.take(i - 1).len() implies (#[trigger] t.take(i - 1)[j]) as u32 <= 0xFF by {
            assert(t.take(i - 1)[j] == s.take(i)[j + 1]);
        }
        lemma_first_non_latin1(t, i - 1);
    }
}

/// The Latin-1 (ISO-8859-1) bytes of `s`; refused, naming the first character
/// outside Latin-1, when there is one.
pub fn str_to_latin1(s: &str) -> (r: Result<Vec<u8>, S7Error>)
    ensures
        match r {
            Ok(v) => is_latin1(s@) && v@ == latin1_bytes(s@),
            Err(e) => !is_latin1(s@) && (e matches S7Error::Error(m) && m@ == latin1_error_text(
                first_non_latin1(s@),
            )),
        },
{
    let n = s.unicode_len();
    let mut bytes: Vec<u8> = Vec::new();
    for i in 0..n
        invariant
            n == s@.len(),
            is_latin1(s@.take(i as int)),
            bytes@ == latin1_bytes(s@.take(i as int)),
    {
        let c = s.get_char(i);
        if c as u32 > 0xFF {
            proof {
                lemma_first_non_latin1(s@, i as int);
            }
            let mut m = String::from_str("Character '");
            crate::text::string_push(&mut m, c);
            m.append("' cannot be encoded in Latin-1 / STRING");
            return Err(S7Error::Error(m));
        }
        bytes.push(c as u32 as u8);
        assert(is_latin1(s@.take(i + 1))) by {
            assert forall|j: int| 0 <= j < i + 1 implies (#[trigger] s@.take(i + 1)[j]) as u32 <= 0xFF by {
                if j < i {
                    assert(s@.take(i + 1)[j] == s@.take(i as int)[j]);
                }
            }
        }
        assert(bytes@ =~= latin1_bytes(s@.take(i + 1)));
    }
    assert(s@.take(n as int) =~= s@);
    Ok(bytes)
}

/// `n` zero bytes.
pub open spec fn zeros(n: int) -> Seq<u8> {
    Seq::new(n as nat, |i: int| 0u8)
}

/// The bytes of a STRING of at most `max_len` characters: maximum and actual
/// length, the Latin-1 characters, zeros up to the maximum.
pub open spec fn string_image(max_len: u16, text: Seq<u8>) -> Seq<u8> {
    seq![max_len as u8, text.len() as u8] + text + zeros(max_len - text.len())
}

/// The message that refuses a text of `n` units where at most `max` fit:
/// `head`, `n` in decimal, `middle`, `max` in decimal.
pub open spec fn too_long_text(head: Seq<char>, n: u16, middle: Seq<char>, max: u16) -> Seq<char> {
    head + dec_digits(n as nat) + middle + dec_digits(max as nat)
}

/// The bytes that `write_string` writes for `value` in a STRING of at most
/// `max_len` characters; refused when `value` has a character outside
/// Latin-1 or more than `max_len` characters (counted modulo 2^16). A text
/// that passes these checks must fit: `max_len` at most 0xFFFD and at most
/// 0xFFFF characters.
pub fn encode_string(max_len: u16, value: &str) -> (r: Result<Vec<u8>, S7Error>)
    requires
        is_latin1(value@) && (value@.len() as u16) <= max_len ==> max_len <= 0xFFFD && value@.len() <= 0xFFFF,
    ensures
        match r {
            Ok(v) => is_latin1(value@) && (value@.len() as u16) <= max_len && v@ == string_image(
                max_len,
                latin1_bytes(value@),
            ),
            Err(e) => (!is_latin1(value@) || (value@.len() as u16) > max_len) && (e matches S7Error::Error(m) && m@
                == if !is_latin1(value@) {
                latin1_error_text(first_non_latin1(value@))
            } else {
                too_long_text("String too long: "@, value@.len() as u16, " bytes, max allowed "@, max_len)
            }),
        },
{
    let latin1 = str_to_latin1(value)?;
    let actual_len = latin1.len() as u16;
    if actual_len > max_len {
        let mut m = String::from_str("String too long: ");
        crate::text::push_decimal(&mut m, actual_len as u64);
        m.append(" bytes, max allowed ");
        crate::text::push_decimal(&mut m, max_len as u64);
        return Err(S7Error::Error(m));
    }
    let total_len = (max_len + 2) as usize;
    let mut buf: Vec<u8> = Vec::new();
    buf.push(max_len as u8);
    buf.push(actual_len as u8);
    let n = latin1.len();
    for i in 0..n
        invariant
            n == latin1@.len(),
            n <= max_len,
            buf@ == seq![max_len as u8, actual_len as u8] + latin1@.take(i as int),
    {
        buf.push(latin1[i]);
        assert(latin1@.take(i + 1) =~= latin1@.take(i as int).push(latin1@[i as int]));
    }
    assert(latin1@.take(n as int) =~= latin1@);
    let mut k = 2 + n;
    while k < total_len
        invariant
            2 + n <= k <= total_len,
            total_len == max_len + 2,
            buf@ == seq![max_len as u8, actual_len as u8] + latin1@ + zeros(k - 2 - n),
        decreases total_len - k,
    {
        buf.push(0);
        k += 1;
        assert(buf@ =~= seq![max_len as u8, actual_len as u8] + latin1@ + zeros(k - 2 - n));
    }
    Ok(buf)
}

/// The bytes of a WSTRING of at most `max_len` code units: maximum and actual
/// length, the code units, zeros up to the maximum; big-endian throughout.
pub open spec fn wstring_image(max_len: u16, units: Seq<u16>) -> Seq<u8> {
    be16(max_len) + be16(units.len() as u16) + units_be(units) + zeros(2 * (max_len - units.len()))
}

/// Code units one after the other, each most significant byte first.
pub open spec fn units_be(units: Seq<u16>) -> Seq<u8>
    decreases units.len(),
{
    if units.len() == 0 {
        Seq::<u8>::empty()
    } else {
        units_be(units.drop_last()) + be16(units.last())
    }
}

/// The bytes of a WSTRING of at most `max_len` code units holding `units`;
/// refused when there are more than `max_len` units (counted modulo 2^16).
pub fn encode_wstring_units(max_len: u16, units: &Vec<u16>) -> (r: Result<Vec<u8>, S7Error>)
    requires
        wstring_fits(max_len, units@),
    ensures
        match r {
            Ok(v) => (units@.len() as u16) <= max_len && v@ == wstring_image(max_len, units@),
            Err(e) => (units@.len() as u16) > max_len && (e matches S7Error::Error(m) && m@ == too_long_text(
                "WString too long: "@,
                units@.len() as u16,
                " code units, max allowed "@,
                max_len,
            )),
        },
{
    let actual_len = units.len() as u16;
    if actual_len > max_len {
        let mut m = String::from_str("WString too long: ");
        crate::text::push_decimal(&mut m, actual_len as u64);
        m.append(" code units, max allowed ");
        crate::text::push_decimal(&mut m, max_len as u64);
        return Err(S7Error::Error(m));
    }
    let total_bytes = (max_len * 2 + 4) as usize;
    let mut buf: Vec<u8> = Vec::new();
    buf.extend_from_slice(u16_to_be(max_len).as_slice());
    buf.extend_from_slice(u16_to_be(actual_len).as_slice());
    let n = units.len();
    for i in 0..n
        invariant
            n == units@.len(),
            n <= max_len,
            buf@ == be16(max_len) + be16(actual_len) + units_be(units@.take(i as int)),
    {
        assert(units@.take(i + 1).drop_last() =~= units@.take(i as int));
        buf.extend_from_slice(u16_to_be(units[i]).as_slice());
        assert(buf@ =~= be16(max_len) + be16(actual_len) + units_be(units@.take(i + 1)));
    }
    assert(units@.take(n as int) =~= units@);
    proof {
        lemma_units_be_len(units@);
    }
    let mut k = 4 + 2 * n;
    while k < total_bytes
        invariant
            4 + 2 * n <= k <= total_bytes,
            total_bytes == 2 * max_len + 4,
            buf@ == be16(max_len) + be16(actual_len) + units_be(units@) + zeros(k - 4 - 2 * n),
        decreases total_bytes - k,
    {
        buf.push(0);
        k += 1;
        assert(buf@ =~= be16(max_len) + be16(actual_len) + units_be(units@) + zeros(k - 4 - 2 * n));
    }
    Ok(buf)
}

/// Each code unit takes two bytes.
pub proof fn lemma_units_be_len(units: Seq<u16>)
    ensures
        units_be(units).len() == 2 * units.len(),
    decreases units.len(),
{
    if units.len() > 0 {
        lemma_units_be_len(units.drop_last());
    }
}

/// Whether `write_wstring` can lay out `units` in a WSTRING of at most
/// `max_len` code units once their count passed the length check: the buffer
/// size `2 * max_len + 4` must fit in 16 bits and every unit must fit in it.
pub open spec fn wstring_fits(max_len: u16, units: Seq<u16>) -> bool {
    (units.len() as u16) <= max_len ==> max_len <= 0x7FFD && units.len() <= max_len
}

/// The bytes that `write_wstring` writes for `value` in a WSTRING of at most
/// `max_len` code units; refused when `value` has more code units than that
/// (counted modulo 2^16). `None` where the units pass that check but cannot be
/// laid out (see `wstring_fits`).
pub fn encode_wstring(max_len: u16, value: &str) -> (r: Option<Result<Vec<u8>, S7Error>>)
    ensures
        ({
            let units = utf16_encode(value@);
            match r {
                None => !wstring_fits(max_len, units),
                Some(Ok(v)) => wstring_fits(max_len, units) && (units.len() as u16) <= max_len && v@
                    == wstring_image(max_len, units),
                Some(Err(e)) => wstring_fits(max_len, units) && (units.len() as u16) > max_len && (e matches S7Error::Error(
                    m,
                ) && m@ == too_long_text("WString too long: "@, units.len() as u16, " code units, max allowed "@, max_len)),
            }
        }),
{
    let units = utf16_units(value);
    let actual_len = units.len() as u16;
    if actual_len <= max_len && (max_len > 0x7FFD || units.len() > max_len as usize) {
        return None;
    }
    Some(encode_wstring_units(max_len, &units))
}

/// Latin-1 text, written as its bytes, reads back as the same characters.
proof fn lemma_latin1_chars_bytes(v: Seq<char>)
    requires
        is_latin1(v),
    ensures
        latin1_chars(latin1_bytes(v)) == v,
{
    assert forall|i: int| 0 <= i < v.len() implies #[trigger] latin1_chars(latin1_bytes(v))[i] == v[i] by {
        let x: u32 = v[i] as u32;
        assert(x <= 0xFF);
        assert((x as u8) as u32 == x) by (bit_vector)
            requires
                x <= 0xFF,
        ;
        assert(latin1_bytes(v)[i] == x as u8);
        vstd::utf8::char_u32_cast(v[i], x);
        assert((x as char) == v[i]);
        assert(((x as u8) as char) == (x as char));
    }
    assert(latin1_chars(latin1_bytes(v)) =~= v);
}

/// A Latin-1 text of at most `max_len` (and at most 255) characters, written as
/// a STRING image, reads back as the same text: the length byte gives its
/// length, and the bytes after the two length bytes are its characters.
pub proof fn lemma_string_image_roundtrip(max_len: u16, v: Seq<char>)
    requires
        is_latin1(v),
        v.len() <= max_len,
        v.len() <= 255,
    ensures
        ({
            let img = string_image(max_len, latin1_bytes(v));
            &&& img.len() >= 2
            &&& img[1] == v.len()
            &&& img.len() >= 2 + img[1]
            &&& latin1_chars(img.subrange(2, 2 + img[1] as int)) == v
        }),
{
    let text = latin1_bytes(v);
    let img = string_image(max_len, text);
    assert(img[1] == (text.len() as u8));
    assert(img.subrange(2, 2 + v.len() as int) =~= text);
    lemma_latin1_chars_bytes(v);
}

/// The bytes of the code unit at `i` in `units_be(units)`.
proof fn lemma_units_be_index(units: Seq<u16>, i: int)
    requires
        0 <= i < units.len(),
    ensures
        units_be(units)[2 * i] == be16(units[i])[0],
        units_be(units)[2 * i + 1] == be16(units[i])[1],
    decreases units.len(),
{
    lemma_units_be_len(units.drop_last());
    if i < units.len() - 1 {
        lemma_units_be_index(units.drop_last(), i);
    }
}

/// Code units written as a WSTRING image of at most `max_len` units read back
/// as the same code units: the actual length is their count and the units
/// after the four length bytes are they.
pub proof fn lemma_wstring_image_roundtrip(max_len: u16, units: Seq<u16>)
    requires
        units.len() <= max_len,
    ensures
        ({
            let img = wstring_image(max_len, units);
            &&& img.len() >= 4
            &&& wstring_len(img) == units.len()
            &&& img.len() >= 4 + 2 * wstring_len(img)
            &&& wstring_units(img, wstring_len(img)) == units
        }),
{
    let n = units.len();
    let img = wstring_image(max_len, units);
    lemma_units_be_len(units);
    lemma_u16_be_roundtrip(max_len);
    lemma_u16_be_roundtrip(n as u16);
    assert(img[0] == be16(max_len)[0] && img[1] == be16(max_len)[1]);
    assert(img[2] == be16(n as u16)[0] && img[3] == be16(n as u16)[1]);
    assert(wstring_len(img) == n);
    assert forall|i: int| 0 <= i < n implies #[trigger] wstring_units(img, n as int)[i] == units[i] by {
        lemma_units_be_index(units, i);
        lemma_u16_be_roundtrip(units[i]);
        assert(img[4 + 2 * i] == units_be(units)[2 * i]);
        assert(img[5 + 2 * i] == units_be(units)[2 * i + 1]);
    }
    assert(wstring_units(img, n as int) =~= units);
}

/// Text written as a WSTRING of at most `max_len` code units reads back as
/// the same text: every Unicode character survives the round trip.
pub proof fn lemma_wstring_text_roundtrip(max_len: u16, s: Seq<char>)
    requires
        utf16_encode(s).len() <= max_len,
    ensures
        ({
            let img = wstring_image(max_len, utf16_encode(s));
            &&& img.len() >= 4 + 2 * wstring_len(img)
            &&& utf16_decode(wstring_units(img, wstring_len(img))) == Some(s)
        }),
{
    lemma_wstring_image_roundtrip(max_len, utf16_encode(s));
    lemma_utf16_roundtrip(s);
}

} // verus!
