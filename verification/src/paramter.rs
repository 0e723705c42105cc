//! Parameter part of an S7 message: communication setup, variable read/write
//! and the user-data parameter of system status list (SZL) requests.
use vstd::prelude::*;
use tokio_util::bytes::BytesMut;
use crate::buffer::{
    be16, buf_from, bytes_of, buf_new, buf_to_vec, buf_with_capacity, extend_from_slice, from_be16, get_u16,
    get_u8, put_u16, put_u8, remaining,
};
use crate::error::{error_hex, hex_text, is_error_text, S7Error};
use crate::item::{lemma_request_item_roundtrip, request_item_wf, RequestItem};
use crate::text::{hex_byte, push_hex_byte, string_push};
use crate::types::{S7FunctionCode, SyntaxID};

verus! {

/// Parameters of the communication setup, 8 bytes.
#[derive(Debug, Eq, PartialEq, Clone, Structural)]
pub struct SetupComParameter {
    /// Function code (byte 0).
    pub function_code: S7FunctionCode,
    /// Reserved (byte 1).
    pub reserved: u8,
    /// Size of the acknowledgement queue of the caller (bytes 2-3).
    pub max_amq_caller: u16,
    /// Size of the acknowledgement queue of the callee (bytes 4-5).
    pub max_amq_callee: u16,
    /// PDU length (bytes 6-7).
    pub pdu_length: u16,
}

/// Parameters of a variable read or write: the function code, the number of
/// items and the items.
#[derive(Debug, Eq, PartialEq, Clone)]
pub struct ReadWriteParameter {
    /// Function code (byte 0).
    pub function_code: S7FunctionCode,
    /// Number of request items (byte 1).
    pub item_count: u8,
    /// The request items, 12 bytes each.
    pub request_items: Vec<RequestItem>,
}

/// A read/write parameter as values.
pub struct ReadWriteParameterView {
    pub function_code: S7FunctionCode,
    pub item_count: u8,
    pub request_items: Seq<RequestItem>,
}

impl View for ReadWriteParameter {
    type V = ReadWriteParameterView;

    open spec fn view(&self) -> ReadWriteParameterView {
        ReadWriteParameterView {
            function_code: self.function_code,
            item_count: self.item_count,
            request_items: self.request_items@,
        }
    }
}

/// User-data parameter of a CPU service (SZL) request or response.
#[derive(Debug, Eq, PartialEq, Clone, Structural)]
pub struct SzlParameter {
    pub function_code: S7FunctionCode,
    pub item_count: u8,
    pub varspec: u8,
    pub plen: u8,
    pub syntax_id: SyntaxID,
    pub func_group: u8,
    pub sub_fun: u8,
    pub seq: u8,
    pub data_unit_reference_number: Option<u8>,
    pub last_data_unit: Option<u8>,
    pub error_code: Option<u16>,
}

#[derive(Debug, Eq, PartialEq, Clone)]
pub enum S7Parameter {
    SetupParameter(SetupComParameter),
    ReadWriteParameter(ReadWriteParameter),
    Szl(SzlParameter),
}

/// A parameter part as values.
pub enum S7ParameterView {
    SetupParameter(SetupComParameter),
    ReadWriteParameter(ReadWriteParameterView),
    Szl(SzlParameter),
}

impl View for S7Parameter {
    type V = S7ParameterView;

    open spec fn view(&self) -> S7ParameterView {
        match self {
            S7Parameter::SetupParameter(p) => S7ParameterView::SetupParameter(*p),
            S7Parameter::ReadWriteParameter(p) => S7ParameterView::ReadWriteParameter(p@),
            S7Parameter::Szl(p) => S7ParameterView::Szl(*p),
        }
    }
}

/// The request items one after the other, 12 bytes each.
pub open spec fn items_encoded(items: Seq<RequestItem>) -> Seq<u8>
    decreases items.len(),
{
    if items.len() == 0 {
        Seq::<u8>::empty()
    } else {
        items_encoded(items.drop_last()) + items.last().encoded()
    }
}

/// Each request item takes twelve bytes.
pub proof fn lemma_items_encoded_len(items: Seq<RequestItem>)
    ensures
        items_encoded(items).len() == 12 * items.len(),
    decreases items.len(),
{
    if items.len() > 0 {
        lemma_items_encoded_len(items.drop_last());
    }
}

impl SetupComParameter {
    pub const BYTE_LENGTH: usize = 8;

    pub open spec fn spec_new(pdu_length: u16) -> SetupComParameter {
        SetupComParameter {
            function_code: S7FunctionCode::SetupCommunication,
            reserved: 0x00,
            max_amq_caller: 1,
            max_amq_callee: 1,
            pdu_length,
        }
    }

    /// Setup parameters that propose the PDU length `pdu_length`.
    pub fn new(pdu_length: u16) -> (r: SetupComParameter)
        ensures
            r == SetupComParameter::spec_new(pdu_length),
    {
        Self { pdu_length, ..SetupComParameter::default() }
    }

    /// The 8 bytes of these parameters on the wire.
    pub open spec fn encoded(self) -> Seq<u8> {
        seq![self.function_code.code(), self.reserved] + be16(self.max_amq_caller) + be16(
            self.max_amq_callee,
        ) + be16(self.pdu_length)
    }
}

impl Default for SetupComParameter {
    fn default() -> (r: SetupComParameter)
        ensures
            r == SetupComParameter::spec_new(960),
    {
        SetupComParameter {
            function_code: S7FunctionCode::SetupCommunication,
            reserved: 0x00,
            max_amq_caller: 1,
            max_amq_callee: 1,
            pdu_length: 960,
        }
    }
}

/// Every item's address can be written.
pub open spec fn items_computable(items: Seq<RequestItem>) -> bool {
    forall|i: int| 0 <= i < items.len() ==> (#[trigger] items[i]).address_computable()
}

impl ReadWriteParameterView {
    /// The bytes of these parameters on the wire.
    pub open spec fn encoded(self) -> Seq<u8> {
        seq![self.function_code.code(), self.item_count] + items_encoded(self.request_items)
    }
}

impl ReadWriteParameter {
    /// Parameters of function `func_code` with the items that `req_items` held;
    /// `req_items` is left empty.
    pub fn new(func_code: S7FunctionCode, req_items: &mut Vec<RequestItem>) -> (r: ReadWriteParameter)
        ensures
            r@ == (ReadWriteParameterView {
                function_code: func_code,
                item_count: old(req_items)@.len() as u8,
                request_items: old(req_items)@,
            }),
            final(req_items)@ == Seq::<RequestItem>::empty(),
    {
        let mut p = Self { function_code: func_code, item_count: 0, request_items: Vec::new() };
        p.add_request_items(req_items);
        assert(p.request_items@ =~= old(req_items)@);
        p
    }

    /// Appends one item and sets the count to the new number of items.
    pub fn add_request_item(&mut self, request_item: RequestItem)
        ensures
            final(self).function_code == old(self).function_code,
            final(self).request_items@ == old(self).request_items@.push(request_item),
            final(self).item_count == final(self).request_items@.len() as u8,
    {
        self.request_items.push(request_item);
        self.item_count = self.request_items.len() as u8;
    }

    /// Moves all of `request_item` to the end of the items and sets the count.
    pub fn add_request_items(&mut self, request_item: &mut Vec<RequestItem>)
        ensures
            final(self).function_code == old(self).function_code,
            final(self).request_items@ == old(self).request_items@ + old(request_item)@,
            final(self).item_count == final(self).request_items@.len() as u8,
            final(request_item)@ == Seq::<RequestItem>::empty(),
    {
        self.request_items.append(request_item);
        self.item_count = self.request_items.len() as u8;
    }

    /// Length of these parameters on the wire: two bytes and 12 per item.
    pub fn byte_len(&self) -> (r: u16)
        requires
            items_computable(self.request_items@),
            2 + 12 * self.request_items@.len() <= u16::MAX,
        ensures
            r == 2 + 12 * self.request_items@.len(),
            r == self@.encoded().len(),
    {
        let n = self.request_items.len();
        let mut sum: u16 = 0;
        for i in 0..n
            invariant
                n == self.request_items@.len(),
                items_computable(self.request_items@),
                2 + 12 * n <= u16::MAX,
                sum == 12 * i,
        {
            let b = self.request_items[i].to_be_bytes();
            sum = sum + b.len() as u16;
        }
        proof {
            lemma_items_encoded_len(self.request_items@);
        }
        2 + sum
    }
}

impl Default for ReadWriteParameter {
    fn default() -> (r: ReadWriteParameter)
        ensures
            r@ == (ReadWriteParameterView {
                function_code: S7FunctionCode::ReadVariable,
                item_count: 0,
                request_items: Seq::<RequestItem>::empty(),
            }),
    {
        Self { function_code: S7FunctionCode::ReadVariable, item_count: 0, request_items: Vec::new() }
    }
}

impl SzlParameter {
    /// Whether the response fields (data unit reference, last unit, error code) are all present.
    pub open spec fn has_response_fields(self) -> bool {
        self.data_unit_reference_number is Some && self.last_data_unit is Some && self.error_code is Some
    }

    /// The first 8 bytes: the fields that requests and responses share.
    pub open spec fn head_encoded(self) -> Seq<u8> {
        seq![
            self.function_code.code(),
            self.item_count,
            self.varspec,
            self.plen,
            self.syntax_id.code(),
            self.func_group,
            self.sub_fun,
            self.seq,
        ]
    }

    /// All bytes of this parameter: the head, then the response fields if all are present.
    pub open spec fn encoded(self) -> Seq<u8> {
        self.head_encoded() + if self.has_response_fields() {
            seq![self.data_unit_reference_number.unwrap(), self.last_data_unit.unwrap()] + be16(
                self.error_code.unwrap(),
            )
        } else {
            Seq::<u8>::empty()
        }
    }

    pub open spec fn spec_byte_len(&self) -> usize {
        if self.has_response_fields() {
            12
        } else {
            8
        }
    }

    #[verifier::when_used_as_spec(spec_byte_len)]
    pub fn byte_len(&self) -> (r: usize)
        ensures
            r == self.spec_byte_len(),
            r == self.encoded().len(),
    {
        if let (Some(_d), Some(_l), Some(_e)) = (self.data_unit_reference_number, self.last_data_unit, self.error_code) {
            12
        } else {
            8
        }
    }

    pub fn to_be_bytes(&self) -> (r: Vec<u8>)
        ensures
            r@ == self.encoded(),
    {
        let mut buf: BytesMut = buf_new();
        put_u8(&mut buf, self.function_code.code());
        put_u8(&mut buf, self.item_count);
        put_u8(&mut buf, self.varspec);
        put_u8(&mut buf, self.plen);
        put_u8(&mut buf, self.syntax_id.code());
        put_u8(&mut buf, self.func_group);
        put_u8(&mut buf, self.sub_fun);
        put_u8(&mut buf, self.seq);
        if let (Some(data_unit_reference_number), Some(last_data_unit), Some(ecd)) = (
            self.data_unit_reference_number,
            self.last_data_unit,
            self.error_code,
        ) {
            put_u8(&mut buf, data_unit_reference_number);
            put_u8(&mut buf, last_data_unit);
            put_u16(&mut buf, ecd);
        }
        let r = buf_to_vec(&buf);
        assert(r@ =~= self.encoded());
        r
    }

    /// The parameter of an SZL read request.
    pub open spec fn spec_default() -> SzlParameter {
        SzlParameter {
            function_code: S7FunctionCode::CpuServices,
            item_count: 0x01,
            varspec: 0x12,
            plen: 0x04,
            syntax_id: SyntaxID::ParameterShort,
            func_group: 0x44,
            sub_fun: 0x01,
            seq: 0x00,
            data_unit_reference_number: None,
            last_data_unit: None,
            error_code: None,
        }
    }
}

impl Default for SzlParameter {
    fn default() -> (r: SzlParameter)
        ensures
            r == SzlParameter::spec_default(),
    {
        SzlParameter {
            function_code: S7FunctionCode::CpuServices,
            item_count: 0x01,
            varspec: 0x12,
            plen: 0x04,
            syntax_id: SyntaxID::ParameterShort,
            func_group: 0x44,
            sub_fun: 0x01,
            seq: 0x00,
            data_unit_reference_number: None,
            last_data_unit: None,
            error_code: None,
        }
    }
}

impl Default for S7Parameter {
    fn default() -> (r: S7Parameter)
        ensures
            r@ == S7ParameterView::ReadWriteParameter(
                ReadWriteParameterView {
                    function_code: S7FunctionCode::ReadVariable,
                    item_count: 0,
                    request_items: Seq::<RequestItem>::empty(),
                },
            ),
    {
        S7Parameter::ReadWriteParameter(ReadWriteParameter::default())
    }
}

/// The `k` request items after the two head bytes of `d`, each of which must
/// be of the S7-Any syntax.
pub open spec fn items_from_wire(d: Seq<u8>, k: nat) -> Result<Seq<RequestItem>, ()>
    decreases k,
{
    if k == 0 {
        Ok(Seq::<RequestItem>::empty())
    } else {
        match items_from_wire(d, (k - 1) as nat) {
            Err(()) => Err(()),
            Ok(items) => {
                let off = 2 + 12 * (k - 1);
                match SyntaxID::decode(d[off + 2]) {
                    Some(SyntaxID::S7Any) => match RequestItem::from_wire(d.subrange(off, d.len() as int)) {
                        Ok(it) => Ok(items.push(it)),
                        Err(()) => Err(()),
                    },
                    _ => Err(()),
                }
            },
        }
    }
}

/// Whether reading `k` items from `d` never looks past its end: each item that
/// the decoder reaches has at least its syntax byte.
pub open spec fn items_readable(d: Seq<u8>, k: nat) -> bool
    decreases k,
{
    if k == 0 {
        true
    } else {
        items_readable(d, (k - 1) as nat) && (items_from_wire(d, (k - 1) as nat) is Ok ==> d.len()
            >= 2 + 12 * (k - 1) + 3)
    }
}

impl S7Parameter {
    pub open spec fn spec_function_code(&self) -> S7FunctionCode {
        match *self {
            S7Parameter::SetupParameter(p) => p.function_code,
            S7Parameter::ReadWriteParameter(p) => p.function_code,
            S7Parameter::Szl(p) => p.function_code,
        }
    }

    #[verifier::when_used_as_spec(spec_function_code)]
    pub fn function_code(&self) -> (r: S7FunctionCode)
        ensures
            r == self.spec_function_code(),
    {
        match self {
            S7Parameter::SetupParameter(p) => p.function_code,
            S7Parameter::ReadWriteParameter(p) => p.function_code,
            S7Parameter::Szl(p) => p.function_code,
        }
    }

    /// Whether the parameter can be measured and written: every read/write item's
    /// address can be written, and the length fits in 16 bits.
    pub open spec fn encodable(&self) -> bool {
        match *self {
            S7Parameter::ReadWriteParameter(p) => items_computable(p.request_items@) && 2 + 12
                * p.request_items@.len() <= u16::MAX,
            _ => true,
        }
    }

    pub open spec fn spec_byte_len(&self) -> usize {
        match *self {
            S7Parameter::SetupParameter(_) => 8,
            S7Parameter::ReadWriteParameter(p) => (2 + 12 * p.request_items@.len()) as usize,
            S7Parameter::Szl(p) => p.spec_byte_len(),
        }
    }

    /// Length of the parameter part. For an SZL parameter with response fields
    /// this counts them, although `to_be_bytes` writes only its first 8 bytes.
    #[verifier::when_used_as_spec(spec_byte_len)]
    pub fn byte_len(&self) -> (r: usize)
        requires
            self.encodable(),
        ensures
            r == self.spec_byte_len(),
    {
        match self {
            S7Parameter::SetupParameter(_) => SetupComParameter::BYTE_LENGTH,
            S7Parameter::ReadWriteParameter(p) => p.byte_len() as usize,
            S7Parameter::Szl(p) => p.byte_len(),
        }
    }
}

impl S7ParameterView {
    /// The bytes that `to_be_bytes` writes: for an SZL parameter only its head.
    pub open spec fn encoded(self) -> Seq<u8> {
        match self {
            S7ParameterView::SetupParameter(p) => p.encoded(),
            S7ParameterView::ReadWriteParameter(p) => p.encoded(),
            S7ParameterView::Szl(p) => p.head_encoded(),
        }
    }

    pub open spec fn function_code(self) -> S7FunctionCode {
        match self {
            S7ParameterView::SetupParameter(p) => p.function_code,
            S7ParameterView::ReadWriteParameter(p) => p.function_code,
            S7ParameterView::Szl(p) => p.function_code,
        }
    }
}

impl S7Parameter {
    pub fn to_be_bytes(&self) -> (r: Vec<u8>)
        requires
            self.encodable(),
        ensures
            r@ == self@.encoded(),
    {
        match self {
            S7Parameter::SetupParameter(p) => {
                let mut buf: BytesMut = buf_with_capacity(SetupComParameter::BYTE_LENGTH);
                put_u8(&mut buf, p.function_code.code());
                put_u8(&mut buf, p.reserved);
                put_u16(&mut buf, p.max_amq_caller);
                put_u16(&mut buf, p.max_amq_callee);
                put_u16(&mut buf, p.pdu_length);
                let r = buf_to_vec(&buf);
                assert(r@ =~= self@.encoded());
                r
            },
            S7Parameter::ReadWriteParameter(p) => {
                let mut buf: BytesMut = buf_with_capacity(p.byte_len() as usize);
                put_u8(&mut buf, p.function_code.code());
                put_u8(&mut buf, p.item_count);
                let n = p.request_items.len();
                assert(p.request_items@.take(0) =~= Seq::<RequestItem>::empty());
                for i in 0..n
                    invariant
                        n == p.request_items@.len(),
                        items_computable(p.request_items@),
                        2 + 12 * n <= u16::MAX,
                        bytes_of(buf) == seq![p.function_code.code(), p.item_count] + items_encoded(p.request_items@.take(i as int)),
                {
                    proof {
                        lemma_items_encoded_len(p.request_items@.take(i as int));
                        assert(p.request_items@.take(i + 1).drop_last() =~= p.request_items@.take(i as int));
                    }
                    let b = p.request_items[i].to_be_bytes();
                    extend_from_slice(&mut buf, b.as_slice());
                }
                assert(p.request_items@.take(n as int) =~= p.request_items@);
                let r = buf_to_vec(&buf);
                assert(r@ =~= self@.encoded());
                r
            },
            S7Parameter::Szl(p) => {
                let mut buf: BytesMut = buf_with_capacity(p.byte_len());
                put_u8(&mut buf, p.function_code.code());
                put_u8(&mut buf, p.item_count);
                put_u8(&mut buf, p.varspec);
                put_u8(&mut buf, p.plen);
                put_u8(&mut buf, p.syntax_id.code());
                put_u8(&mut buf, p.func_group);
                put_u8(&mut buf, p.sub_fun);
                put_u8(&mut buf, p.seq);
                let r = buf_to_vec(&buf);
                assert(r@ =~= self@.encoded());
                r
            },
        }
    }

    /// Whether the decoder stays within `d`.
    #[verifier::opaque]
    pub open spec fn readable(d: Seq<u8>) -> bool {
        d.len() >= 1 && match S7FunctionCode::decode(d[0]) {
            Some(S7FunctionCode::SetupCommunication) => d.len() >= 8,
            Some(S7FunctionCode::ReadVariable) | Some(S7FunctionCode::WriteVariable) => d.len() >= 2
                && (d[1] == 0 || d.len() == 2 || items_readable(d, d[1] as nat)),
            Some(S7FunctionCode::CpuServices) => d.len() >= 8,
            _ => true,
        }
    }

    /// The message that refuses the parameter part `d`.
    pub open spec fn wire_error(d: Seq<u8>) -> Seq<char> {
        match S7FunctionCode::decode(d[0]) {
            None => hex_text("Unknown S7FunctionCode: "@, d[0]),
            Some(S7FunctionCode::ReadVariable) | Some(S7FunctionCode::WriteVariable) => items_error(d, d[1] as nat),
            Some(S7FunctionCode::CpuServices) => hex_text("Unknown SyntaxID: "@, d[4]),
            _ => Seq::<char>::empty(),
        }
    }

    /// The parameter part that `d` holds: `Ok(None)` for function codes this
    /// library does not read, `Err` for malformed parts.
    #[verifier::opaque]
    pub open spec fn from_wire(d: Seq<u8>) -> Result<Option<S7ParameterView>, ()> {
        match S7FunctionCode::decode(d[0]) {
            None => Err(()),
            Some(S7FunctionCode::SetupCommunication) => Ok(
                Some(
                    S7ParameterView::SetupParameter(
                        SetupComParameter {
                            function_code: S7FunctionCode::SetupCommunication,
                            reserved: d[1],
                            max_amq_caller: from_be16(d[2], d[3]),
                            max_amq_callee: from_be16(d[4], d[5]),
                            pdu_length: from_be16(d[6], d[7]),
                        },
                    ),
                ),
            ),
            Some(S7FunctionCode::ReadVariable) | Some(S7FunctionCode::WriteVariable) => {
                let fc = S7FunctionCode::decode(d[0]).unwrap();
                if d[1] == 0 || d.len() == 2 {
                    Ok(
                        Some(
                            S7ParameterView::ReadWriteParameter(
                                ReadWriteParameterView {
                                    function_code: fc,
                                    item_count: d[1],
                                    request_items: Seq::<RequestItem>::empty(),
                                },
                            ),
                        ),
                    )
                } else {
                    match items_from_wire(d, d[1] as nat) {
                        Ok(items) => Ok(
                            Some(
                                S7ParameterView::ReadWriteParameter(
                                    ReadWriteParameterView {
                                        function_code: fc,
                                        item_count: d[1],
                                        request_items: items,
                                    },
                                ),
                            ),
                        ),
                        Err(()) => Err(()),
                    }
                }
            },
            Some(S7FunctionCode::CpuServices) => match SyntaxID::decode(d[4]) {
                None => Err(()),
                Some(syntax_id) => Ok(
                    Some(
                        S7ParameterView::Szl(
                            SzlParameter {
                                function_code: S7FunctionCode::CpuServices,
                                item_count: d[1],
                                varspec: d[2],
                                plen: d[3],
                                syntax_id,
                                func_group: d[5],
                                sub_fun: d[6],
                                seq: d[7],
                                data_unit_reference_number: if d.len() >= 12 { Some(d[8]) } else { None },
                                last_data_unit: if d.len() >= 12 { Some(d[9]) } else { None },
                                error_code: if d.len() >= 12 { Some(from_be16(d[10], d[11])) } else { None },
                            },
                        ),
                    ),
                ),
            },
            _ => Ok(None),
        }
    }
}

/// Where `k` items can be read, so can the first `j`.
pub proof fn lemma_items_readable_prefix(d: Seq<u8>, j: nat, k: nat)
    requires
        j <= k,
        items_readable(d, k),
    ensures
        items_readable(d, j),
    decreases k,
{
    if j < k {
        lemma_items_readable_prefix(d, j, (k - 1) as nat);
    }
}

/// Once an item cannot be read, no longer run of items can.
pub proof fn lemma_items_err_persists(d: Seq<u8>, j: nat, k: nat)
    requires
        j <= k,
        items_from_wire(d, j) is Err,
    ensures
        items_from_wire(d, k) is Err,
    decreases k,
{
    if j < k {
        lemma_items_err_persists(d, j, (k - 1) as nat);
    }
}

/// The message that refuses the item at `off`: an unknown or unsupported
/// syntax, or what the item decoder refuses.
pub open spec fn item_error_at(d: Seq<u8>, off: int) -> Seq<char> {
    match SyntaxID::decode(d[off + 2]) {
        None => hex_text("Unknown SyntaxID: "@, d[off + 2]),
        Some(SyntaxID::S7Any) => if d.len() < off + 12 {
            "data too short for RequestItem"@
        } else {
            RequestItem::wire_error(d.subrange(off, d.len() as int))
        },
        Some(_) => "Unsupported SyntaxID: 0x"@ + hex_byte(d[off + 2]) + " for function: 0x"@ + hex_byte(d[0]),
    }
}

/// The message that refuses the first of the `k` request items of `d` that
/// cannot be read (empty where all can).
pub open spec fn items_error(d: Seq<u8>, k: nat) -> Seq<char>
    decreases k,
{
    if k == 0 {
        Seq::<char>::empty()
    } else if items_from_wire(d, (k - 1) as nat) is Err {
        items_error(d, (k - 1) as nat)
    } else {
        item_error_at(d, 2 + 12 * (k - 1))
    }
}

/// Past the first item that cannot be read, the message stays that item's.
pub proof fn lemma_items_error_persists(d: Seq<u8>, j: nat, k: nat)
    requires
        j <= k,
        items_from_wire(d, j) is Err,
    ensures
        items_error(d, k) == items_error(d, j),
    decreases k,
{
    if j < k {
        lemma_items_err_persists(d, j, (k - 1) as nat);
        lemma_items_error_persists(d, j, (k - 1) as nat);
    }
}

/// Whether reading `k` request items from `d` stays within it; see `items_readable`.
fn request_items_readable(d: &[u8], k: usize) -> (r: bool)
    requires
        k <= 255,
    ensures
        r == items_readable(d@, k as nat),
{
    let n = d.len();
    let mut j: usize = 0;
    let mut ok = true;
    while j < k
        invariant
            n == d@.len(),
            j <= k,
            k <= 255,
            items_readable(d@, j as nat),
            ok == (items_from_wire(d@, j as nat) is Ok),
        decreases k - j,
    {
        if ok {
            let off = 2 + 12 * j;
            if n < off + 3 {
                proof {
                    if items_readable(d@, k as nat) {
                        lemma_items_readable_prefix(d@, (j + 1) as nat, k as nat);
                    }
                }
                return false;
            }
            let syntax = SyntaxID::from(d[off + 2]);
            ok = match syntax {
                Some(SyntaxID::S7Any) => RequestItem::from_be_bytes_offset(d, off).is_ok(),
                _ => false,
            };
        }
        j += 1;
    }
    true
}

impl S7Parameter {
    /// Whether `from_be_bytes` can read `data`: its decoder then stays within it.
    pub fn is_readable(data: &[u8]) -> (r: bool)
        ensures
            r == Self::readable(data@),
    {
        reveal(S7Parameter::readable);
        if data.len() < 1 {
            return false;
        }
        match S7FunctionCode::from(data[0]) {
            Some(S7FunctionCode::SetupCommunication) => data.len() >= 8,
            Some(S7FunctionCode::ReadVariable) | Some(S7FunctionCode::WriteVariable) => data.len() >= 2 && (data[1]
                == 0 || data.len() == 2 || request_items_readable(data, data[1] as usize)),
            Some(S7FunctionCode::CpuServices) => data.len() >= 8,
            _ => true,
        }
    }
}

impl S7Parameter {
    pub fn from_be_bytes(data: &[u8]) -> (r: Result<Option<Self>, S7Error>)
        requires
            Self::readable(data@),
        ensures
            match r {
                Ok(Some(p)) => Self::from_wire(data@) == Ok::<Option<S7ParameterView>, ()>(Some(p@)),
                Ok(None) => Self::from_wire(data@) == Ok::<Option<S7ParameterView>, ()>(None),
                Err(e) => Self::from_wire(data@) is Err && is_error_text(e, Self::wire_error(data@)),
            },
    {
        reveal(S7Parameter::readable);
        reveal(S7Parameter::from_wire);
        let mut buf = buf_from(data);
        let func_code = data[0];
        let function_code = match S7FunctionCode::from(func_code) {
            Some(f) => f,
            None => {
                return Err(error_hex("Unknown S7FunctionCode: ", func_code));
            },
        };
        let s7_param = match function_code {
            S7FunctionCode::SetupCommunication => {
                let _fc = get_u8(&mut buf);
                let reserved = get_u8(&mut buf);
                let max_amq_caller = get_u16(&mut buf);
                let max_amq_callee = get_u16(&mut buf);
                let pdu_length = get_u16(&mut buf);
                S7Parameter::SetupParameter(
                    SetupComParameter { function_code, reserved, max_amq_caller, max_amq_callee, pdu_length },
                )
            },
            S7FunctionCode::ReadVariable | S7FunctionCode::WriteVariable => {
                let _fc = get_u8(&mut buf);
                let item_count = get_u8(&mut buf);
                let mut rw = ReadWriteParameter { function_code, item_count, request_items: Vec::new() };
                if item_count == 0 || data.len() == 2 {
                    assert(rw@.request_items =~= Seq::<RequestItem>::empty());
                    S7Parameter::ReadWriteParameter(rw)
                } else {
                    let ghost d = data@;
                    let mut offset: usize = 2;
                    let mut i: u8 = 0;
                    assert(rw@.request_items =~= Seq::<RequestItem>::empty());
                    while i < item_count
                        invariant
                            d == data@,
                            d.len() >= 2,
                            func_code == d[0],
                            item_count == d[1],
                            item_count > 0,
                            d.len() != 2,
                            S7FunctionCode::decode(d[0]) == Some(function_code),
                            function_code == S7FunctionCode::ReadVariable || function_code == S7FunctionCode::WriteVariable,
                            items_readable(d, item_count as nat),
                            i <= item_count,
                            offset == 2 + 12 * i,
                            rw.function_code == function_code,
                            i == 0 ==> rw.item_count == item_count,
                            i > 0 ==> rw.item_count == i,
                            rw.request_items@.len() == i,
                            items_from_wire(d, i as nat) == Ok::<Seq<RequestItem>, ()>(rw.request_items@),
                        decreases item_count - i,
                    {
                        proof {
                            reveal(S7Parameter::from_wire);
                            lemma_items_readable_prefix(d, (i + 1) as nat, item_count as nat);
                        }
                        let sid = data[offset + 2];
                        let syntax_id = match SyntaxID::from(sid) {
                            Some(s) => s,
                            None => {
                                proof {
                                    let k = (i + 1) as nat;
                                    assert((k - 1) as nat == i as nat);
                                    assert(2 + 12 * (k - 1) == offset);
                                    assert(items_from_wire(d, k) is Err);
                                    lemma_items_err_persists(d, (i + 1) as nat, item_count as nat);
                                    lemma_items_error_persists(d, (i + 1) as nat, item_count as nat);
                                }
                                return Err(error_hex("Unknown SyntaxID: ", sid));
                            },
                        };
                        if syntax_id == SyntaxID::S7Any {
                            let ri = match RequestItem::from_be_bytes_offset(data, offset) {
                                Ok(ri) => ri,
                                Err(e) => {
                                    proof {
                                        let k = (i + 1) as nat;
                                        assert((k - 1) as nat == i as nat);
                                        assert(2 + 12 * (k - 1) == offset);
                                        assert(items_from_wire(d, k) is Err);
                                        lemma_items_err_persists(d, (i + 1) as nat, item_count as nat);
                                        lemma_items_error_persists(d, (i + 1) as nat, item_count as nat);
                                    }
                                    return Err(e);
                                },
                            };
                            rw.add_request_item(ri);
                        } else {
                            proof {
                                lemma_items_err_persists(d, (i + 1) as nat, item_count as nat);
                                lemma_items_error_persists(d, (i + 1) as nat, item_count as nat);
                            }
                            let mut m = String::from_str("Unsupported SyntaxID: 0x");
                            push_hex_byte(&mut m, sid);
                            m.append(" for function: 0x");
                            push_hex_byte(&mut m, func_code);
                            proof {
                                assert(items_error(d, (i + 1) as nat) == item_error_at(d, offset as int));
                                assert(SyntaxID::decode(d[offset + 2]) == Some(syntax_id));
                                assert(m@ =~= item_error_at(d, offset as int));
                            }
                            return Err(S7Error::Error(m));
                        }
                        offset += 12;
                        i += 1;
                    }
                    S7Parameter::ReadWriteParameter(rw)
                }
            },
            S7FunctionCode::CpuServices => {
                let _fc = get_u8(&mut buf);
                let item_count = get_u8(&mut buf);
                let varspec = get_u8(&mut buf);
                let plen = get_u8(&mut buf);
                let syntax_id = get_u8(&mut buf);
                let func_group = get_u8(&mut buf);
                let sub_fun = get_u8(&mut buf);
                let seq = get_u8(&mut buf);
                let (data_unit_reference_number, last_data_unit, error_code) = if remaining(&buf) >= 4 {
                    let a = get_u8(&mut buf);
                    let b = get_u8(&mut buf);
                    let c = get_u16(&mut buf);
                    (Some(a), Some(b), Some(c))
                } else {
                    (None, None, None)
                };
                let syntax_id = match SyntaxID::from(syntax_id) {
                    Some(s) => s,
                    None => {
                        return Err(error_hex("Unknown SyntaxID: ", syntax_id));
                    },
                };
                S7Parameter::Szl(
                    SzlParameter {
                        function_code,
                        item_count,
                        varspec,
                        plen,
                        syntax_id,
                        func_group,
                        sub_fun,
                        seq,
                        data_unit_reference_number,
                        last_data_unit,
                        error_code,
                    },
                )
            },
            _ => {
                return Ok(None);
            },
        };
        Ok(Some(s7_param))
    }
}

/// The bytes of two runs of items are those of the first, then those of the second.
pub proof fn lemma_items_encoded_concat(a: Seq<RequestItem>, b: Seq<RequestItem>)
    ensures
        items_encoded(a + b) == items_encoded(a) + items_encoded(b),
    decreases b.len(),
{
    if b.len() == 0 {
        assert(a + b =~= a);
        assert(items_encoded(b) =~= Seq::<u8>::empty());
        assert(items_encoded(a) + items_encoded(b) =~= items_encoded(a));
    } else {
        lemma_items_encoded_concat(a, b.drop_last());
        assert((a + b).drop_last() =~= a + b.drop_last());
        assert(items_encoded(a + b) =~= items_encoded(a) + items_encoded(b));
    }
}

/// Items that the read/write decoder gives back: each is well formed and of the
/// S7-Any syntax.
pub open spec fn items_wf(items: Seq<RequestItem>) -> bool {
    forall|j: int| 0 <= j < items.len() ==> request_item_wf(#[trigger] items[j]) && items[j].syntax_id
        == SyntaxID::S7Any
}

proof fn lemma_items_split(items: Seq<RequestItem>, j: int)
    requires
        0 <= j < items.len(),
    ensures
        items_encoded(items) == items_encoded(items.take(j)) + items[j].encoded() + items_encoded(
            items.subrange(j + 1, items.len() as int),
        ),
        items_encoded(items.take(j)).len() == 12 * j,
{
    let it = items[j];
    let before = items.take(j);
    let after = items.subrange(j + 1, items.len() as int);
    assert(items =~= before + seq![it] + after);
    lemma_items_encoded_concat(before + seq![it], after);
    lemma_items_encoded_concat(before, seq![it]);
    assert(seq![it].drop_last() =~= Seq::<RequestItem>::empty());
    assert(items_encoded(Seq::<RequestItem>::empty()) =~= Seq::<u8>::empty());
    assert(items_encoded(seq![it]) =~= it.encoded());
    lemma_items_encoded_len(before);
}

#[verifier::rlimit(40)]
#[verifier::spinoff_prover]
proof fn lemma_items_from_wire_prefix(head: Seq<u8>, items: Seq<RequestItem>, rest: Seq<u8>, k: nat)
    requires
        head.len() == 2,
        items_wf(items),
        k <= items.len(),
    ensures
        items_from_wire(head + items_encoded(items) + rest, k) == Ok::<Seq<RequestItem>, ()>(items.take(k as int)),
        items_readable(head + items_encoded(items) + rest, k),
    decreases k,
{
    let d = head + items_encoded(items) + rest;
    if k == 0 {
        assert(items.take(0) =~= Seq::<RequestItem>::empty());
    } else {
        lemma_items_from_wire_prefix(head, items, rest, (k - 1) as nat);
        let j = (k - 1) as int;
        let it = items[j];
        let after = items_encoded(items.subrange(j + 1, items.len() as int));
        lemma_items_split(items, j);
        lemma_request_item_roundtrip(it, after + rest);
        let off = 2 + 12 * j;
        assert(d.subrange(off, d.len() as int) =~= it.encoded() + (after + rest));
        assert(d[off + 2] == it.syntax_id.code());
        SyntaxID::lemma_decode_code(it.syntax_id);
        assert(items.take(k as int) =~= items.take(j).push(it));
    }
}

/// A parameter part that the decoder gives back: setup parameters with their
/// function code; read/write parameters whose count is their number of
/// well-formed S7-Any items; SZL parameters without response fields.
pub open spec fn parameter_wf(p: S7ParameterView) -> bool {
    match p {
        S7ParameterView::SetupParameter(s) => s.function_code == S7FunctionCode::SetupCommunication,
        S7ParameterView::ReadWriteParameter(rw) => (rw.function_code == S7FunctionCode::ReadVariable
            || rw.function_code == S7FunctionCode::WriteVariable) && rw.item_count == rw.request_items.len()
            && items_wf(rw.request_items),
        S7ParameterView::Szl(z) => z.function_code == S7FunctionCode::CpuServices
            && !(z.data_unit_reference_number is Some) && !(z.last_data_unit is Some)
            && !(z.error_code is Some),
    }
}

/// Decoding the bytes of a well-formed parameter part gives it back: the setup
/// parameters; a read/write parameter whose count is its number of well-formed
/// S7-Any items; the head of an SZL parameter without response fields.
pub proof fn lemma_parameter_roundtrip(p: S7ParameterView)
    requires
        parameter_wf(p),
    ensures
        S7Parameter::readable(p.encoded()),
        S7Parameter::from_wire(p.encoded()) == Ok::<Option<S7ParameterView>, ()>(Some(p)),
{
    reveal(S7Parameter::readable);
    reveal(S7Parameter::from_wire);
    let d = p.encoded();
    S7FunctionCode::lemma_decode_code(p.function_code());
    match p {
        S7ParameterView::SetupParameter(s) => {
            assert(d[0] == s.function_code.code());
        },
        S7ParameterView::ReadWriteParameter(rw) => {
            let head = seq![rw.function_code.code(), rw.item_count];
            lemma_items_encoded_len(rw.request_items);
            assert(d =~= head + items_encoded(rw.request_items) + Seq::<u8>::empty());
            lemma_items_from_wire_prefix(head, rw.request_items, Seq::<u8>::empty(), rw.item_count as nat);
            assert(rw.request_items.take(rw.item_count as int) =~= rw.request_items);
            if rw.item_count == 0 {
                assert(rw.request_items =~= Seq::<RequestItem>::empty());
            }
        },
        S7ParameterView::Szl(z) => {
            SyntaxID::lemma_decode_code(z.syntax_id);
        },
    }
}

} // verus!
