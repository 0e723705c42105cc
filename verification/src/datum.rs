//! Data part of an S7 message: the items of a read/write exchange, or the
//! system status list (SZL) record of a CPU service exchange.
use vstd::prelude::*;
use tokio_util::bytes::BytesMut;
use crate::buffer::{
    be16, buf_from, buf_new, buf_to_vec, bytes_of, extend_from_slice, from_be16, get_u16, get_u8,
    put_u16, put_u8, remaining,
};
use crate::error::{error_hex, error_msg, hex_text, is_error_text, S7Error};
use crate::item::{data_item_wf, lemma_data_item_roundtrip, DataItem, DataItemView, ReturnItem, S7ReturnItem, S7ReturnItemView};
use crate::types::{S7DataVariableType, S7FunctionCode, S7MessageType, S7ReturnCode};

verus! {

#[derive(Debug, Eq, PartialEq, Clone)]
pub struct ReadWriteDatum {
    pub return_items: Vec<S7ReturnItem>,
}

/// The values of a sequence of response items.
pub open spec fn item_views(items: Seq<S7ReturnItem>) -> Seq<S7ReturnItemView> {
    items.map_values(|i: S7ReturnItem| i@)
}

impl View for ReadWriteDatum {
    type V = Seq<S7ReturnItemView>;

    open spec fn view(&self) -> Seq<S7ReturnItemView> {
        item_views(self.return_items@)
    }
}

/// An item followed by a fill byte when its length is odd.
pub open spec fn padded(v: S7ReturnItemView) -> Seq<u8> {
    v.encoded() + if v.encoded().len() % 2 == 1 {
        seq![0u8]
    } else {
        Seq::<u8>::empty()
    }
}

/// The items one after the other, each odd-length one followed by a fill byte.
pub open spec fn all_padded(items: Seq<S7ReturnItemView>) -> Seq<u8>
    decreases items.len(),
{
    if items.len() == 0 {
        Seq::<u8>::empty()
    } else {
        all_padded(items.drop_last()) + padded(items.last())
    }
}

/// The items one after the other; every odd-length item but the last is
/// followed by a fill byte, so that the next item starts at an even offset.
pub open spec fn datum_encoded(items: Seq<S7ReturnItemView>) -> Seq<u8> {
    if items.len() == 0 {
        Seq::<u8>::empty()
    } else {
        all_padded(items.drop_last()) + items.last().encoded()
    }
}

/// The padded bytes of two runs of items are those of the first, then those of the second.
pub proof fn lemma_all_padded_concat(a: Seq<S7ReturnItemView>, b: Seq<S7ReturnItemView>)
    ensures
        all_padded(a + b) == all_padded(a) + all_padded(b),
    decreases b.len(),
{
    if b.len() == 0 {
        assert(a + b =~= a);
        assert(all_padded(a) + all_padded(b) =~= all_padded(a));
    } else {
        lemma_all_padded_concat(a, b.drop_last());
        assert((a + b).drop_last() =~= a + b.drop_last());
        assert(all_padded(a + b) =~= all_padded(a) + all_padded(b));
    }
}

/// The lengths of the items, added up.
pub open spec fn items_len_sum(items: Seq<S7ReturnItemView>) -> nat
    decreases items.len(),
{
    if items.len() == 0 {
        0
    } else {
        items_len_sum(items.drop_last()) + items.last().encoded().len()
    }
}

/// How many of the items have an odd length.
pub open spec fn odd_count(items: Seq<S7ReturnItemView>) -> nat
    decreases items.len(),
{
    if items.len() == 0 {
        0
    } else {
        odd_count(items.drop_last()) + if items.last().encoded().len() % 2 == 1 {
            1nat
        } else {
            0nat
        }
    }
}

proof fn lemma_all_padded_len(items: Seq<S7ReturnItemView>)
    ensures
        all_padded(items).len() == items_len_sum(items) + odd_count(items),
    decreases items.len(),
{
    if items.len() > 0 {
        lemma_all_padded_len(items.drop_last());
    }
}

/// The length of a data part is the lengths of its items added up, plus one
/// fill byte after each odd-length item but the last.
pub proof fn lemma_datum_len(items: Seq<S7ReturnItemView>)
    ensures
        items.len() == 0 ==> datum_encoded(items).len() == 0,
        items.len() > 0 ==> datum_encoded(items).len() == items_len_sum(items) + odd_count(items.drop_last()),
{
    if items.len() > 0 {
        lemma_all_padded_len(items.drop_last());
    }
}

/// Each data item as a response item value.
pub open spec fn as_data_items(s: Seq<DataItem>) -> Seq<S7ReturnItemView> {
    Seq::new(s.len(), |j: int| S7ReturnItemView::Data(s[j]@))
}

/// `prefix` followed by what `r` holds, or the error of `r`.
pub open spec fn prepend(prefix: Seq<S7ReturnItemView>, r: Result<Seq<S7ReturnItemView>, ()>) -> Result<Seq<S7ReturnItemView>, ()> {
    match r {
        Ok(rest) => Ok(prefix + rest),
        Err(()) => Err(()),
    }
}

proof fn lemma_prepend_step(before: Seq<S7ReturnItemView>, x: S7ReturnItemView, r: Result<Seq<S7ReturnItemView>, ()>)
    ensures
        prepend(before, prepend(seq![x], r)) == prepend(before.push(x), r),
{
    if let Ok(rest) = r {
        assert(before + (seq![x] + rest) =~= before.push(x) + rest);
    }
}

proof fn lemma_all_padded_one(x: S7ReturnItemView)
    ensures
        all_padded(seq![x]) == padded(x),
{
    assert(seq![x].drop_last() =~= Seq::<S7ReturnItemView>::empty());
    assert(all_padded(Seq::<S7ReturnItemView>::empty()) =~= Seq::<u8>::empty());
    assert(all_padded(seq![x]) =~= padded(x));
}

/// Every data item's length field fits and its encoded size fits `isize`.
pub open spec fn items_encodable(items: Seq<S7ReturnItemView>) -> bool {
    forall|i: int| 0 <= i < items.len() ==> (#[trigger] items[i]).encodable()
}

/// The response items read from `d`. The results of a write (`write_ack`)
/// are single bytes; data items are followed by a fill byte when their length
/// is odd and more bytes follow.
pub open spec fn rw_items_from_wire(d: Seq<u8>, write_ack: bool) -> Result<Seq<S7ReturnItemView>, ()>
    decreases d.len(),
{
    if d.len() == 0 {
        Ok(Seq::<S7ReturnItemView>::empty())
    } else if write_ack {
        match ReturnItem::from_wire(d) {
            Err(()) => Err(()),
            Ok(r) => match rw_items_from_wire(d.subrange(1, d.len() as int), write_ack) {
                Ok(rest) => Ok(seq![S7ReturnItemView::Return(r)] + rest),
                Err(()) => Err(()),
            },
        }
    } else {
        match DataItem::from_wire(d) {
            Err(()) => Err(()),
            Ok(v) => {
                let len = 4 + v.data.len();
                let next = if len < d.len() && len % 2 == 1 { len + 1 } else { len };
                if next >= d.len() {
                    Ok(seq![S7ReturnItemView::Data(v)])
                } else {
                    match rw_items_from_wire(d.subrange(next as int, d.len() as int), write_ack) {
                        Ok(rest) => Ok(seq![S7ReturnItemView::Data(v)] + rest),
                        Err(()) => Err(()),
                    }
                }
            },
        }
    }
}

/// The message that refuses the items of `d`: that of the first item that
/// cannot be read (empty where all can).
pub open spec fn rw_items_error(d: Seq<u8>, write_ack: bool) -> Seq<char>
    decreases d.len(),
{
    if d.len() == 0 {
        Seq::<char>::empty()
    } else if write_ack {
        match ReturnItem::from_wire(d) {
            Err(()) => hex_text("Unknown S7ReturnCode: "@, d[0]),
            Ok(_) => rw_items_error(d.subrange(1, d.len() as int), write_ack),
        }
    } else {
        match DataItem::from_wire(d) {
            Err(()) => DataItem::wire_error(d),
            Ok(v) => {
                let len = 4 + v.data.len();
                let next = if len < d.len() && len % 2 == 1 { len + 1 } else { len };
                if next >= d.len() {
                    Seq::<char>::empty()
                } else {
                    rw_items_error(d.subrange(next as int, d.len() as int), write_ack)
                }
            },
        }
    }
}

/// Whether the item decoder stays within `d`: each data item it reaches has
/// its type byte, and its four header bytes when the type is known.
pub open spec fn rw_items_readable(d: Seq<u8>, write_ack: bool) -> bool
    decreases d.len(),
{
    if d.len() == 0 {
        true
    } else if write_ack {
        rw_items_readable(d.subrange(1, d.len() as int), write_ack)
    } else {
        DataItem::readable(d) && match DataItem::from_wire(d) {
            Err(()) => true,
            Ok(v) => {
                let len = 4 + v.data.len();
                let next = if len < d.len() && len % 2 == 1 { len + 1 } else { len };
                next < d.len() ==> rw_items_readable(d.subrange(next as int, d.len() as int), write_ack)
            },
        }
    }
}

impl ReadWriteDatum {
    /// A data part holding the data items of a write request.
    pub fn new(data_items: Vec<DataItem>) -> (r: ReadWriteDatum)
        ensures
            r@ == as_data_items(data_items@),
    {
        let mut items: Vec<S7ReturnItem> = Vec::new();
        let mut src = data_items;
        let ghost orig = src@;
        let n = src.len();
        let mut i: usize = 0;
        while i < n
            invariant
                n == orig.len(),
                0 <= i <= n,
                src@ == orig.subrange(i as int, n as int),
                items@.len() == i,
                item_views(items@) == as_data_items(orig.take(i as int)),
            decreases n - i,
        {
            let d = src.remove(0);
            assert(d == orig[i as int]);
            let ghost before = items@;
            items.push(S7ReturnItem::Data(d));
            assert(src@ =~= orig.subrange(i + 1, n as int));
            assert forall|j: int| 0 <= j < i + 1 implies #[trigger] item_views(items@)[j] == as_data_items(orig.take(i + 1))[j] by {
                if j < i {
                    assert(items@[j] == before[j]);
                    assert(item_views(before)[j] == as_data_items(orig.take(i as int))[j]);
                }
            }
            i += 1;
            assert(item_views(items@) =~= as_data_items(orig.take(i as int)));
        }
        assert(orig.take(n as int) =~= orig);
        ReadWriteDatum { return_items: items }
    }

    pub fn add_item(&mut self, return_item: S7ReturnItem)
        ensures
            final(self)@ == old(self)@.push(return_item@),
    {
        self.return_items.push(return_item);
        assert(final(self)@ =~= old(self)@.push(return_item@));
    }

    /// Length on the wire, fill bytes included.
    #[verifier::spinoff_prover]
    #[verifier::rlimit(40)]
    pub fn byte_len(&self) -> (r: usize)
        requires
            items_encodable(self@),
            datum_encoded(self@).len() <= isize::MAX,
        ensures
            r == datum_encoded(self@).len(),
    {
        let n = self.return_items.len();
        if n == 0 {
            return 0;
        }
        let ghost v = self@;
        let mut sum: usize = 0;
        let mut i: usize = 0;
        while i < n
            invariant
                n == self.return_items@.len(),
                v == self@,
                n > 0,
                items_encodable(v),
                datum_encoded(v).len() <= isize::MAX,
                0 <= i <= n,
                i < n ==> sum == all_padded(v.take(i as int)).len(),
                i == n ==> sum == datum_encoded(v).len(),
            decreases n - i,
        {
            proof {
                lemma_all_padded_concat(v.take(i as int), v.subrange(i as int, n - 1));
                assert(v.take(i as int) + v.subrange(i as int, n - 1) =~= v.take(n - 1));
                assert(v.drop_last() =~= v.take(n - 1));
                assert(v[i as int].encodable());
                if i < n - 1 {
                    lemma_all_padded_concat(v.take(i as int), seq![v[i as int]]);
                    lemma_all_padded_concat(v.take(i as int + 1), v.subrange(i + 1, n - 1));
                    assert(v.take(i as int + 1) =~= v.take(i as int) + seq![v[i as int]]);
                    assert(v.take(i as int + 1) + v.subrange(i + 1, n - 1) =~= v.take(n - 1));
                    lemma_all_padded_one(v[i as int]);
                }
            }
            let item_byte_len = self.return_items[i].byte_len();
            sum = sum + item_byte_len;
            if i != n - 1 && item_byte_len % 2 == 1 {
                sum = sum + 1;
            }
            i = i + 1;
        }
        sum
    }

    pub fn to_be_bytes(&self) -> (r: Vec<u8>)
        requires
            items_encodable(self@),
            datum_encoded(self@).len() <= isize::MAX,
        ensures
            r@ == datum_encoded(self@),
    {
        let n = self.return_items.len();
        if n == 0 {
            return Vec::new();
        }
        let ghost v = self@;
        let mut buf: BytesMut = buf_new();
        let mut i: usize = 0;
        while i < n
            invariant
                n == self.return_items@.len(),
                v == self@,
                n > 0,
                items_encodable(v),
                datum_encoded(v).len() <= isize::MAX,
                0 <= i <= n,
                i < n ==> bytes_of(buf) == all_padded(v.take(i as int)),
                i == n ==> bytes_of(buf) == datum_encoded(v),
            decreases n - i,
        {
            proof {
                lemma_all_padded_concat(v.take(i as int), v.subrange(i as int, n - 1));
                assert(v.take(i as int) + v.subrange(i as int, n - 1) =~= v.take(n - 1));
                assert(v.drop_last() =~= v.take(n - 1));
                assert(v[i as int].encodable());
                if i < n - 1 {
                    lemma_all_padded_concat(v.take(i as int), seq![v[i as int]]);
                    lemma_all_padded_concat(v.take(i as int + 1), v.subrange(i + 1, n - 1));
                    assert(v.take(i as int + 1) =~= v.take(i as int) + seq![v[i as int]]);
                    assert(v.take(i as int + 1) + v.subrange(i + 1, n - 1) =~= v.take(n - 1));
                    lemma_all_padded_one(v[i as int]);
                }
            }
            let item_bytes = self.return_items[i].to_be_bytes();
            let item_byte_len = item_bytes.len();
            extend_from_slice(&mut buf, item_bytes.as_slice());
            if i != n - 1 && item_byte_len % 2 == 1 {
                put_u8(&mut buf, 0x00);
            }
            i = i + 1;
            assert(i < n ==> bytes_of(buf) =~= all_padded(v.take(i as int)));
            assert(i == n ==> bytes_of(buf) =~= datum_encoded(v));
        }
        buf_to_vec(&buf)
    }

    /// Reads the items of a data part; write acknowledgements carry one-byte
    /// results, everything else carries data items.
    pub fn from_be_bytes(
        data: &[u8],
        message_type: S7MessageType,
        function_code: S7FunctionCode,
    ) -> (r: Result<Self, S7Error>)
        requires
            rw_items_readable(
                data@,
                message_type == S7MessageType::AckData && function_code == S7FunctionCode::WriteVariable,
            ),
        ensures
            ({
                let write_ack = message_type == S7MessageType::AckData && function_code
                    == S7FunctionCode::WriteVariable;
                match r {
                    Ok(d) => rw_items_from_wire(data@, write_ack) == Ok::<Seq<S7ReturnItemView>, ()>(d@),
                    Err(e) => rw_items_from_wire(data@, write_ack) is Err && is_error_text(
                        e,
                        rw_items_error(data@, write_ack),
                    ),
                }
            }),
    {
        let write_ack = match (message_type, function_code) {
            (S7MessageType::AckData, S7FunctionCode::WriteVariable) => true,
            _ => false,
        };
        let ghost d = data@;
        let mut items: Vec<S7ReturnItem> = Vec::new();
        let mut offset: usize = 0;
        assert(d.subrange(0, d.len() as int) =~= d);
        assert(item_views(items@) =~= Seq::<S7ReturnItemView>::empty());
        proof {
            if let Ok(rest) = rw_items_from_wire(d, write_ack) {
                assert(Seq::<S7ReturnItemView>::empty() + rest =~= rest);
            }
        }
        while offset < data.len()
            invariant
                d == data@,
                offset <= d.len(),
                write_ack == (message_type == S7MessageType::AckData && function_code == S7FunctionCode::WriteVariable),
                rw_items_readable(d.subrange(offset as int, d.len() as int), write_ack),
                rw_items_from_wire(d, write_ack) == prepend(
                    item_views(items@),
                    rw_items_from_wire(d.subrange(offset as int, d.len() as int), write_ack),
                ),
                rw_items_error(d, write_ack) == rw_items_error(d.subrange(offset as int, d.len() as int), write_ack),
            decreases d.len() - offset,
        {
            let remain = &data[offset..data.len()];
            let ghost rd = remain@;
            let ghost before = item_views(items@);
            assert(rd =~= d.subrange(offset as int, d.len() as int));
            if write_ack {
                let item = ReturnItem::from_be_bytes(remain)?;
                offset += item.byte_len();
                assert(rd.subrange(1, rd.len() as int) =~= d.subrange(offset as int, d.len() as int));
                items.push(S7ReturnItem::Return(item));
                assert(item_views(items@) =~= before.push(S7ReturnItemView::Return(item)));
                proof {
                    lemma_prepend_step(before, S7ReturnItemView::Return(item), rw_items_from_wire(d.subrange(offset as int, d.len() as int), write_ack));
                }
            } else {
                let item = DataItem::from_be_bytes(remain)?;
                let item_len = item.byte_len();
                let ghost iv = item@;
                items.push(S7ReturnItem::Data(item));
                assert(item_views(items@) =~= before.push(S7ReturnItemView::Data(iv)));
                let ghost start = offset;
                offset += item_len;
                if offset < data.len() && item_len % 2 == 1 {
                    offset += 1;
                }
                if offset < data.len() {
                    assert(rd.subrange((offset - start) as int, rd.len() as int) =~= d.subrange(offset as int, d.len() as int));
                    proof {
                        lemma_prepend_step(before, S7ReturnItemView::Data(iv), rw_items_from_wire(d.subrange(offset as int, d.len() as int), write_ack));
                    }
                } else {
                    assert(d.subrange(offset as int, d.len() as int) =~= Seq::<u8>::empty());
                    assert(before + seq![S7ReturnItemView::Data(iv)] =~= item_views(items@) + Seq::<S7ReturnItemView>::empty());
                }
            }
        }
        assert(d.subrange(offset as int, d.len() as int) =~= Seq::<u8>::empty());
        assert(item_views(items@) + Seq::<S7ReturnItemView>::empty() =~= item_views(items@));
        Ok(ReadWriteDatum { return_items: items })
    }
}

impl Default for ReadWriteDatum {
    fn default() -> (r: Self)
        ensures
            r@ == Seq::<S7ReturnItemView>::empty(),
    {
        let r = Self { return_items: Vec::new() };
        assert(r@ =~= Seq::<S7ReturnItemView>::empty());
        r
    }
}

/// System status list record of a CPU service message.
#[derive(Debug, Clone)]
pub struct SzlDaum {
    pub return_code: S7ReturnCode,
    pub transport_size: u8,
    pub data_len: u16,
    pub szl_id: u16,
    pub szl_index: u16,
    pub partlist_byte_len: Option<u16>,
    pub partlist_count: Option<u16>,
    pub all_data: Option<Vec<u8>>,
}

/// An SZL record as values.
pub struct SzlDaumView {
    pub return_code: S7ReturnCode,
    pub transport_size: u8,
    pub data_len: u16,
    pub szl_id: u16,
    pub szl_index: u16,
    pub partlist_byte_len: Option<u16>,
    pub partlist_count: Option<u16>,
    pub all_data: Option<Seq<u8>>,
}

impl View for SzlDaum {
    type V = SzlDaumView;

    open spec fn view(&self) -> SzlDaumView {
        SzlDaumView {
            return_code: self.return_code,
            transport_size: self.transport_size,
            data_len: self.data_len,
            szl_id: self.szl_id,
            szl_index: self.szl_index,
            partlist_byte_len: self.partlist_byte_len,
            partlist_count: self.partlist_count,
            all_data: match self.all_data {
                Some(v) => Some(v@),
                None => None,
            },
        }
    }
}

impl SzlDaumView {
    /// Whether the part-list fields and the records are all present.
    pub open spec fn has_partlist(self) -> bool {
        self.partlist_byte_len is Some && self.partlist_count is Some && self.all_data is Some
    }

    /// The bytes of this record: 8 header bytes, then, with a part list, its
    /// record length, its record count and the records.
    pub open spec fn encoded(self) -> Seq<u8> {
        seq![self.return_code.code(), self.transport_size] + be16(self.data_len) + be16(self.szl_id)
            + be16(self.szl_index) + if self.has_partlist() {
            be16(self.partlist_byte_len.unwrap()) + be16(self.partlist_count.unwrap())
                + self.all_data.unwrap()
        } else {
            Seq::<u8>::empty()
        }
    }
}

impl SzlDaum {
    /// The record of a request for SZL `szl_id`, index `szl_index`.
    pub fn new(szl_id: u16, szl_index: u16) -> (r: Self)
        ensures
            r@ == (SzlDaumView {
                return_code: S7ReturnCode::Success,
                transport_size: 0x09,
                data_len: 0x0004,
                szl_id,
                szl_index,
                partlist_byte_len: None,
                partlist_count: None,
                all_data: None,
            }),
    {
        SzlDaum {
            return_code: S7ReturnCode::Success,
            transport_size: 0x09,
            data_len: 0x0004,
            szl_id,
            szl_index,
            partlist_byte_len: None,
            partlist_count: None,
            all_data: None,
        }
    }

    pub fn byte_len(&self) -> (r: usize)
        requires
            self@.encoded().len() <= usize::MAX,
        ensures
            r == self@.encoded().len(),
            r == if self@.has_partlist() {
                12 + self@.all_data.unwrap().len()
            } else {
                8
            },
    {
        if let (Some(_partlist_byte_len), Some(_partlist_count), Some(all_data)) = (
            self.partlist_byte_len,
            &self.partlist_count,
            &self.all_data,
        ) {
            8 + 2 + 2 + all_data.len()
        } else {
            8
        }
    }

    pub fn to_be_bytes(&self) -> (r: Vec<u8>)
        requires
            self@.encoded().len() <= isize::MAX,
        ensures
            r@ == self@.encoded(),
    {
        let mut buf: BytesMut = buf_new();
        put_u8(&mut buf, self.return_code.code());
        put_u8(&mut buf, self.transport_size);
        put_u16(&mut buf, self.data_len);
        put_u16(&mut buf, self.szl_id);
        put_u16(&mut buf, self.szl_index);
        if let (Some(partlist_byte_len), Some(partlist_count), Some(all_data)) = (
            self.partlist_byte_len,
            self.partlist_count,
            &self.all_data,
        ) {
            put_u16(&mut buf, partlist_byte_len);
            put_u16(&mut buf, partlist_count);
            extend_from_slice(&mut buf, all_data.as_slice());
        }
        let r = buf_to_vec(&buf);
        assert(r@ =~= self@.encoded());
        r
    }

    /// The record that `d` holds: a part list is read when at least four bytes
    /// follow the header, and then every remaining byte is record data.
    pub open spec fn from_wire(d: Seq<u8>) -> Result<SzlDaumView, ()> {
        match S7ReturnCode::decode(d[0]) {
            None => Err(()),
            Some(rc) => Ok(
                SzlDaumView {
                    return_code: rc,
                    transport_size: d[1],
                    data_len: from_be16(d[2], d[3]),
                    szl_id: from_be16(d[4], d[5]),
                    szl_index: from_be16(d[6], d[7]),
                    partlist_byte_len: if d.len() >= 12 { Some(from_be16(d[8], d[9])) } else { None },
                    partlist_count: if d.len() >= 12 { Some(from_be16(d[10], d[11])) } else { None },
                    all_data: if d.len() >= 12 { Some(d.subrange(12, d.len() as int)) } else { None },
                },
            ),
        }
    }

    pub fn from_be_bytes(data: &[u8]) -> (r: Result<Self, S7Error>)
        requires
            data@.len() >= 8,
        ensures
            match r {
                Ok(z) => SzlDaum::from_wire(data@) == Ok::<SzlDaumView, ()>(z@),
                Err(e) => SzlDaum::from_wire(data@) is Err && is_error_text(
                    e,
                    hex_text("Unknown S7ReturnCode: "@, data@[0]),
                ),
            },
    {
        let mut buf = buf_from(data);
        let return_code = get_u8(&mut buf);
        let transport_size = get_u8(&mut buf);
        let data_len = get_u16(&mut buf);
        let szl_id = get_u16(&mut buf);
        let szl_index = get_u16(&mut buf);
        let (partlist_byte_len, partlist_count, all_data) = if remaining(&buf) >= 4 {
            let partlist_byte_len = get_u16(&mut buf);
            let partlist_count = get_u16(&mut buf);
            let all_data = buf_to_vec(&buf);
            (Some(partlist_byte_len), Some(partlist_count), Some(all_data))
        } else {
            (None, None, None)
        };
        let rc = match S7ReturnCode::from(return_code) {
            Some(rc) => rc,
            None => {
                return Err(error_hex("Unknown S7ReturnCode: ", return_code));
            },
        };
        let z = SzlDaum {
            return_code: rc,
            transport_size,
            data_len,
            szl_id,
            szl_index,
            partlist_byte_len,
            partlist_count,
            all_data,
        };
        proof {
            if data@.len() >= 12 {
                assert(z@.all_data.unwrap() =~= data@.subrange(12, data@.len() as int));
            }
        }
        Ok(z)
    }
}

#[derive(Debug, Clone)]
pub enum Datum {
    ReadWrite(ReadWriteDatum),
    Szl(SzlDaum),
}

/// A data part as values.
pub enum DatumView {
    ReadWrite(Seq<S7ReturnItemView>),
    Szl(SzlDaumView),
}

impl View for Datum {
    type V = DatumView;

    open spec fn view(&self) -> DatumView {
        match self {
            Datum::ReadWrite(d) => DatumView::ReadWrite(d@),
            Datum::Szl(d) => DatumView::Szl(d@),
        }
    }
}

impl DatumView {
    pub open spec fn encoded(self) -> Seq<u8> {
        match self {
            DatumView::ReadWrite(items) => datum_encoded(items),
            DatumView::Szl(z) => z.encoded(),
        }
    }

    /// Whether the data part can be measured and written.
    pub open spec fn encodable(self) -> bool {
        match self {
            DatumView::ReadWrite(items) => items_encodable(items) && datum_encoded(items).len() <= isize::MAX,
            DatumView::Szl(z) => z.encoded().len() <= isize::MAX,
        }
    }
}

impl Default for Datum {
    fn default() -> (r: Self)
        ensures
            r@ == DatumView::ReadWrite(Seq::<S7ReturnItemView>::empty()),
    {
        Datum::ReadWrite(ReadWriteDatum::default())
    }
}

impl Datum {
    pub fn byte_len(&self) -> (r: usize)
        requires
            self@.encodable(),
        ensures
            r == self@.encoded().len(),
    {
        match self {
            Datum::ReadWrite(d) => d.byte_len(),
            Datum::Szl(d) => d.byte_len(),
        }
    }

    pub fn to_be_bytes(&self) -> (r: Vec<u8>)
        requires
            self@.encodable(),
        ensures
            r@ == self@.encoded(),
    {
        match self {
            Datum::ReadWrite(rw) => rw.to_be_bytes(),
            Datum::Szl(d) => d.to_be_bytes(),
        }
    }

    /// Whether the decoder stays within `d` for this function and message type.
    #[verifier::opaque]
    pub open spec fn readable(d: Seq<u8>, message_type: S7MessageType, function_code: S7FunctionCode) -> bool {
        match function_code {
            S7FunctionCode::CpuServices => d.len() >= 8,
            S7FunctionCode::ReadVariable | S7FunctionCode::WriteVariable => rw_items_readable(
                d,
                message_type == S7MessageType::AckData && function_code == S7FunctionCode::WriteVariable,
            ),
            _ => true,
        }
    }

    /// The message that refuses the data part `d` for this function and
    /// message type.
    pub open spec fn wire_error(d: Seq<u8>, message_type: S7MessageType, function_code: S7FunctionCode) -> Seq<
        char,
    > {
        match function_code {
            S7FunctionCode::CpuServices => hex_text("Unknown S7ReturnCode: "@, d[0]),
            S7FunctionCode::ReadVariable | S7FunctionCode::WriteVariable => rw_items_error(
                d,
                message_type == S7MessageType::AckData && function_code == S7FunctionCode::WriteVariable,
            ),
            _ => "function code can not be recognized"@,
        }
    }

    /// The data part that `d` holds for this function and message type.
    #[verifier::opaque]
    pub open spec fn from_wire(d: Seq<u8>, message_type: S7MessageType, function_code: S7FunctionCode) -> Result<DatumView, ()> {
        match function_code {
            S7FunctionCode::CpuServices => match SzlDaum::from_wire(d) {
                Ok(z) => Ok(DatumView::Szl(z)),
                Err(()) => Err(()),
            },
            S7FunctionCode::ReadVariable | S7FunctionCode::WriteVariable => match rw_items_from_wire(
                d,
                message_type == S7MessageType::AckData && function_code == S7FunctionCode::WriteVariable,
            ) {
                Ok(items) => Ok(DatumView::ReadWrite(items)),
                Err(()) => Err(()),
            },
            _ => Err(()),
        }
    }

    pub fn from_be_bytes(
        bytes: &[u8],
        message_type: S7MessageType,
        function_code: S7FunctionCode,
    ) -> (r: Result<Self, S7Error>)
        requires
            Datum::readable(bytes@, message_type, function_code),
        ensures
            match r {
                Ok(d) => Datum::from_wire(bytes@, message_type, function_code) == Ok::<DatumView, ()>(d@),
                Err(e) => Datum::from_wire(bytes@, message_type, function_code) is Err && is_error_text(
                    e,
                    Datum::wire_error(bytes@, message_type, function_code),
                ),
            },
    {
        reveal(Datum::readable);
        reveal(Datum::from_wire);
        match function_code {
            S7FunctionCode::CpuServices => Ok(Datum::Szl(SzlDaum::from_be_bytes(bytes)?)),
            S7FunctionCode::ReadVariable | S7FunctionCode::WriteVariable => Ok(
                Datum::ReadWrite(ReadWriteDatum::from_be_bytes(bytes, message_type, function_code)?),
            ),
            _ => Err(error_msg("function code can not be recognized")),
        }
    }
}

/// Write acknowledgements are one byte each, so any bytes can be read as them.
proof fn lemma_write_acks_readable(d: Seq<u8>)
    ensures
        rw_items_readable(d, true),
    decreases d.len(),
{
    if d.len() > 0 {
        lemma_write_acks_readable(d.subrange(1, d.len() as int));
    }
}

/// Whether reading the items of a read/write data part stays within `d`; see
/// `rw_items_readable`.
fn rw_items_are_readable(d: &[u8], write_ack: bool) -> (r: bool)
    ensures
        r == rw_items_readable(d@, write_ack),
{
    if write_ack {
        proof {
            lemma_write_acks_readable(d@);
        }
        return true;
    }
    let n = d.len();
    let mut p: usize = 0;
    assert(d@.subrange(0, n as int) =~= d@);
    while p < n
        invariant
            n == d@.len(),
            p <= n,
            !write_ack,
            rw_items_readable(d@, write_ack) == rw_items_readable(d@.subrange(p as int, n as int), write_ack),
        decreases n - p,
    {
        let rest = &d[p..n];
        assert(rest@ == d@.subrange(p as int, n as int));
        if !(rest.len() >= 2 && (S7DataVariableType::from(rest[1]).is_none() || rest.len() >= 4)) {
            return false;
        }
        match DataItem::from_be_bytes(rest) {
            Err(_) => {
                return true;
            },
            Ok(item) => {
                let len = 4 + item.data.len();
                let next = if len < rest.len() && len % 2 == 1 {
                    len + 1
                } else {
                    len
                };
                if next >= rest.len() {
                    return true;
                }
                assert(rest@.subrange(next as int, rest@.len() as int) =~= d@.subrange(p + next, n as int));
                p = p + next;
            },
        }
    }
    assert(d@.subrange(n as int, n as int).len() == 0);
    true
}

impl Datum {
    /// Whether `from_be_bytes` can read `bytes` for this message type and
    /// function: its decoder then stays within them.
    pub fn is_readable(bytes: &[u8], message_type: S7MessageType, function_code: S7FunctionCode) -> (r: bool)
        ensures
            r == Datum::readable(bytes@, message_type, function_code),
    {
        reveal(Datum::readable);
        match function_code {
            S7FunctionCode::CpuServices => bytes.len() >= 8,
            S7FunctionCode::ReadVariable | S7FunctionCode::WriteVariable => {
                let write_ack = message_type == S7MessageType::AckData && function_code
                    == S7FunctionCode::WriteVariable;
                rw_items_are_readable(bytes, write_ack)
            },
            _ => true,
        }
    }
}

/// Decoding the bytes of an SZL record whose part-list fields are all present
/// or all absent gives the record back.
pub proof fn lemma_szl_daum_roundtrip(z: SzlDaumView)
    requires
        z.has_partlist() || (!(z.partlist_byte_len is Some) && !(z.partlist_count is Some) && !(z.all_data is Some)),
    ensures
        z.encoded().len() >= 8,
        SzlDaum::from_wire(z.encoded()) == Ok::<SzlDaumView, ()>(z),
{
    S7ReturnCode::lemma_decode_code(z.return_code);
    let d = z.encoded();
    if z.has_partlist() {
        assert(d.subrange(12, d.len() as int) =~= z.all_data.unwrap());
    }
}

/// The items of a read response: data items that decode back to themselves.
pub open spec fn read_items_wf(items: Seq<S7ReturnItemView>) -> bool {
    forall|i: int| 0 <= i < items.len() ==> match #[trigger] items[i] {
        S7ReturnItemView::Data(v) => data_item_wf(v),
        S7ReturnItemView::Return(_) => false,
    }
}

proof fn lemma_datum_encoded_front(x: S7ReturnItemView, rest: Seq<S7ReturnItemView>)
    ensures
        rest.len() == 0 ==> datum_encoded(seq![x] + rest) == x.encoded(),
        rest.len() > 0 ==> datum_encoded(seq![x] + rest) == padded(x) + datum_encoded(rest),
{
    let all = seq![x] + rest;
    if rest.len() == 0 {
        assert(all.drop_last() =~= Seq::<S7ReturnItemView>::empty());
        assert(all_padded(Seq::<S7ReturnItemView>::empty()) =~= Seq::<u8>::empty());
        assert(datum_encoded(all) =~= x.encoded());
    } else {
        assert(all.drop_last() =~= seq![x] + rest.drop_last());
        lemma_all_padded_concat(seq![x], rest.drop_last());
        lemma_all_padded_one(x);
        assert(datum_encoded(all) =~= padded(x) + datum_encoded(rest));
    }
}

#[verifier::spinoff_prover]
#[verifier::rlimit(40)]
proof fn lemma_read_step(v: DataItemView, tail: Seq<u8>, rest: Seq<S7ReturnItemView>)
    requires
        data_item_wf(v),
        tail.len() > 0,
        rw_items_readable(tail, false),
        rw_items_from_wire(tail, false) == Ok::<Seq<S7ReturnItemView>, ()>(rest),
    ensures
        rw_items_readable(padded(S7ReturnItemView::Data(v)) + tail, false),
        rw_items_from_wire(padded(S7ReturnItemView::Data(v)) + tail, false) == Ok::<Seq<S7ReturnItemView>, ()>(
            seq![S7ReturnItemView::Data(v)] + rest,
        ),
{
    let len = 4 + v.data.len();
    let fill = if len % 2 == 1 { seq![0u8] } else { Seq::<u8>::empty() };
    let d = padded(S7ReturnItemView::Data(v)) + tail;
    lemma_data_item_roundtrip(v, fill + tail);
    assert(d =~= v.encoded() + (fill + tail));
    let next = if len % 2 == 1 { len + 1 } else { len };
    assert(d.subrange(next as int, d.len() as int) =~= tail);
}

proof fn lemma_read_last(v: DataItemView)
    requires
        data_item_wf(v),
    ensures
        rw_items_readable(v.encoded(), false),
        rw_items_from_wire(v.encoded(), false) == Ok::<Seq<S7ReturnItemView>, ()>(seq![S7ReturnItemView::Data(v)]),
{
    lemma_data_item_roundtrip(v, Seq::<u8>::empty());
    assert(v.encoded() + Seq::<u8>::empty() =~= v.encoded());
}

proof fn lemma_read_items_tail(items: Seq<S7ReturnItemView>)
    requires
        read_items_wf(items),
        items.len() > 0,
    ensures
        read_items_wf(items.subrange(1, items.len() as int)),
        items[0] is Data,
        data_item_wf(items[0]->Data_0),
        datum_encoded(items).len() >= 4,
{
    let rest = items.subrange(1, items.len() as int);
    assert forall|i: int| 0 <= i < rest.len() implies match #[trigger] rest[i] {
        S7ReturnItemView::Data(v) => data_item_wf(v),
        S7ReturnItemView::Return(_) => false,
    } by {
        assert(rest[i] == items[i + 1]);
    }
    assert(items[0] is Data);
    assert(items =~= seq![items[0]] + rest);
    lemma_datum_encoded_front(items[0], rest);
}

/// Decoding the bytes of the data part of a read response gives its items back.
pub proof fn lemma_read_datum_roundtrip(items: Seq<S7ReturnItemView>)
    requires
        read_items_wf(items),
    ensures
        rw_items_readable(datum_encoded(items), false),
        rw_items_from_wire(datum_encoded(items), false) == Ok::<Seq<S7ReturnItemView>, ()>(items),
    decreases items.len(),
{
    if items.len() == 0 {
        assert(items =~= Seq::<S7ReturnItemView>::empty());
        return;
    }
    lemma_read_items_tail(items);
    let x = items[0];
    let v = x->Data_0;
    let rest = items.subrange(1, items.len() as int);
    assert(items =~= seq![x] + rest);
    lemma_datum_encoded_front(x, rest);
    if rest.len() == 0 {
        lemma_read_last(v);
        assert(seq![x] + rest =~= seq![S7ReturnItemView::Data(v)]);
    } else {
        lemma_read_datum_roundtrip(rest);
        lemma_read_items_tail(rest);
        lemma_read_step(v, datum_encoded(rest), rest);
    }
}

} // verus!
