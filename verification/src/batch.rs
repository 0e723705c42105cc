//! Cutting reads and writes that do not fit one PDU into requests that do.
use vstd::prelude::*;
use crate::datum::{all_padded, datum_encoded, padded};
use crate::item::{DataItem, DataItemView, RequestItem, S7ReturnItemView};

verus! {

/// `s` cut into consecutive groups of `k`, the last one possibly shorter.
pub open spec fn chunks<T>(s: Seq<T>, k: nat) -> Seq<Seq<T>>
    decreases s.len(),
{
    if s.len() == 0 || k == 0 {
        Seq::<Seq<T>>::empty()
    } else if s.len() <= k {
        seq![s]
    } else {
        seq![s.take(k as int)] + chunks(s.skip(k as int), k)
    }
}

/// The groups one after the other.
pub open spec fn joined<T>(g: Seq<Seq<T>>) -> Seq<T>
    decreases g.len(),
{
    if g.len() == 0 {
        Seq::<T>::empty()
    } else {
        g[0] + joined(g.drop_first())
    }
}

/// The item sequences that a vector of item vectors holds.
pub open spec fn item_groups(r: Seq<Vec<RequestItem>>) -> Seq<Seq<RequestItem>> {
    r.map_values(|v: Vec<RequestItem>| v@)
}

/// How many items one read request holds within the PDU length `pdu`: its S7
/// part is 12 bytes plus 12 per item, and the item count is one byte; at least one.
pub open spec fn read_batch_size(pdu: u16) -> nat {
    let k: nat = if pdu >= 24 { ((pdu - 12) / 12) as nat } else { 1 };
    if k > 255 { 255 } else { k }
}

/// The S7 part of a read request for `n` items.
pub open spec fn read_request_len(n: nat) -> nat {
    12 + 12 * n
}

/// Cutting into chunks loses and reorders nothing, each chunk holds between one
/// and `k` items, and a read request for `read_batch_size(pdu)` items fits
/// `pdu` whenever one item does.
pub proof fn lemma_chunks<T>(s: Seq<T>, k: nat)
    requires
        k >= 1,
    ensures
        joined(chunks(s, k)) == s,
        forall|i: int| 0 <= i < chunks(s, k).len() ==> 1 <= (#[trigger] chunks(s, k)[i]).len() <= k,
    decreases s.len(),
{
    if s.len() == 0 {
        assert(joined(chunks(s, k)) =~= s);
    } else if s.len() <= k {
        let c = chunks(s, k);
        assert(c.drop_first() =~= Seq::<Seq<T>>::empty());
        assert(joined(c.drop_first()) == Seq::<T>::empty());
        assert(c[0] == s);
        assert(c[0] + Seq::<T>::empty() =~= s);
    } else {
        lemma_chunks(s.skip(k as int), k);
        let c = chunks(s, k);
        assert(c.drop_first() =~= chunks(s.skip(k as int), k));
        assert(s.take(k as int) + s.skip(k as int) =~= s);
        assert forall|i: int| 0 <= i < c.len() implies 1 <= (#[trigger] c[i]).len() <= k by {
            if i > 0 {
                assert(c[i] == chunks(s.skip(k as int), k)[i - 1]);
            }
        }
    }
}

/// A read request for as many items as `read_batch_size` allows fits the PDU
/// length, unless even one item does not.
pub proof fn lemma_read_batch_fits(pdu: u16)
    ensures
        1 <= read_batch_size(pdu) <= 255,
        read_request_len(1) <= pdu ==> read_request_len(read_batch_size(pdu)) <= pdu,
{
    let k = read_batch_size(pdu);
    if pdu >= 24 {
        let q = ((pdu - 12) / 12) as nat;
        assert(12 * q <= pdu - 12) by (nonlinear_arith)
            requires
                q == (pdu - 12) / 12,
                pdu >= 24,
        ;
        assert(q >= 1) by (nonlinear_arith)
            requires
                q == (pdu - 12) / 12,
                pdu >= 24,
        ;
    }
}

/// The read items cut into requests that each fit the PDU length `pdu_limit`:
/// consecutive groups of `read_batch_size(pdu_limit)` items, in order.
pub fn split_read_items(items: &Vec<RequestItem>, pdu_limit: u16) -> (r: Vec<Vec<RequestItem>>)
    ensures
        item_groups(r@) == chunks(items@, read_batch_size(pdu_limit)),
        joined(item_groups(r@)) == items@,
        forall|i: int| 0 <= i < r@.len() ==> 1 <= (#[trigger] r@[i])@.len() <= read_batch_size(pdu_limit),
        forall|i: int| 0 <= i < r@.len() ==> read_request_len(1) <= pdu_limit ==> read_request_len(
            (#[trigger] r@[i])@.len(),
        ) <= pdu_limit,
{
    let k: usize = if pdu_limit >= 24 { ((pdu_limit - 12) / 12) as usize } else { 1 };
    let k: usize = if k > 255 { 255 } else { k };
    assert(k == read_batch_size(pdu_limit));
    let n = items.len();
    let mut groups: Vec<Vec<RequestItem>> = Vec::new();
    let mut i: usize = 0;
    assert(items@.skip(0) =~= items@);
    assert(item_groups(groups@) + chunks(items@.skip(0), k as nat) =~= chunks(items@, k as nat));
    while i < n
        invariant
            n == items@.len(),
            i <= n,
            1 <= k <= 255,
            k == read_batch_size(pdu_limit),
            item_groups(groups@) + chunks(items@.skip(i as int), k as nat) == chunks(items@, k as nat),
        decreases n - i,
    {
        let end = if n - i > k { i + k } else { n };
        let mut g: Vec<RequestItem> = Vec::new();
        let mut j = i;
        while j < end
            invariant
                i <= j <= end <= n,
                n == items@.len(),
                g@ == items@.subrange(i as int, j as int),
            decreases end - j,
        {
            g.push(items[j]);
            j += 1;
            assert(g@ =~= items@.subrange(i as int, j as int));
        }
        let ghost rest = items@.skip(i as int);
        let ghost before = item_groups(groups@);
        proof {
            if n - i > k {
                assert(rest.take(k as int) =~= g@);
                assert(rest.skip(k as int) =~= items@.skip(end as int));
            } else {
                assert(rest =~= g@);
                assert(items@.skip(end as int) =~= Seq::<RequestItem>::empty());
                assert(chunks(items@.skip(end as int), k as nat) =~= Seq::<Seq<RequestItem>>::empty());
            }
        }
        groups.push(g);
        assert(item_groups(groups@) =~= before.push(g@));
        assert(before.push(g@) + chunks(items@.skip(end as int), k as nat) =~= before + chunks(rest, k as nat));
        i = end;
    }
    assert(items@.skip(n as int) =~= Seq::<RequestItem>::empty());
    assert(item_groups(groups@) + Seq::<Seq<RequestItem>>::empty() =~= item_groups(groups@));
    proof {
        lemma_chunks(items@, k as nat);
        lemma_read_batch_fits(pdu_limit);
        assert forall|i: int| 0 <= i < groups@.len() implies 1 <= (#[trigger] groups@[i])@.len() <= k
            && (read_request_len(1) <= pdu_limit ==> read_request_len(groups@[i]@.len()) <= pdu_limit) by {
            assert(item_groups(groups@)[i] == groups@[i]@);
            assert(chunks(items@, k as nat)[i] == groups@[i]@);
        }
    }
    groups
}

/// The values of data items.
pub open spec fn data_views(s: Seq<DataItem>) -> Seq<DataItemView> {
    s.map_values(|d: DataItem| d@)
}

/// Data item values as the items of a data part.
pub open spec fn as_response_items(v: Seq<DataItemView>) -> Seq<S7ReturnItemView> {
    v.map_values(|d: DataItemView| S7ReturnItemView::Data(d))
}

/// The S7 part of a write request for data items `v`: 12 bytes, 12 per
/// request item, then the data part with its fill bytes.
pub open spec fn write_request_len(v: Seq<DataItemView>) -> nat {
    12 + 12 * v.len() + datum_encoded(as_response_items(v)).len()
}

/// Whether one write request holds the data items `v` within PDU length `pdu`:
/// at most 255 items (the count is one byte), and its S7 part within `pdu`.
pub open spec fn write_fits(v: Seq<DataItemView>, pdu: u16) -> bool {
    v.len() <= 255 && write_request_len(v) <= pdu
}

/// The request items of each write group.
pub open spec fn request_parts(r: Seq<(Vec<RequestItem>, Vec<DataItem>)>) -> Seq<Seq<RequestItem>> {
    r.map_values(|g: (Vec<RequestItem>, Vec<DataItem>)| g.0@)
}

/// The data item values of each write group.
pub open spec fn data_parts(r: Seq<(Vec<RequestItem>, Vec<DataItem>)>) -> Seq<Seq<DataItemView>> {
    r.map_values(|g: (Vec<RequestItem>, Vec<DataItem>)| data_views(g.1@))
}

/// Joining one more group appends it.
pub proof fn lemma_joined_push<T>(g: Seq<Seq<T>>, x: Seq<T>)
    ensures
        joined(g.push(x)) == joined(g) + x,
    decreases g.len(),
{
    if g.len() == 0 {
        assert(g.push(x).drop_first() =~= Seq::<Seq<T>>::empty());
        assert(joined(g.push(x).drop_first()) == Seq::<T>::empty());
        assert(g.push(x)[0] == x);
        assert(joined(g.push(x)) =~= joined(g) + x);
    } else {
        lemma_joined_push(g.drop_first(), x);
        assert(g.push(x).drop_first() =~= g.drop_first().push(x));
        assert(joined(g.push(x)) =~= joined(g) + x);
    }
}

/// Adding a data item to a group adds its four header bytes and its data, after
/// a fill byte when the group's last item had odd length.
proof fn lemma_write_len_push(v: Seq<DataItemView>, x: DataItemView)
    ensures
        as_response_items(v.push(x)) == as_response_items(v).push(S7ReturnItemView::Data(x)),
        datum_encoded(as_response_items(v.push(x))).len() == all_padded(as_response_items(v)).len() + 4
            + x.data.len(),
        all_padded(as_response_items(v.push(x))).len() == all_padded(as_response_items(v)).len() + 4
            + x.data.len() + (4 + x.data.len()) % 2,
{
    let a = as_response_items(v);
    assert(as_response_items(v.push(x)) =~= a.push(S7ReturnItemView::Data(x)));
    assert(a.push(S7ReturnItemView::Data(x)).drop_last() =~= a);
    assert(S7ReturnItemView::Data(x).encoded().len() == 4 + x.data.len());
    assert(padded(S7ReturnItemView::Data(x)).len() == 4 + x.data.len() + (4 + x.data.len()) % 2);
}

/// A bound above every PDU length, at which the running fill length is capped.
pub open spec fn pad_cap() -> nat {
    70000
}

/// The groups of a write split are well formed: each pairs as many request
/// items as data items, at least one; each fits one request or is a lone item;
/// and no group could have taken the first item of the next.
#[verifier::opaque]
pub open spec fn write_groups_ok(r: Seq<(Vec<RequestItem>, Vec<DataItem>)>, pdu: u16) -> bool {
    &&& forall|i: int| 0 <= i < r.len() ==> (#[trigger] r[i]).0@.len() == r[i].1@.len() && r[i].0@.len() >= 1
    &&& forall|i: int| 0 <= i < r.len() ==> write_fits(#[trigger] data_parts(r)[i], pdu) || r[i].0@.len() == 1
    &&& forall|i: int| 0 <= i < r.len() - 1 ==> !write_fits(
        (#[trigger] data_parts(r)[i]).push(data_parts(r)[i + 1][0]),
        pdu,
    )
}

/// Closing one more group keeps the groups well formed.
proof fn lemma_close_group(
    old: Seq<(Vec<RequestItem>, Vec<DataItem>)>,
    g: (Vec<RequestItem>, Vec<DataItem>),
    pdu: u16,
)
    requires
        write_groups_ok(old, pdu),
        g.0@.len() == g.1@.len(),
        g.0@.len() >= 1,
        write_fits(data_views(g.1@), pdu) || g.0@.len() == 1,
        old.len() >= 1 ==> !write_fits(data_parts(old)[old.len() - 1].push(data_views(g.1@)[0]), pdu),
    ensures
        write_groups_ok(old.push(g), pdu),
        request_parts(old.push(g)) == request_parts(old).push(g.0@),
        data_parts(old.push(g)) == data_parts(old).push(data_views(g.1@)),
        joined(request_parts(old.push(g))) == joined(request_parts(old)) + g.0@,
        joined(data_parts(old.push(g))) == joined(data_parts(old)) + data_views(g.1@),
{
    reveal(write_groups_ok);
    let r = old.push(g);
    assert(request_parts(r) =~= request_parts(old).push(g.0@));
    assert(data_parts(r) =~= data_parts(old).push(data_views(g.1@)));
    lemma_joined_push(request_parts(old), g.0@);
    lemma_joined_push(data_parts(old), data_views(g.1@));
    assert forall|i: int| 0 <= i < r.len() implies (#[trigger] r[i]).0@.len() == r[i].1@.len() && r[i].0@.len()
        >= 1 by {
        if i < old.len() {
            assert(r[i] == old[i]);
        }
    }
    assert forall|i: int| 0 <= i < r.len() implies write_fits(#[trigger] data_parts(r)[i], pdu) || r[i].0@.len()
        == 1 by {
        if i < old.len() {
            assert(r[i] == old[i]);
            assert(data_parts(r)[i] == data_parts(old)[i]);
        }
    }
    assert forall|i: int| 0 <= i < r.len() - 1 implies !write_fits(
        (#[trigger] data_parts(r)[i]).push(data_parts(r)[i + 1][0]),
        pdu,
    ) by {
        assert(data_parts(r)[i] == data_parts(old)[i]);
        if i < old.len() - 1 {
            assert(data_parts(r)[i + 1] == data_parts(old)[i + 1]);
        }
    }
}

/// The running fill length of a group, capped at `pad_cap()`.
pub open spec fn capped_pad(v: Seq<DataItemView>) -> nat {
    let p = all_padded(as_response_items(v)).len();
    if p < pad_cap() { p } else { pad_cap() }
}

/// Whether one more data item of `xl` bytes fits a request whose group has
/// `count` items and capped fill length `pad`.
fn next_fits(count: usize, pad: u64, xl: usize, pdu_limit: u16, Ghost(v): Ghost<Seq<DataItemView>>, Ghost(x): Ghost<
    DataItemView,
>) -> (r: bool)
    requires
        count == v.len(),
        pad == capped_pad(v),
        xl == x.data.len(),
    ensures
        r == write_fits(v.push(x), pdu_limit),
{
    proof {
        lemma_write_len_push(v, x);
    }
    count < 255 && xl <= 0xFFFF && 12 + 12 * (count as u64 + 1) + pad + 4 + xl as u64 <= pdu_limit as u64
}

/// The capped fill length after one more data item of `xl` bytes.
fn pad_after(pad: u64, xl: usize, Ghost(v): Ghost<Seq<DataItemView>>, Ghost(x): Ghost<DataItemView>) -> (r: u64)
    requires
        pad == capped_pad(v),
        xl == x.data.len(),
    ensures
        r == capped_pad(v.push(x)),
{
    let ghost p = all_padded(as_response_items(v)).len();
    let ghost q = all_padded(as_response_items(v.push(x))).len();
    proof {
        lemma_write_len_push(v, x);
        assert(q == p + 4 + xl + (4 + xl) % 2);
        assert(pad == if p < 70000 { p } else { 70000 });
        assert(capped_pad(v.push(x)) == if q < 70000 { q } else { 70000 });
    }
    let add: u64 = if xl < 70000 {
        (4 + xl as u64) + (4 + xl as u64) % 2
    } else {
        70000
    };
    if pad + add >= 70000 {
        70000
    } else {
        pad + add
    }
}

/// Copies of data items, their values unchanged.
fn copy_data(data: &Vec<DataItem>) -> (r: Vec<DataItem>)
    ensures
        data_views(r@) == data_views(data@),
{
    let m = data.len();
    let mut out: Vec<DataItem> = Vec::new();
    let mut j: usize = 0;
    while j < m
        invariant
            m == data@.len(),
            j <= m,
            data_views(out@) == data_views(data@).take(j as int),
        decreases m - j,
    {
        let c = data[j].clone_item();
        let ghost before = out@;
        out.push(c);
        assert(out@ == before.push(c));
        assert(c@ == data@[j as int]@);
        assert(data_views(out@) =~= data_views(before).push(c@));
        assert(data_views(data@).take(j + 1) =~= data_views(data@).take(j as int).push(data@[j as int]@));
        j += 1;
    }
    assert(data_views(data@).take(m as int) =~= data_views(data@));
    out
}

/// The write items (request items paired with data items) cut into requests in
/// order: each group takes items while the request still fits `pdu_limit`
/// (see `write_fits`), and a group holds at least one item. Where the two lists
/// differ in length they are kept as one group.
#[verifier::spinoff_prover]
#[verifier::rlimit(60)]
pub fn split_write_items(items: &Vec<RequestItem>, data: &Vec<DataItem>, pdu_limit: u16) -> (r: Vec<
    (Vec<RequestItem>, Vec<DataItem>),
>)
    ensures
        items@.len() != data@.len() ==> r@.len() == 1 && r@[0].0@ == items@ && data_views(r@[0].1@)
            == data_views(data@),
        items@.len() == data@.len() ==> {
            &&& joined(request_parts(r@)) == items@
            &&& joined(data_parts(r@)) == data_views(data@)
            &&& forall|i: int| 0 <= i < r@.len() ==> (#[trigger] r@[i]).0@.len() == r@[i].1@.len() && r@[i].0@.len() >= 1
            &&& forall|i: int| 0 <= i < r@.len() ==> write_fits(#[trigger] data_parts(r@)[i], pdu_limit) || r@[i].0@.len() == 1
            &&& forall|i: int| 0 <= i < r@.len() - 1 ==> !write_fits(
                (#[trigger] data_parts(r@)[i]).push(data_parts(r@)[i + 1][0]),
                pdu_limit,
            )
        },
{
    let n = items.len();
    let mut groups: Vec<(Vec<RequestItem>, Vec<DataItem>)> = Vec::new();
    if n != data.len() {
        let all_items = items.clone();
        let all_data = copy_data(data);
        groups.push((all_items, all_data));
        return groups;
    }
    let ghost dv = data_views(data@);
    let mut cur_items: Vec<RequestItem> = Vec::new();
    let mut cur_data: Vec<DataItem> = Vec::new();
    let mut pad_len: u64 = 0;
    let mut j: usize = 0;
    proof {
        reveal(write_groups_ok);
        assert(as_response_items(data_views(cur_data@)) =~= Seq::<S7ReturnItemView>::empty());
        assert(request_parts(groups@) =~= Seq::<Seq<RequestItem>>::empty());
        assert(data_parts(groups@) =~= Seq::<Seq<DataItemView>>::empty());
        assert(data_views(cur_data@) =~= Seq::<DataItemView>::empty());
        assert(items@.take(0) =~= Seq::<RequestItem>::empty());
        assert(dv.take(0) =~= Seq::<DataItemView>::empty());
    }
    while j < n
        invariant
            n == items@.len(),
            n == data@.len(),
            dv == data_views(data@),
            j <= n,
            joined(request_parts(groups@)) + cur_items@ == items@.take(j as int),
            joined(data_parts(groups@)) + data_views(cur_data@) == dv.take(j as int),
            cur_items@.len() == cur_data@.len(),
            j > 0 ==> cur_items@.len() >= 1,
            j == 0 ==> groups@.len() == 0 && cur_items@.len() == 0,
            pad_len == capped_pad(data_views(cur_data@)),
            cur_items@.len() >= 1 ==> write_fits(data_views(cur_data@), pdu_limit) || cur_items@.len() == 1,
            groups@.len() >= 1 ==> !write_fits(
                data_parts(groups@)[groups@.len() - 1].push(data_views(cur_data@)[0]),
                pdu_limit,
            ),
            write_groups_ok(groups@, pdu_limit),
        decreases n - j,
    {
        let x = &data[j];
        let xl = x.data.len();
        if cur_items.len() > 0 {
            let fits = next_fits(cur_items.len(), pad_len, xl, pdu_limit, Ghost(data_views(cur_data@)), Ghost(x@));
            if !fits {
                let ghost old_groups = groups@;
                let ghost cv = data_views(cur_data@);
                let g_items = cur_items;
                let g_data = cur_data;
                cur_items = Vec::new();
                cur_data = Vec::new();
                pad_len = 0;
                proof {
                    lemma_close_group(old_groups, (g_items, g_data), pdu_limit);
                }
                groups.push((g_items, g_data));
                proof {
                    assert(data_views(cur_data@) =~= Seq::<DataItemView>::empty());
                    assert(as_response_items(data_views(cur_data@)) =~= Seq::<S7ReturnItemView>::empty());
                    assert(data_parts(groups@)[groups@.len() - 1] == cv);
                }
            }
        }
        let ghost cv2 = data_views(cur_data@);
        let ghost ci2 = cur_items@;
        let new_pad = pad_after(pad_len, xl, Ghost(cv2), Ghost(x@));
        let c = x.clone_item();
        cur_items.push(items[j]);
        cur_data.push(c);
        assert(data_views(cur_data@) =~= cv2.push(x@));
        pad_len = new_pad;
        j += 1;
        proof {
            assert(items@.take(j as int) =~= items@.take(j - 1).push(items@[j - 1]));
            assert(dv.take(j as int) =~= dv.take(j - 1).push(x@));
            assert(cur_items@ =~= ci2.push(items@[j - 1]));
            assert(joined(request_parts(groups@)) + cur_items@ =~= (joined(request_parts(groups@)) + ci2).push(
                items@[j - 1],
            ));
            assert(joined(data_parts(groups@)) + data_views(cur_data@) =~= (joined(data_parts(groups@))
                + cv2).push(x@));
            if cv2.len() > 0 {
                assert(data_views(cur_data@)[0] == cv2[0]);
            }
        }
    }
    if cur_items.len() > 0 {
        let ghost old_groups = groups@;
        proof {
            lemma_close_group(old_groups, (cur_items, cur_data), pdu_limit);
        }
        groups.push((cur_items, cur_data));
    } else {
        assert(joined(request_parts(groups@)) + cur_items@ =~= joined(request_parts(groups@)));
        assert(joined(data_parts(groups@)) + data_views(cur_data@) =~= joined(data_parts(groups@)));
    }
    assert(items@.take(n as int) =~= items@);
    assert(dv.take(n as int) =~= dv);
    proof {
        reveal(write_groups_ok);
    }
    groups
}

/// The data item values of each answer.
pub open spec fn answer_parts(a: Seq<Vec<DataItem>>) -> Seq<Seq<DataItemView>> {
    a.map_values(|v: Vec<DataItem>| data_views(v@))
}

/// The data items of the answers to the requests of a split read, one after
/// the other, in the order of the requests.
pub fn join_answers(answers: &Vec<Vec<DataItem>>) -> (r: Vec<DataItem>)
    ensures
        data_views(r@) == joined(answer_parts(answers@)),
{
    let n = answers.len();
    let mut out: Vec<DataItem> = Vec::new();
    let mut i: usize = 0;
    assert(answer_parts(answers@).take(0) =~= Seq::<Seq<DataItemView>>::empty());
    assert(data_views(out@) =~= Seq::<DataItemView>::empty());
    while i < n
        invariant
            n == answers@.len(),
            i <= n,
            data_views(out@) == joined(answer_parts(answers@).take(i as int)),
        decreases n - i,
    {
        let a = &answers[i];
        let m = a.len();
        let ghost start = data_views(out@);
        let mut k: usize = 0;
        while k < m
            invariant
                m == a@.len(),
                k <= m,
                data_views(out@) == start + data_views(a@).take(k as int),
            decreases m - k,
        {
            let c = a[k].clone_item();
            let ghost before = out@;
            out.push(c);
            assert(data_views(out@) =~= data_views(before).push(c@));
            assert(data_views(a@).take(k + 1) =~= data_views(a@).take(k as int).push(a@[k as int]@));
            assert(data_views(out@) =~= start + data_views(a@).take(k + 1));
            k += 1;
        }
        proof {
            assert(data_views(a@).take(m as int) =~= data_views(a@));
            assert(answer_parts(answers@).take(i + 1) =~= answer_parts(answers@).take(i as int).push(
                data_views(a@),
            ));
            lemma_joined_push(answer_parts(answers@).take(i as int), data_views(a@));
        }
        i += 1;
    }
    assert(answer_parts(answers@).take(n as int) =~= answer_parts(answers@));
    out
}

/// Groups and answers of the same sizes join to sequences of the same length:
/// where each request is answered with one data item per request item, the
/// joined answers hold one data item per request item of the whole read.
pub proof fn lemma_joined_len<A, B>(g: Seq<Seq<A>>, a: Seq<Seq<B>>)
    requires
        g.len() == a.len(),
        forall|i: int| 0 <= i < g.len() ==> (#[trigger] g[i]).len() == a[i].len(),
    ensures
        joined(g).len() == joined(a).len(),
    decreases g.len(),
{
    if g.len() > 0 {
        assert forall|i: int| 0 <= i < g.drop_first().len() implies (#[trigger] g.drop_first()[i]).len()
            == a.drop_first()[i].len() by {
            assert(g.drop_first()[i] == g[i + 1]);
            assert(a.drop_first()[i] == a[i + 1]);
        }
        lemma_joined_len(g.drop_first(), a.drop_first());
    }
}

} // verus!
