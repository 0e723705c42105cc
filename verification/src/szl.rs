//! Reading the system status list (SZL) records that identify a PLC: its order
//! code, CPU identification, communication limits and operating mode.
use vstd::prelude::*;
use crate::item::{digits_of, upper_of, uppercase_chars};
use crate::client::{utf8_lossy, utf8_lossy_of};
use vstd::utf8::{decode_utf8, valid_utf8};
use crate::text::string_push;
use crate::buffer::{buf_from, bytes_of, copy_to_bytes_vec, from_be16, from_be32, get_u16, get_u32, remaining};
use crate::datum::{Datum, DatumView, SzlDaumView};
use crate::error::{error_msg, S7Error};
use crate::packet::S7Data;
use crate::types::{CommunicationInfo, CpuInfo, OrderCode, PlcStatus};

verus! {

/// A visible ASCII character or a space (0x20 to 0x7E).
pub open spec fn printable(b: u8) -> bool {
    0x20 <= b <= 0x7E
}

/// The characters of bytes that are all ASCII.
pub open spec fn ascii_chars(b: Seq<u8>) -> Seq<char> {
    Seq::new(b.len(), |i: int| b[i] as char)
}

/// `s` without its leading spaces.
pub open spec fn trim_start(s: Seq<char>) -> Seq<char>
    decreases s.len(),
{
    if s.len() > 0 && s[0] == ' ' {
        trim_start(s.subrange(1, s.len() as int))
    } else {
        s
    }
}

/// `s` without its trailing spaces.
pub open spec fn trim_end(s: Seq<char>) -> Seq<char>
    decreases s.len(),
{
    if s.len() > 0 && s.last() == ' ' {
        trim_end(s.drop_last())
    } else {
        s
    }
}

/// `s` without leading and trailing spaces; for visible ASCII text this is
/// what `str::trim` gives.
pub open spec fn trim_spaces(s: Seq<char>) -> Seq<char> {
    trim_end(trim_start(s))
}

/// One past the end of the run of printable bytes that starts at `i`.
pub open spec fn run_end(d: Seq<u8>, i: int) -> int
    decreases d.len() - i,
{
    if 0 <= i < d.len() && printable(d[i]) {
        run_end(d, i + 1)
    } else {
        i
    }
}

proof fn lemma_run_end(d: Seq<u8>, i: int)
    requires
        0 <= i <= d.len(),
    ensures
        i <= run_end(d, i) <= d.len(),
        forall|k: int| i <= k < run_end(d, i) ==> printable(#[trigger] d[k]),
        run_end(d, i) < d.len() ==> !printable(d[run_end(d, i)]),
    decreases d.len() - i,
{
    if i < d.len() && printable(d[i]) {
        lemma_run_end(d, i + 1);
    }
}

/// The text of the bytes from `a` to `b`, which are printable, without
/// leading and trailing spaces.
pub open spec fn run_text(d: Seq<u8>, a: int, b: int) -> Seq<char> {
    trim_spaces(ascii_chars(d.subrange(a, b)))
}

/// The runs of printable ASCII in `d` from `i` on, as text without leading
/// and trailing spaces, keeping those of at least `min_len` characters.
pub open spec fn fields_from(d: Seq<u8>, i: int, min_len: nat) -> Seq<Seq<char>>
    decreases d.len() - i,
{
    if i < 0 || i >= d.len() {
        Seq::<Seq<char>>::empty()
    } else if !printable(d[i]) {
        fields_from(d, i + 1, min_len)
    } else {
        let e = run_end(d, i);
        let s = run_text(d, i, e);
        if e <= i || e > d.len() {
            Seq::<Seq<char>>::empty()
        } else {
            (if s.len() >= min_len { seq![s] } else { Seq::<Seq<char>>::empty() }) + fields_from(d, e, min_len)
        }
    }
}

/// At most `n` of the first elements of `s`.
pub open spec fn first_n<T>(s: Seq<T>, n: nat) -> Seq<T> {
    if s.len() > n {
        s.take(n as int)
    } else {
        s
    }
}

/// The character sequences that a vector of character vectors holds.
pub open spec fn texts_of(v: Seq<Vec<char>>) -> Seq<Seq<char>> {
    v.map_values(|x: Vec<char>| x@)
}

/// The text of the printable bytes from `a` to `b`, spaces trimmed.
pub fn ascii_text(d: &[u8], a: usize, b: usize) -> (r: Vec<char>)
    requires
        a <= b <= d@.len(),
        forall|k: int| a <= k < b ==> printable(#[trigger] d@[k]),
    ensures
        r@ == run_text(d@, a as int, b as int),
{
    let ghost s = ascii_chars(d@.subrange(a as int, b as int));
    let mut x = a;
    while x < b && d[x] == 0x20
        invariant
            a <= x <= b,
            b <= d@.len(),
            trim_start(s) == trim_start(ascii_chars(d@.subrange(x as int, b as int))),
        decreases b - x,
    {
        let ghost t = ascii_chars(d@.subrange(x as int, b as int));
        assert(t.subrange(1, t.len() as int) =~= ascii_chars(d@.subrange(x + 1, b as int)));
        assert(t[0] == ' ');
        x += 1;
    }
    let ghost u = ascii_chars(d@.subrange(x as int, b as int));
    assert(trim_start(u) == u) by {
        if u.len() > 0 {
            assert(u[0] == d@[x as int] as char);
            assert(d@[x as int] != 0x20);
            assert((d@[x as int] as char) != ' ') by {
                assert(0x20 <= d@[x as int] <= 0x7E);
            }
        }
    }
    let mut y = b;
    while y > x && d[y - 1] == 0x20
        invariant
            x <= y <= b,
            b <= d@.len(),
            trim_end(u) == trim_end(ascii_chars(d@.subrange(x as int, y as int))),
        decreases y - x,
    {
        let ghost t = ascii_chars(d@.subrange(x as int, y as int));
        assert(t.drop_last() =~= ascii_chars(d@.subrange(x as int, y - 1)));
        y -= 1;
    }
    let ghost w = ascii_chars(d@.subrange(x as int, y as int));
    assert(trim_end(w) == w) by {
        if w.len() > 0 {
            assert(w.last() == d@[y - 1] as char);
            assert((d@[y - 1] as char) != ' ') by {
                assert(0x20 <= d@[y - 1] <= 0x7E);
            }
        }
    }
    let mut r: Vec<char> = Vec::new();
    let mut k = x;
    while k < y
        invariant
            x <= k <= y,
            y <= d@.len(),
            r@ == ascii_chars(d@.subrange(x as int, k as int)),
        decreases y - k,
    {
        r.push(d[k] as char);
        k += 1;
        assert(r@ =~= ascii_chars(d@.subrange(x as int, k as int)));
    }
    r
}

/// The runs of printable ASCII in `data` that hold at least `min_len`
/// characters once their leading and trailing spaces are dropped; at most
/// `max_count` of them, the first ones.
pub fn scan_ascii_fields(data: &[u8], max_count: usize, min_len: usize) -> (r: Vec<Vec<char>>)
    ensures
        texts_of(r@) == first_n(fields_from(data@, 0, min_len as nat), max_count as nat),
{
    let ghost d = data@;
    let mut fields: Vec<Vec<char>> = Vec::new();
    let mut i: usize = 0;
    let n = data.len();
    assert(texts_of(fields@) =~= Seq::<Seq<char>>::empty());
    assert(fields_from(d, 0, min_len as nat) =~= texts_of(fields@) + fields_from(d, 0, min_len as nat));
    while i < n && fields.len() < max_count
        invariant
            d == data@,
            n == d.len(),
            i <= n,
            fields@.len() <= max_count,
            fields_from(d, 0, min_len as nat) == texts_of(fields@) + fields_from(d, i as int, min_len as nat),
        decreases n - i + (max_count - fields@.len()),
    {
        if !(data[i] >= 0x20 && data[i] <= 0x7E) {
            i += 1;
            continue;
        }
        let start = i;
        proof {
            lemma_run_end(d, start as int);
        }
        while i < n && (data[i] >= 0x20 && data[i] <= 0x7E)
            invariant
                d == data@,
                n == d.len(),
                start <= i <= run_end(d, start as int),
                run_end(d, start as int) <= n,
                forall|k: int| start <= k < run_end(d, start as int) ==> printable(#[trigger] d[k]),
                run_end(d, start as int) < n ==> !printable(d[run_end(d, start as int)]),
            decreases n - i,
        {
            i += 1;
        }
        let s = ascii_text(data, start, i);
        let ghost before = texts_of(fields@);
        if s.len() >= min_len {
            fields.push(s);
            assert(texts_of(fields@) =~= before.push(s@));
            assert(before + (seq![s@] + fields_from(d, i as int, min_len as nat)) =~= texts_of(fields@) + fields_from(d, i as int, min_len as nat));
        } else {
            assert((Seq::<Seq<char>>::empty() + fields_from(d, i as int, min_len as nat)) =~= fields_from(d, i as int, min_len as nat));
        }
    }
    proof {
        let all = fields_from(d, 0, min_len as nat);
        if i >= n {
            assert(fields_from(d, i as int, min_len as nat) =~= Seq::<Seq<char>>::empty());
            assert(all =~= texts_of(fields@));
        } else {
            assert(fields@.len() == max_count);
            assert(all.take(max_count as int) =~= texts_of(fields@));
        }
    }
    fields
}

/// Unicode `White_Space`: the characters that `str::trim` removes.
pub open spec fn is_white_space(c: char) -> bool {
    let u = c as u32;
    (0x09 <= u <= 0x0D) || u == 0x20 || u == 0x85 || u == 0xA0 || u == 0x1680 || (0x2000 <= u <= 0x200A)
        || u == 0x2028 || u == 0x2029 || u == 0x202F || u == 0x205F || u == 0x3000
}

/// `s` without its leading white space.
pub open spec fn trim_start_ws(s: Seq<char>) -> Seq<char>
    decreases s.len(),
{
    if s.len() > 0 && is_white_space(s[0]) {
        trim_start_ws(s.drop_first())
    } else {
        s
    }
}

/// `s` without its trailing white space.
pub open spec fn trim_end_ws(s: Seq<char>) -> Seq<char>
    decreases s.len(),
{
    if s.len() > 0 && is_white_space(s.last()) {
        trim_end_ws(s.drop_last())
    } else {
        s
    }
}

/// `s` without leading and trailing white space.
pub open spec fn trim_ws(s: Seq<char>) -> Seq<char> {
    trim_end_ws(trim_start_ws(s))
}

/// `str::trim`, the characters of the result collected: leading and
/// trailing characters of the Unicode `White_Space` property removed.
#[verifier::external_body]
fn trimmed_chars(s: &str) -> (r: Vec<char>)
    ensures
        r@ == trim_ws(s@),
{
    s.trim().chars().collect()
}

/// The characters of bytes as `String::from_utf8_lossy` gives them: valid
/// UTF-8 decoded, other bytes as that function's replacement.
pub open spec fn lossy_text(b: Seq<u8>) -> Seq<char> {
    if valid_utf8(b) {
        decode_utf8(b)
    } else {
        utf8_lossy_of(b)
    }
}

/// The text of arbitrary bytes: decoded as UTF-8 with invalid sequences
/// replaced, then trimmed.
pub open spec fn bytes_text(b: Seq<u8>) -> Seq<char> {
    trim_ws(lossy_text(b))
}

fn text_of(b: &[u8]) -> (r: Vec<char>)
    ensures
        r@ == bytes_text(b@),
{
    let s = utf8_lossy(b);
    trimmed_chars(s.as_str())
}

/// A string holding the characters `v`.
pub fn chars_to_string(v: &Vec<char>) -> (r: String)
    ensures
        r@ == v@,
{
    let mut s = String::new();
    let n = v.len();
    for i in 0..n
        invariant
            n == v@.len(),
            s@ == v@.take(i as int),
    {
        string_push(&mut s, v[i]);
        assert(v@.take(i + 1) =~= v@.take(i as int).push(v@[i as int]));
    }
    assert(v@.take(n as int) =~= v@);
    s
}

/// The upper-case form of text, by `str::to_uppercase`.
fn upper(v: &Vec<char>) -> (r: Vec<char>)
    ensures
        r@ == upper_of(v@),
{
    let s = chars_to_string(v);
    uppercase_chars(s.as_str())
}

pub open spec fn has_prefix(s: Seq<char>, p: Seq<char>) -> bool {
    p.len() <= s.len() && s.subrange(0, p.len() as int) == p
}

pub open spec fn has_infix(s: Seq<char>, p: Seq<char>) -> bool {
    exists|i: int| 0 <= i && i + p.len() <= s.len() && #[trigger] s.subrange(i, i + p.len()) == p
}

fn matches_at(s: &Vec<char>, p: &[char], i: usize) -> (r: bool)
    requires
        i + p@.len() <= s@.len(),
    ensures
        r == (s@.subrange(i as int, i + p@.len()) == p@),
{
    let m = p.len();
    let n = s.len();
    let mut k: usize = 0;
    while k < m
        invariant
            m == p@.len(),
            n == s@.len(),
            i + m <= n,
            k <= m,
            s@.subrange(i as int, i + k) == p@.take(k as int),
        decreases m - k,
    {
        if s[i + k] != p[k] {
            assert(s@.subrange(i as int, i + m)[k as int] != p@[k as int]);
            return false;
        }
        k += 1;
        assert(s@.subrange(i as int, i + k) =~= p@.take(k as int));
    }
    assert(p@.take(m as int) =~= p@);
    true
}

/// Whether `s` starts with `p`.
pub fn starts_with_chars(s: &Vec<char>, p: &[char]) -> (r: bool)
    ensures
        r == has_prefix(s@, p@),
{
    if p.len() > s.len() {
        return false;
    }
    matches_at(s, p, 0)
}

/// Whether `p` occurs in `s`.
pub fn contains_chars(s: &Vec<char>, p: &[char]) -> (r: bool)
    ensures
        r == has_infix(s@, p@),
{
    if p.len() > s.len() {
        proof {
            assert forall|j: int| 0 <= j && j + p@.len() <= s@.len() implies #[trigger] s@.subrange(j, j + p@.len()) != p@ by {}
        }
        return false;
    }
    if p.len() == 0 {
        assert(s@.subrange(0int, 0int + p@.len()) =~= p@);
        return true;
    }
    let last = s.len() - p.len();
    let mut i: usize = 0;
    while i <= last
        invariant
            last + p@.len() == s@.len(),
            last < s.len(),
            p@.len() >= 1,
            i <= last + 1,
            forall|j: int| 0 <= j < i ==> #[trigger] s@.subrange(j, j + p@.len()) != p@,
        decreases last + 1 - i,
    {
        if matches_at(s, p, i) {
            return true;
        }
        i += 1;
    }
    false
}

/// The five identification texts of a CPU.
pub struct CpuTexts {
    pub module_type: Seq<char>,
    pub serial_number: Seq<char>,
    pub as_name: Seq<char>,
    pub copyright: Seq<char>,
    pub module_name: Seq<char>,
}

/// No text known yet.
pub open spec fn no_texts() -> CpuTexts {
    CpuTexts {
        module_type: Seq::<char>::empty(),
        serial_number: Seq::<char>::empty(),
        as_name: Seq::<char>::empty(),
        copyright: Seq::<char>::empty(),
        module_name: Seq::<char>::empty(),
    }
}

/// Whether an upper-case text is a firmware label ("BOOT" in it, or "P B" at its start).
pub open spec fn is_boot_label(upper: Seq<char>) -> bool {
    has_infix(upper, seq!['B', 'O', 'O', 'T']) || has_prefix(upper, seq!['P', ' ', 'B'])
}

/// One past the last byte before the first zero byte at or after `j`.
pub open spec fn zero_end(b: Seq<u8>, j: int) -> int
    decreases b.len() - j,
{
    if 0 <= j < b.len() && b[j] != 0 {
        zero_end(b, j + 1)
    } else {
        j
    }
}

proof fn lemma_zero_end(b: Seq<u8>, j: int)
    requires
        0 <= j <= b.len(),
    ensures
        j <= zero_end(b, j) <= b.len(),
    decreases b.len() - j,
{
    if j < b.len() && b[j] != 0 {
        lemma_zero_end(b, j + 1);
    }
}

/// The texts after a tagged record with tag `tag` and text `val`: tag 1 is the
/// module type unless it is an order code ("6ES..."), 5 the plant name, 6 the
/// serial number, 7 the module type, 8 the module name; a field keeps its
/// first value, and empty texts and firmware labels are skipped.
pub open spec fn take_record(acc: CpuTexts, tag: u8, val: Seq<char>) -> CpuTexts {
    if val.len() == 0 || is_boot_label(upper_of(val)) {
        acc
    } else if tag == 1 {
        if !has_prefix(val, seq!['6', 'E', 'S']) && acc.module_type.len() == 0 {
            CpuTexts { module_type: val, ..acc }
        } else {
            acc
        }
    } else if tag == 5 && acc.as_name.len() == 0 {
        CpuTexts { as_name: val, ..acc }
    } else if tag == 6 && acc.serial_number.len() == 0 {
        CpuTexts { serial_number: val, ..acc }
    } else if tag == 7 && acc.module_type.len() == 0 {
        CpuTexts { module_type: val, ..acc }
    } else if tag == 8 && acc.module_name.len() == 0 {
        CpuTexts { module_name: val, ..acc }
    } else {
        acc
    }
}

/// The texts of the tagged records `00 <tag> <text>` (tag 1 to 8, the text up
/// to the next zero byte) from position `i` on.
pub open spec fn tagged_records(b: Seq<u8>, i: int, acc: CpuTexts) -> CpuTexts
    decreases b.len() - i,
{
    if i < 0 || i + 2 >= b.len() {
        acc
    } else if b[i] == 0 && 1 <= b[i + 1] <= 8 {
        let e = zero_end(b, i + 2);
        if e <= i || e > b.len() {
            acc
        } else {
            tagged_records(b, e, take_record(acc, b[i + 1], bytes_text(b.subrange(i + 2, e))))
        }
    } else {
        tagged_records(b, i + 1, acc)
    }
}

/// The first run of printable ASCII from `i` on whose text has at least three
/// characters and is a firmware label.
pub open spec fn boot_label_from(b: Seq<u8>, i: int) -> Option<Seq<char>>
    decreases b.len() - i,
{
    if i < 0 || i >= b.len() {
        None
    } else if !printable(b[i]) {
        boot_label_from(b, i + 1)
    } else {
        let e = run_end(b, i);
        let val = run_text(b, i, e);
        if e <= i || e > b.len() {
            None
        } else if val.len() >= 3 && is_boot_label(upper_of(val)) {
            Some(val)
        } else {
            boot_label_from(b, e)
        }
    }
}

/// The texts that a tagged sub-record list gives; the copyright is the first
/// firmware label found anywhere in the bytes.
pub open spec fn sub_record_texts(b: Seq<u8>) -> CpuTexts {
    let t = tagged_records(b, 0, no_texts());
    CpuTexts {
        copyright: match boot_label_from(b, 0) {
            Some(v) => v,
            None => t.copyright,
        },
        ..t
    }
}

/// Whether an upper-case text is a firmware label.
fn boot_label(su: &Vec<char>) -> (r: bool)
    ensures
        r == is_boot_label(su@),
{
    let boot = ['B', 'O', 'O', 'T'];
    let pb = ['P', ' ', 'B'];
    assert(boot@ =~= seq!['B', 'O', 'O', 'T']);
    assert(pb@ =~= seq!['P', ' ', 'B']);
    contains_chars(su, &boot) || starts_with_chars(su, &pb)
}

/// The texts gathered so far, as a model value.
pub open spec fn texts(
    module_type: Seq<char>,
    serial_number: Seq<char>,
    as_name: Seq<char>,
    copyright: Seq<char>,
    module_name: Seq<char>,
) -> CpuTexts {
    CpuTexts { module_type, serial_number, as_name, copyright, module_name }
}

/// The first zero byte at or after `start`, or the end of `b`.
fn find_zero(b: &[u8], start: usize) -> (end: usize)
    requires
        start <= b@.len(),
    ensures
        end == zero_end(b@, start as int),
{
    proof {
        lemma_zero_end(b@, start as int);
    }
    let n = b.len();
    let mut end = start;
    while end < n && b[end] != 0x00
        invariant
            n == b@.len(),
            start <= end <= zero_end(b@, start as int),
            zero_end(b@, start as int) == zero_end(b@, end as int),
            zero_end(b@, start as int) <= n,
        decreases n - end,
    {
        assert(zero_end(b@, end as int) == zero_end(b@, end + 1));
        proof {
            lemma_zero_end(b@, end + 1);
        }
        end += 1;
    }
    end
}

/// One past the run of printable bytes that starts at `start`.
fn find_run_end(b: &[u8], start: usize) -> (end: usize)
    requires
        start <= b@.len(),
    ensures
        end == run_end(b@, start as int),
        start <= end <= b@.len(),
        forall|k: int| start <= k < end ==> printable(#[trigger] b@[k]),
        start < b@.len() && printable(b@[start as int]) ==> start < end,
{
    proof {
        lemma_run_end(b@, start as int);
    }
    let n = b.len();
    let mut end = start;
    while end < n && (b[end] >= 0x20 && b[end] <= 0x7E)
        invariant
            n == b@.len(),
            start <= end <= run_end(b@, start as int),
            run_end(b@, start as int) <= n,
            forall|k: int| start <= k < run_end(b@, start as int) ==> printable(#[trigger] b@[k]),
            run_end(b@, start as int) < n ==> !printable(b@[run_end(b@, start as int)]),
        decreases n - end,
    {
        end += 1;
    }
    end
}

/// The first firmware label among the printable runs of `b`; see `boot_label_from`.
fn find_boot_label(b: &[u8]) -> (r: Option<Vec<char>>)
    ensures
        match boot_label_from(b@, 0) {
            Some(v) => r is Some && r->0@ == v,
            None => r is None,
        },
{
    let n = b.len();
    let mut scan: usize = 0;
    while scan < n
        invariant
            n == b@.len(),
            scan <= n,
            boot_label_from(b@, 0) == boot_label_from(b@, scan as int),
        decreases n - scan,
    {
        if b[scan] >= 0x20 && b[scan] <= 0x7E {
            let s = scan;
            scan = find_run_end(b, s);
            let val = ascii_text(b, s, scan);
            let su = upper(&val);
            if val.len() >= 3 && boot_label(&su) {
                return Some(val);
            }
        } else {
            scan += 1;
        }
    }
    None
}

/// Reads the tagged sub-records of an S7-300 SZL 0x001C answer; see
/// `sub_record_texts`. The texts come in the order module type, serial number,
/// plant name, copyright, module name.
pub fn parse_sub_record_fields(b: &[u8]) -> (r: (Vec<char>, Vec<char>, Vec<char>, Vec<char>, Vec<char>))
    ensures
        sub_record_texts(b@) == texts(r.0@, r.1@, r.2@, r.3@, r.4@),
{
    let ghost d = b@;
    let mut module_type: Vec<char> = Vec::new();
    let mut serial_number: Vec<char> = Vec::new();
    let mut as_name: Vec<char> = Vec::new();
    let copyright: Vec<char> = Vec::new();
    let mut module_name: Vec<char> = Vec::new();
    let n = b.len();
    let mut i: usize = 0;
    assert(no_texts() == texts(module_type@, serial_number@, as_name@, copyright@, module_name@));
    while n >= 2 && i < n - 2
        invariant
            d == b@,
            n == d.len(),
            i <= n,
            copyright@.len() == 0,
            tagged_records(d, 0, no_texts()) == tagged_records(
                d,
                i as int,
                texts(module_type@, serial_number@, as_name@, copyright@, module_name@),
            ),
        decreases n - i,
    {
        if b[i] == 0x00 && (b[i + 1] >= 1 && b[i + 1] <= 8) {
            let tag = b[i + 1];
            let start = i + 2;
            let end = find_zero(b, start);
            proof {
                lemma_zero_end(d, start as int);
            }
            let val = text_of(&b[start..end]);
            assert(b@.subrange(start as int, end as int) == d.subrange(start as int, end as int));
            let ghost acc = texts(module_type@, serial_number@, as_name@, copyright@, module_name@);
            let ghost v = val@;
            let su = upper(&val);
            if val.len() > 0 && !boot_label(&su) {
                if tag == 1 {
                    let six = ['6', 'E', 'S'];
                    assert(six@ =~= seq!['6', 'E', 'S']);
                    if !starts_with_chars(&val, &six) && module_type.len() == 0 {
                        module_type = val;
                    }
                } else if tag == 5 && as_name.len() == 0 {
                    as_name = val;
                } else if tag == 6 && serial_number.len() == 0 {
                    serial_number = val;
                } else if tag == 7 && module_type.len() == 0 {
                    module_type = val;
                } else if tag == 8 && module_name.len() == 0 {
                    module_name = val;
                }
            }
            assert(texts(module_type@, serial_number@, as_name@, copyright@, module_name@) == take_record(acc, tag, v));
            i = end;
        } else {
            i += 1;
        }
    }
    let found = find_boot_label(b);
    let copyright = match found {
        Some(v) => v,
        None => copyright,
    };
    (module_type, serial_number, as_name, copyright, module_name)
}

/// The text of the string part of a fixed-length record: its bytes up to the
/// first zero byte, decoded and trimmed.
pub open spec fn record_text(raw: Seq<u8>) -> Seq<char> {
    bytes_text(raw.subrange(0, zero_end(raw, 0)))
}

/// The string part of a fixed-length record, as `record_text` says.
fn read_record_text(raw: &Vec<u8>) -> (r: Vec<char>)
    ensures
        r@ == record_text(raw@),
{
    let bytes = raw.as_slice();
    proof {
        lemma_zero_end(raw@, 0);
    }
    let z = find_zero(bytes, 0);
    text_of(&bytes[0..z])
}

/// The order code among the records of an SZL 0x0011 list: the first record
/// with index 1 whose text is not empty. Each record is `el` bytes: a 16-bit
/// index and the text; at most `count` records are read, and reading stops
/// where fewer than `el` bytes are left.
pub open spec fn order_code_records(p: Seq<u8>, el: nat, count: nat) -> Option<Seq<char>>
    decreases count,
{
    if count == 0 || p.len() < el || el < 2 {
        None
    } else {
        let code = record_text(p.subrange(2, el as int));
        if from_be16(p[0], p[1]) == 1 && code.len() > 0 {
            Some(code)
        } else {
            order_code_records(p.subrange(el as int, p.len() as int), el, (count - 1) as nat)
        }
    }
}

/// Whether a text looks like an order code: it starts with "6ES", "6AV" or
/// "6GK" (in any case) and has at least ten characters.
pub open spec fn is_order_code_text(s: Seq<char>) -> bool {
    let su = upper_of(s);
    &&& has_prefix(su, seq!['6', 'E', 'S']) || has_prefix(su, seq!['6', 'A', 'V'])
        || has_prefix(su, seq!['6', 'G', 'K'])
    &&& s.len() >= 10
}

/// The first text of `fs` that looks like an order code, or the empty text.
pub open spec fn first_order_code(fs: Seq<Seq<char>>) -> Seq<char>
    decreases fs.len(),
{
    if fs.len() == 0 {
        Seq::<char>::empty()
    } else if is_order_code_text(fs[0]) {
        fs[0]
    } else {
        first_order_code(fs.drop_first())
    }
}

/// The order code that an SZL 0x0011 answer gives: from its records, else the
/// first order-code-like text among the first ten printable runs of at least
/// four characters (every such run is printable ASCII, as an order code must be).
pub open spec fn order_code_text(z: SzlDaumView) -> Seq<char> {
    let p = z.all_data->0;
    let el = z.partlist_byte_len->0;
    let count = z.partlist_count->0;
    let from_records = if z.szl_id == 0x0011 && el >= 4 && count > 0 {
        order_code_records(p, el as nat, count as nat)
    } else {
        None
    };
    match from_records {
        Some(c) => c,
        None => first_order_code(first_n(fields_from(p, 0, 4), 10)),
    }
}

/// The version bytes of an order code: the last three bytes of the records,
/// or zeros where there are fewer.
pub open spec fn version_of(p: Seq<u8>) -> (u8, u8, u8) {
    if p.len() >= 3 {
        (p[p.len() - 3], p[p.len() - 2], p[p.len() - 1])
    } else {
        (0, 0, 0)
    }
}

fn scan_order_code_records(payload: &Vec<u8>, el: usize, count: usize) -> (r: Option<Vec<char>>)
    requires
        el >= 4,
    ensures
        match order_code_records(payload@, el as nat, count as nat) {
            Some(c) => r is Some && r->0@ == c,
            None => r is None,
        },
{
    let mut buf = buf_from(payload.as_slice());
    let mut k: usize = 0;
    while k < count
        invariant
            el >= 4,
            k <= count,
            order_code_records(payload@, el as nat, count as nat) == order_code_records(
                bytes_of(buf),
                el as nat,
                (count - k) as nat,
            ),
        decreases count - k,
    {
        if remaining(&buf) < el {
            return None;
        }
        let ghost before = bytes_of(buf);
        let idx = get_u16(&mut buf);
        let raw = copy_to_bytes_vec(&mut buf, el - 2);
        assert(raw@ =~= before.subrange(2, el as int));
        assert(bytes_of(buf) =~= before.subrange(el as int, before.len() as int));
        let code = read_record_text(&raw);
        if idx == 1 && code.len() > 0 {
            return Some(code);
        }
        k += 1;
    }
    None
}

fn find_order_code(fields: &Vec<Vec<char>>) -> (r: Vec<char>)
    ensures
        r@ == first_order_code(texts_of(fields@)),
{
    let n = fields.len();
    let mut i: usize = 0;
    let six_es = ['6', 'E', 'S'];
    let six_av = ['6', 'A', 'V'];
    let six_gk = ['6', 'G', 'K'];
    assert(six_es@ =~= seq!['6', 'E', 'S']);
    assert(six_av@ =~= seq!['6', 'A', 'V']);
    assert(six_gk@ =~= seq!['6', 'G', 'K']);
    assert(texts_of(fields@).subrange(0, n as int) =~= texts_of(fields@));
    while i < n
        invariant
            n == fields@.len(),
            i <= n,
            six_es@ == seq!['6', 'E', 'S'],
            six_av@ == seq!['6', 'A', 'V'],
            six_gk@ == seq!['6', 'G', 'K'],
            first_order_code(texts_of(fields@)) == first_order_code(texts_of(fields@).subrange(i as int, n as int)),
        decreases n - i,
    {
        let f = &fields[i];
        let su = upper(f);
        let ghost rest = texts_of(fields@).subrange(i as int, n as int);
        assert(rest[0] == f@);
        assert(rest.drop_first() =~= texts_of(fields@).subrange(i + 1, n as int));
        if (starts_with_chars(&su, &six_es) || starts_with_chars(&su, &six_av)
            || starts_with_chars(&su, &six_gk)) && f.len() >= 10 {
            return f.clone();
        }
        i += 1;
    }
    assert(texts_of(fields@).subrange(n as int, n as int) =~= Seq::<Seq<char>>::empty());
    Vec::new()
}

/// The order code and version in the answer to an SZL 0x0011 request.
pub fn order_code_of(resp: &S7Data) -> (r: Result<OrderCode, S7Error>)
    requires
        resp.datum matches Some(Datum::Szl(z)) ==> z@.has_partlist(),
    ensures
        match resp@.datum {
            None => r matches Err(S7Error::Error(m)) && m@ == "Response has no any data"@,
            Some(DatumView::ReadWrite(_)) => r matches Err(S7Error::Error(m)) && m@ == "Datum is not Szl"@,
            Some(DatumView::Szl(z)) => r matches Ok(c) && c.code@ == order_code_text(z) && (c.v1, c.v2, c.v3)
                == version_of(z.all_data->0),
        },
{
    match &resp.datum {
        None => Err(error_msg("Response has no any data")),
        Some(Datum::ReadWrite(_)) => Err(error_msg("Datum is not Szl")),
        Some(Datum::Szl(z)) => {
            let payload = z.all_data.as_ref().unwrap();
            let n = payload.len();
            let (v1, v2, v3) = if n >= 3 {
                (payload[n - 3], payload[n - 2], payload[n - 1])
            } else {
                (0, 0, 0)
            };
            let el = *z.partlist_byte_len.as_ref().unwrap();
            let count = *z.partlist_count.as_ref().unwrap();
            let mut found: Option<Vec<char>> = None;
            if z.szl_id == 0x0011 && el >= 4 && count > 0 {
                found = scan_order_code_records(payload, el as usize, count as usize);
            }
            let code = match found {
                Some(c) => c,
                None => {
                    let fields = scan_ascii_fields(payload.as_slice(), 10, 4);
                    find_order_code(&fields)
                },
            };
            let code = chars_to_string(&code);
            Ok(OrderCode { code, v1, v2, v3 })
        },
    }
}

/// The texts after an SZL 0x001C record with index `idx` and text `val`:
/// index 1 is the plant name, 2 and 3 the module name, 4 the copyright, 5 the
/// serial number, 7 the module type; a field keeps its first value that is not
/// empty, and other indexes change nothing.
pub open spec fn take_entry(acc: CpuTexts, idx: u16, val: Seq<char>) -> CpuTexts {
    if idx == 1 && acc.as_name.len() == 0 {
        CpuTexts { as_name: val, ..acc }
    } else if (idx == 2 || idx == 3) && acc.module_name.len() == 0 {
        CpuTexts { module_name: val, ..acc }
    } else if idx == 4 && acc.copyright.len() == 0 {
        CpuTexts { copyright: val, ..acc }
    } else if idx == 5 && acc.serial_number.len() == 0 {
        CpuTexts { serial_number: val, ..acc }
    } else if idx == 7 && acc.module_type.len() == 0 {
        CpuTexts { module_type: val, ..acc }
    } else {
        acc
    }
}

/// The texts that the fixed-length records of an SZL 0x001C list give, read as
/// `order_code_records` reads them.
pub open spec fn cpu_records(p: Seq<u8>, el: nat, count: nat, acc: CpuTexts) -> CpuTexts
    decreases count,
{
    if count == 0 || p.len() < el || el < 2 {
        acc
    } else {
        cpu_records(
            p.subrange(el as int, p.len() as int),
            el,
            (count - 1) as nat,
            take_entry(acc, from_be16(p[0], p[1]), record_text(p.subrange(2, el as int))),
        )
    }
}

/// The plant name stands in for a missing module name.
pub open spec fn with_module_name(t: CpuTexts) -> CpuTexts {
    if t.module_name.len() == 0 && t.as_name.len() > 0 {
        CpuTexts { module_name: t.as_name, ..t }
    } else {
        t
    }
}

/// The texts after one printable run `val` of the last-resort scan, `tag` being
/// the byte before the run where a zero byte precedes that: runs shorter than
/// three characters and firmware labels are skipped; tags 7, 8, 5, 6 and 4 fill
/// the module type, module name, plant name, copyright and serial number; else
/// a text with a '-' and at least four digits that does not start with "6ES7"
/// is the serial number, and one that names "CPU" and "PN", or failing that any
/// of at least eight characters without "MC_", the module type. Each field
/// keeps its first value.
pub open spec fn heuristic_step(acc: CpuTexts, tag: Option<u8>, val: Seq<char>) -> CpuTexts {
    let su = upper_of(val);
    if val.len() < 3 || is_boot_label(su) || has_prefix(su, seq!['H', 'B', 'O', 'O', 'T']) {
        acc
    } else if tag == Some(7u8) && acc.module_type.len() == 0 {
        CpuTexts { module_type: val, ..acc }
    } else if tag == Some(8u8) && acc.module_name.len() == 0 {
        CpuTexts { module_name: val, ..acc }
    } else if tag == Some(5u8) && acc.as_name.len() == 0 {
        CpuTexts { as_name: val, ..acc }
    } else if tag == Some(6u8) && acc.copyright.len() == 0 {
        CpuTexts { copyright: val, ..acc }
    } else if tag == Some(4u8) && acc.serial_number.len() == 0 {
        CpuTexts { serial_number: val, ..acc }
    } else if has_infix(val, seq!['-']) && digits_of(val).len() >= 4 && !has_prefix(
        val,
        seq!['6', 'E', 'S', '7'],
    ) && acc.serial_number.len() == 0 {
        CpuTexts { serial_number: val, ..acc }
    } else if has_infix(su, seq!['C', 'P', 'U']) && has_infix(su, seq!['P', 'N'])
        && acc.module_type.len() == 0 {
        CpuTexts { module_type: val, ..acc }
    } else if acc.module_type.len() == 0 && val.len() >= 8 && !has_infix(su, seq!['M', 'C', '_']) {
        CpuTexts { module_type: val, ..acc }
    } else {
        acc
    }
}

/// The tag of the run that starts at `i`: the byte before it, where a zero
/// byte comes before that.
pub open spec fn run_tag(d: Seq<u8>, i: int) -> Option<u8> {
    if i >= 2 && d[i - 2] == 0 {
        Some(d[i - 1])
    } else {
        None
    }
}

/// The texts that the last-resort scan of the printable runs from `i` on gives.
pub open spec fn heuristic_from(d: Seq<u8>, i: int, acc: CpuTexts) -> CpuTexts
    decreases d.len() - i,
{
    if i < 0 || i >= d.len() {
        acc
    } else if !printable(d[i]) {
        heuristic_from(d, i + 1, acc)
    } else {
        let e = run_end(d, i);
        if e <= i || e > d.len() {
            acc
        } else {
            heuristic_from(d, e, heuristic_step(acc, run_tag(d, i), run_text(d, i, e)))
        }
    }
}

/// The CPU identification that an SZL 0x001C answer gives: from its
/// fixed-length records where they name a module type, serial number or plant
/// name; else from its tagged sub-records where they name a module type or
/// serial number; else from the last-resort scan of its printable runs.
pub open spec fn cpu_texts(z: SzlDaumView) -> CpuTexts {
    let p = z.all_data->0;
    let el = z.partlist_byte_len->0;
    let count = z.partlist_count->0;
    let t1 = with_module_name(cpu_records(p, el as nat, count as nat, no_texts()));
    let t2 = sub_record_texts(p);
    if z.szl_id == 0x001C && el >= 4 && count > 0 && (t1.module_type.len() > 0
        || t1.serial_number.len() > 0 || t1.as_name.len() > 0) {
        t1
    } else if t2.module_type.len() > 0 || t2.serial_number.len() > 0 {
        t2
    } else {
        heuristic_from(p, 0, no_texts())
    }
}

/// The five texts of a CPU while they are gathered.
struct TextSet {
    module_type: Vec<char>,
    serial_number: Vec<char>,
    as_name: Vec<char>,
    copyright: Vec<char>,
    module_name: Vec<char>,
}

impl View for TextSet {
    type V = CpuTexts;

    closed spec fn view(&self) -> CpuTexts {
        texts(self.module_type@, self.serial_number@, self.as_name@, self.copyright@, self.module_name@)
    }
}

fn empty_texts() -> (r: TextSet)
    ensures
        r@ == no_texts(),
{
    let r = TextSet {
        module_type: Vec::new(),
        serial_number: Vec::new(),
        as_name: Vec::new(),
        copyright: Vec::new(),
        module_name: Vec::new(),
    };
    assert(r@ == no_texts());
    r
}

fn apply_entry(acc: &mut TextSet, idx: u16, val: Vec<char>)
    ensures
        final(acc)@ == take_entry(old(acc)@, idx, val@),
{
    if idx == 1 && acc.as_name.len() == 0 {
        acc.as_name = val;
    } else if (idx == 2 || idx == 3) && acc.module_name.len() == 0 {
        acc.module_name = val;
    } else if idx == 4 && acc.copyright.len() == 0 {
        acc.copyright = val;
    } else if idx == 5 && acc.serial_number.len() == 0 {
        acc.serial_number = val;
    } else if idx == 7 && acc.module_type.len() == 0 {
        acc.module_type = val;
    }
}

/// How many ASCII digits `s` holds.
fn count_digits(s: &Vec<char>) -> (r: usize)
    ensures
        r == digits_of(s@).len(),
{
    let n = s.len();
    let mut count: usize = 0;
    let mut i: usize = 0;
    while i < n
        invariant
            n == s@.len(),
            i <= n,
            count == digits_of(s@.take(i as int)).len(),
            count <= i,
        decreases n - i,
    {
        let c = s[i];
        assert(s@.take(i + 1).drop_last() =~= s@.take(i as int));
        assert(s@.take(i + 1).last() == c);
        if (c as u32) >= 48 && (c as u32) <= 57 {
            count += 1;
        }
        i += 1;
    }
    assert(s@.take(n as int) =~= s@);
    count
}

fn apply_heuristic(acc: &mut TextSet, tag: Option<u8>, val: Vec<char>)
    ensures
        final(acc)@ == heuristic_step(old(acc)@, tag, val@),
{
    let su = upper(&val);
    let hboot = ['H', 'B', 'O', 'O', 'T'];
    let dash = ['-'];
    let six_es7 = ['6', 'E', 'S', '7'];
    let cpu = ['C', 'P', 'U'];
    let pn = ['P', 'N'];
    let mc = ['M', 'C', '_'];
    assert(hboot@ =~= seq!['H', 'B', 'O', 'O', 'T']);
    assert(dash@ =~= seq!['-']);
    assert(six_es7@ =~= seq!['6', 'E', 'S', '7']);
    assert(cpu@ =~= seq!['C', 'P', 'U']);
    assert(pn@ =~= seq!['P', 'N']);
    assert(mc@ =~= seq!['M', 'C', '_']);
    if val.len() < 3 || boot_label(&su) || starts_with_chars(&su, &hboot) {
        return;
    }
    if tag == Some(7u8) && acc.module_type.len() == 0 {
        acc.module_type = val;
    } else if tag == Some(8u8) && acc.module_name.len() == 0 {
        acc.module_name = val;
    } else if tag == Some(5u8) && acc.as_name.len() == 0 {
        acc.as_name = val;
    } else if tag == Some(6u8) && acc.copyright.len() == 0 {
        acc.copyright = val;
    } else if tag == Some(4u8) && acc.serial_number.len() == 0 {
        acc.serial_number = val;
    } else if contains_chars(&val, &dash) && count_digits(&val) >= 4 && !starts_with_chars(&val, &six_es7)
        && acc.serial_number.len() == 0 {
        acc.serial_number = val;
    } else if contains_chars(&su, &cpu) && contains_chars(&su, &pn) && acc.module_type.len() == 0 {
        acc.module_type = val;
    } else if acc.module_type.len() == 0 && val.len() >= 8 && !contains_chars(&su, &mc) {
        acc.module_type = val;
    }
}

fn scan_cpu_records(payload: &Vec<u8>, el: usize, count: usize) -> (r: TextSet)
    requires
        el >= 4,
    ensures
        r@ == cpu_records(payload@, el as nat, count as nat, no_texts()),
{
    let mut acc = empty_texts();
    let mut buf = buf_from(payload.as_slice());
    let mut k: usize = 0;
    while k < count
        invariant
            el >= 4,
            k <= count,
            cpu_records(payload@, el as nat, count as nat, no_texts()) == cpu_records(
                bytes_of(buf),
                el as nat,
                (count - k) as nat,
                acc@,
            ),
        decreases count - k,
    {
        if remaining(&buf) < el {
            return acc;
        }
        let ghost before = bytes_of(buf);
        let idx = get_u16(&mut buf);
        let raw = copy_to_bytes_vec(&mut buf, el - 2);
        assert(raw@ =~= before.subrange(2, el as int));
        assert(bytes_of(buf) =~= before.subrange(el as int, before.len() as int));
        let val = read_record_text(&raw);
        apply_entry(&mut acc, idx, val);
        k += 1;
    }
    acc
}

fn scan_cpu_heuristic(b: &[u8]) -> (r: TextSet)
    ensures
        r@ == heuristic_from(b@, 0, no_texts()),
{
    let mut acc = empty_texts();
    let n = b.len();
    let mut scan: usize = 0;
    while scan < n
        invariant
            n == b@.len(),
            scan <= n,
            heuristic_from(b@, 0, no_texts()) == heuristic_from(b@, scan as int, acc@),
        decreases n - scan,
    {
        if b[scan] >= 0x20 && b[scan] <= 0x7E {
            let start = scan;
            scan = find_run_end(b, start);
            let val = ascii_text(b, start, scan);
            let tag = if start >= 2 && b[start - 2] == 0x00 {
                Some(b[start - 1])
            } else {
                None
            };
            apply_heuristic(&mut acc, tag, val);
        } else {
            scan += 1;
        }
    }
    acc
}

fn cpu_info_from(t: TextSet) -> (r: CpuInfo)
    ensures
        texts(r.module_type@, r.serial_number@, r.as_name@, r.copyright@, r.module_name@) == t@,
{
    CpuInfo {
        module_type: chars_to_string(&t.module_type),
        serial_number: chars_to_string(&t.serial_number),
        as_name: chars_to_string(&t.as_name),
        copyright: chars_to_string(&t.copyright),
        module_name: chars_to_string(&t.module_name),
    }
}

/// The CPU identification in the answer to an SZL 0x001C request; see `cpu_texts`.
pub fn cpu_info_of(resp: &S7Data) -> (r: Result<CpuInfo, S7Error>)
    requires
        resp.datum matches Some(Datum::Szl(z)) ==> z@.has_partlist(),
    ensures
        match resp@.datum {
            None => r matches Err(S7Error::Error(m)) && m@ == "Response has no any data"@,
            Some(DatumView::ReadWrite(_)) => r matches Err(S7Error::Error(m)) && m@ == "Datum is not Szl"@,
            Some(DatumView::Szl(z)) => r matches Ok(c) && texts(
                c.module_type@,
                c.serial_number@,
                c.as_name@,
                c.copyright@,
                c.module_name@,
            ) == cpu_texts(z),
        },
{
    match &resp.datum {
        None => Err(error_msg("Response has no any data")),
        Some(Datum::ReadWrite(_)) => Err(error_msg("Datum is not Szl")),
        Some(Datum::Szl(z)) => {
            let payload = z.all_data.as_ref().unwrap();
            let el = *z.partlist_byte_len.as_ref().unwrap();
            let count = *z.partlist_count.as_ref().unwrap();
            if z.szl_id == 0x001C && el >= 4 && count > 0 {
                let mut t = scan_cpu_records(payload, el as usize, count as usize);
                if t.module_name.len() == 0 && t.as_name.len() > 0 {
                    t.module_name = t.as_name.clone();
                }
                if t.module_type.len() > 0 || t.serial_number.len() > 0 || t.as_name.len() > 0 {
                    return Ok(cpu_info_from(t));
                }
            }
            let (module_type, serial_number, as_name, copyright, module_name) = parse_sub_record_fields(
                payload.as_slice(),
            );
            if module_type.len() > 0 || serial_number.len() > 0 {
                return Ok(cpu_info_from(TextSet { module_type, serial_number, as_name, copyright, module_name }));
            }
            Ok(cpu_info_from(scan_cpu_heuristic(payload.as_slice())))
        },
    }
}

/// Whether an SZL 0x0131 answer holds a whole first record of at least twelve bytes.
pub open spec fn has_comm_record(z: SzlDaumView) -> bool {
    &&& z.szl_id == 0x0131
    &&& z.partlist_byte_len->0 >= 12
    &&& z.partlist_count->0 >= 1
    &&& z.all_data->0.len() >= z.partlist_byte_len->0
}

/// The communication limits in the first record of an SZL 0x0131 list: after
/// a 16-bit index, the 16-bit PDU size and connection count and the 32-bit
/// MPI and bus rates, all big-endian.
pub open spec fn comm_limits(p: Seq<u8>) -> CommunicationInfo {
    CommunicationInfo {
        max_pdu_len: from_be16(p[2], p[3]) as u32,
        max_connections: from_be16(p[4], p[5]) as u32,
        max_mpi_rate: from_be32(p[6], p[7], p[8], p[9]),
        max_bus_rate: from_be32(p[10], p[11], p[12], p[13]),
    }
}

/// The communication limits that an SZL 0x0131 answer gives; all zero where
/// it has no such record.
pub open spec fn comm_info_spec(z: SzlDaumView) -> CommunicationInfo {
    if has_comm_record(z) {
        comm_limits(z.all_data->0)
    } else {
        CommunicationInfo { max_pdu_len: 0, max_connections: 0, max_mpi_rate: 0, max_bus_rate: 0 }
    }
}

/// The communication limits in the answer to an SZL 0x0131 request. A record
/// whose length is given as twelve is still read over fourteen bytes, so the
/// records must hold them.
pub fn communication_info_of(resp: &S7Data) -> (r: Result<CommunicationInfo, S7Error>)
    requires
        resp.datum matches Some(Datum::Szl(z)) ==> z@.has_partlist() && (has_comm_record(z@)
            ==> z@.all_data->0.len() >= 14),
    ensures
        match resp@.datum {
            None => r matches Err(S7Error::Error(m)) && m@ == "Response has no any data"@,
            Some(DatumView::ReadWrite(_)) => r matches Err(S7Error::Error(m)) && m@ == "Datum is not Szl"@,
            Some(DatumView::Szl(z)) => r == Ok::<CommunicationInfo, S7Error>(comm_info_spec(z)),
        },
{
    match &resp.datum {
        None => Err(error_msg("Response has no any data")),
        Some(Datum::ReadWrite(_)) => Err(error_msg("Datum is not Szl")),
        Some(Datum::Szl(z)) => {
            let payload = z.all_data.as_ref().unwrap();
            let el = *z.partlist_byte_len.as_ref().unwrap();
            let count = *z.partlist_count.as_ref().unwrap();
            let mut buf = buf_from(payload.as_slice());
            if z.szl_id == 0x0131 && el >= 12 && count >= 1 && remaining(&buf) >= el as usize {
                let ghost p = bytes_of(buf);
                let _entry_idx = get_u16(&mut buf);
                let max_pdu_len = get_u16(&mut buf) as u32;
                let max_connections = get_u16(&mut buf) as u32;
                let max_mpi_rate = get_u32(&mut buf);
                let max_bus_rate = get_u32(&mut buf);
                return Ok(CommunicationInfo { max_pdu_len, max_connections, max_mpi_rate, max_bus_rate });
            }
            Ok(CommunicationInfo { max_pdu_len: 0, max_connections: 0, max_mpi_rate: 0, max_bus_rate: 0 })
        },
    }
}

/// The operating mode that a status byte names: 0x08 is run, 0x00 unknown,
/// any other value stop (0x04, and 0x03 on older CPUs).
pub open spec fn status_from_byte(b: u8) -> PlcStatus {
    if b == 0x08 {
        PlcStatus::Run
    } else if b == 0x00 {
        PlcStatus::Unknown
    } else {
        PlcStatus::Stop
    }
}

/// The status byte of an SZL 0x0424 record: 08 means run, 04 (and 03 on
/// older CPUs) stop, 00 unknown; every other value is read as stop.
pub proof fn lemma_status_bytes(b: u8)
    ensures
        status_from_byte(0x08) == PlcStatus::Run,
        status_from_byte(0x04) == PlcStatus::Stop,
        status_from_byte(0x03) == PlcStatus::Stop,
        status_from_byte(0x00) == PlcStatus::Unknown,
        b != 0x08 && b != 0x00 ==> status_from_byte(b) == PlcStatus::Stop,
{
}

/// The operating mode that an SZL 0x0424 answer gives: its fourth byte; unknown
/// for another list.
pub open spec fn plc_status_spec(z: SzlDaumView) -> PlcStatus {
    if z.szl_id == 0x0424 {
        status_from_byte(z.all_data->0[3])
    } else {
        PlcStatus::Unknown
    }
}

/// The operating mode in the answer to an SZL 0x0424 request.
pub fn plc_status_of(resp: &S7Data) -> (r: Result<PlcStatus, S7Error>)
    requires
        resp.datum matches Some(Datum::Szl(z)) ==> z@.all_data is Some && (z@.szl_id == 0x0424
            ==> z@.all_data->0.len() >= 4),
    ensures
        match resp@.datum {
            None => r matches Err(S7Error::Error(m)) && m@ == "Response has no any data"@,
            Some(DatumView::ReadWrite(_)) => r matches Err(S7Error::Error(m)) && m@ == "Datum is not Szl"@,
            Some(DatumView::Szl(z)) => r == Ok::<PlcStatus, S7Error>(plc_status_spec(z)),
        },
{
    match &resp.datum {
        None => Err(error_msg("Response has no any data")),
        Some(Datum::ReadWrite(_)) => Err(error_msg("Datum is not Szl")),
        Some(Datum::Szl(z)) => {
            let payload = z.all_data.as_ref().unwrap();
            if z.szl_id == 0x0424 {
                let status_byte = payload[3];
                return match status_byte {
                    0x00 => Ok(PlcStatus::Unknown),
                    0x04 => Ok(PlcStatus::Stop),
                    0x08 => Ok(PlcStatus::Run),
                    0x03 => Ok(PlcStatus::Stop),
                    _ => Ok(PlcStatus::Stop),
                };
            }
            Ok(PlcStatus::Unknown)
        },
    }
}

} // verus!
