//! Items of read/write requests and responses: the address of a request item,
//! the return code of a write result, and the payload of a data item.
use vstd::prelude::*;
use tokio_util::bytes::BytesMut;
use crate::buffer::{
    be16, buf_from, buf_new, buf_to_vec, buf_with_capacity, copy_to_vec, extend_from_slice,
    from_be16, get_u16, get_u8, put_u16, put_u8, remaining,
};
use crate::error::{error_hex, error_msg, hex_text, is_error_text, S7Error};
use crate::text::{dec_digits, push_decimal, string_push};
use crate::types::{S7Area, S7DataVariableType, S7ParamVariableType, S7ReturnCode, SyntaxID};

verus! {

/// `str::to_uppercase`, the result as characters.
pub uninterp spec fn to_uppercase_of(s: Seq<char>) -> Seq<char>;

pub open spec fn is_ascii_char(c: char) -> bool {
    (c as u32) < 128
}

pub open spec fn is_ascii_text(s: Seq<char>) -> bool {
    forall|i: int| 0 <= i < s.len() ==> is_ascii_char(#[trigger] s[i])
}

/// `c` with the letters `a` to `z` mapped to `A` to `Z`.
pub open spec fn ascii_upper_char(c: char) -> char {
    if 97 <= c as u32 <= 122 {
        ((c as u32 - 32) as u32) as char
    } else {
        c
    }
}

/// `c` with the letters `A` to `Z` mapped to `a` to `z`.
pub open spec fn ascii_lower_char(c: char) -> char {
    if 65 <= c as u32 <= 90 {
        ((c as u32 + 32) as u32) as char
    } else {
        c
    }
}

pub open spec fn ascii_upper(s: Seq<char>) -> Seq<char> {
    s.map_values(|c: char| ascii_upper_char(c))
}

pub open spec fn ascii_lower(s: Seq<char>) -> Seq<char> {
    s.map_values(|c: char| ascii_lower_char(c))
}

/// The upper-case form of text: on ASCII text the letters `a` to `z` become
/// `A` to `Z`; other text goes by the Unicode mapping of `str::to_uppercase`.
pub open spec fn upper_of(s: Seq<char>) -> Seq<char> {
    if is_ascii_text(s) {
        ascii_upper(s)
    } else {
        to_uppercase_of(s)
    }
}

/// `str::to_uppercase` followed by collecting the characters of the result.
/// On ASCII text the Unicode upper-case mapping changes exactly the letters
/// `a` to `z`, to `A` to `Z`; no other ASCII character has an upper-case form.
#[verifier::external_body]
pub(crate) fn uppercase_chars(s: &str) -> (r: Vec<char>)
    ensures
        r@ == to_uppercase_of(s@),
        is_ascii_text(s@) ==> r@ == ascii_upper(s@),
{
    s.to_uppercase().chars().collect()
}

/// The parts of `s` between the dots, in order; there is always at least one.
pub open spec fn split_dots(s: Seq<char>) -> Seq<Seq<char>>
    decreases s.len(),
{
    if s.len() == 0 {
        seq![Seq::<char>::empty()]
    } else {
        let prev = split_dots(s.drop_last());
        if s.last() == '.' {
            prev.push(Seq::<char>::empty())
        } else {
            prev.update(prev.len() - 1, prev.last().push(s.last()))
        }
    }
}

proof fn lemma_split_dots_nonempty(s: Seq<char>)
    ensures
        split_dots(s).len() >= 1,
    decreases s.len(),
{
    if s.len() > 0 {
        lemma_split_dots_nonempty(s.drop_last());
    }
}

/// The character sequences that a vector of character vectors holds.
pub open spec fn views_of(v: Seq<Vec<char>>) -> Seq<Seq<char>> {
    v.map_values(|x: Vec<char>| x@)
}

/// Splits `s` at every dot.
pub fn split_at_dots(s: &Vec<char>) -> (r: Vec<Vec<char>>)
    ensures
        views_of(r@) == split_dots(s@),
{
    let mut parts: Vec<Vec<char>> = Vec::new();
    let mut cur: Vec<char> = Vec::new();
    let n = s.len();
    for i in 0..n
        invariant
            n == s@.len(),
            views_of(parts@).push(cur@) == split_dots(s@.take(i as int)),
    {
        proof {
            assert(s@.take(i + 1).drop_last() =~= s@.take(i as int));
            lemma_split_dots_nonempty(s@.take(i as int));
        }
        let c = s[i];
        let ghost before = views_of(parts@).push(cur@);
        if c == '.' {
            let done = cur;
            parts.push(done);
            cur = Vec::new();
            assert(views_of(parts@) =~= before);
            assert(views_of(parts@).push(cur@) =~= split_dots(s@.take(i + 1)));
        } else {
            cur.push(c);
            assert(views_of(parts@).push(cur@) =~= before.update(before.len() - 1, before.last().push(c)));
        }
    }
    assert(s@.take(n as int) =~= s@);
    let ghost before = views_of(parts@).push(cur@);
    parts.push(cur);
    assert(views_of(parts@) =~= before);
    parts
}

pub open spec fn is_digit(c: char) -> bool {
    48 <= c as u32 <= 57
}

/// The ASCII digits of `s`, in order.
pub open spec fn digits_of(s: Seq<char>) -> Seq<char>
    decreases s.len(),
{
    if s.len() == 0 {
        Seq::<char>::empty()
    } else if is_digit(s.last()) {
        digits_of(s.drop_last()).push(s.last())
    } else {
        digits_of(s.drop_last())
    }
}

/// The number that the decimal digits `d` write.
pub open spec fn decimal_value(d: Seq<char>) -> nat
    decreases d.len(),
{
    if d.len() == 0 {
        0
    } else {
        decimal_value(d.drop_last()) * 10 + (d.last() as u32 - 48) as nat
    }
}

/// The number written by the digits of `s` (other characters are ignored), if
/// there is at least one digit and the number fits in 32 bits.
pub open spec fn number_in(s: Seq<char>) -> Option<u32> {
    let d = digits_of(s);
    if d.len() == 0 || decimal_value(d) > u32::MAX {
        None
    } else {
        Some(decimal_value(d) as u32)
    }
}

proof fn lemma_decimal_value_monotone(d: Seq<char>, c: char)
    requires
        is_digit(c),
    ensures
        decimal_value(d.push(c)) >= decimal_value(d),
        decimal_value(d.push(c)) == decimal_value(d) * 10 + (c as u32 - 48) as nat,
{
    assert(d.push(c).drop_last() =~= d);
}

/// The number in `s`, its non-digits ignored.
fn extract_number(s: &Vec<char>) -> (r: Result<u32, S7Error>)
    ensures
        match r {
            Ok(n) => number_in(s@) == Some(n),
            Err(e) => number_in(s@) is None && (e matches S7Error::Error(m) && m@ == number_error_text(s@)),
        },
{
    let n = s.len();
    let mut value: u32 = 0;
    let mut seen: bool = false;
    let mut overflow: bool = false;
    for i in 0..n
        invariant
            n == s@.len(),
            seen == (digits_of(s@.take(i as int)).len() > 0),
            overflow == (decimal_value(digits_of(s@.take(i as int))) > u32::MAX),
            !overflow ==> value == decimal_value(digits_of(s@.take(i as int))),
    {
        let c = s[i];
        let ghost before = digits_of(s@.take(i as int));
        assert(s@.take(i + 1).drop_last() =~= s@.take(i as int));
        if (c as u32) >= 48 && (c as u32) <= 57 {
            proof {
                lemma_decimal_value_monotone(before, c);
            }
            seen = true;
            let d: u32 = (c as u32) - 48;
            if !overflow {
                if value > (u32::MAX - d) / 10 {
                    overflow = true;
                } else {
                    value = value * 10 + d;
                }
            }
        }
    }
    assert(s@.take(n as int) =~= s@);
    if !seen {
        let mut m = String::from_str("no digits found in '");
        for i in 0..n
            invariant
                n == s@.len(),
                m@ == "no digits found in '"@ + s@.take(i as int),
        {
            string_push(&mut m, s[i]);
            assert(s@.take(i + 1) =~= s@.take(i as int).push(s@[i as int]));
        }
        string_push(&mut m, '\'');
        assert(s@.take(n as int) =~= s@);
        return Err(S7Error::Error(m));
    }
    if overflow {
        return Err(error_msg("parse number error: number too large to fit in target type"));
    }
    Ok(value)
}

/// Address of a variable in a read or write request, 12 bytes on the wire.
#[derive(Debug, Eq, PartialEq, Clone, Copy, Structural)]
pub struct RequestItem {
    /// Variable specification, 0x12 for read/write (byte 0).
    pub specification_type: u8,
    /// Length of the rest of the item (byte 1).
    pub length_of_following: u8,
    /// Addressing mode, 0x10 for S7-Any (byte 2).
    pub syntax_id: SyntaxID,
    /// Transport size (byte 3).
    pub variable_type: S7ParamVariableType,
    /// Number of elements (bytes 4-5).
    pub count: u16,
    /// DB number, 0 outside data blocks (bytes 6-7).
    pub db_number: u16,
    /// Memory area (byte 8).
    pub area: S7Area,
    /// Byte address, part of the 24-bit address in bytes 9-11.
    pub byte_address: u32,
    /// Bit address, the low three bits of the 24-bit address.
    pub bit_address: u32,
}

/// Timers and counters are addressed in words of the 24-bit address; other
/// areas in bits.
pub open spec fn is_timer_or_counter(area: S7Area) -> bool {
    area == S7Area::S7Timers || area == S7Area::S7Counters
}

/// The item built from the parts of an upper-case address, if they name one.
pub open spec fn item_from_parts(
    parts: Seq<Seq<char>>,
    count: u16,
    variable_type: S7ParamVariableType,
) -> Result<RequestItem, ()> {
    let first = parts[0];
    if first.len() == 0 {
        Err(())
    } else {
        let c = first[0];
        match S7Area::spec_from_first_char(c) {
            None => Err(()),
            Some(area) => {
                let db = if c == 'D' {
                    match number_in(first) {
                        Some(n) => if n <= u16::MAX { Some(n as u16) } else { None },
                        None => None,
                    }
                } else if c == 'V' {
                    Some(1u16)
                } else {
                    Some(0u16)
                };
                let byte = if c == 'D' {
                    if parts.len() >= 2 { number_in(parts[1]) } else { Some(0u32) }
                } else {
                    number_in(first)
                };
                let bit = if variable_type != S7ParamVariableType::Bit {
                    Some(0u32)
                } else if c == 'D' {
                    if parts.len() >= 3 { number_in(parts[2]) } else { Some(0u32) }
                } else {
                    if parts.len() >= 2 { number_in(parts[1]) } else { Some(0u32) }
                };
                match (db, byte, bit) {
                    (Some(db), Some(byte), Some(bit)) => if bit > 7 {
                        Err(())
                    } else {
                        Ok(RequestItem::spec_new(variable_type, count, area, db, byte, bit))
                    },
                    _ => Err(()),
                }
            },
        }
    }
}

/// The message that refuses the number part `s`: it has no digit, or its
/// number does not fit in 32 bits.
pub open spec fn number_error_text(s: Seq<char>) -> Seq<char> {
    if digits_of(s).len() == 0 {
        "no digits found in '"@ + s + seq!['\'']
    } else {
        "parse number error: number too large to fit in target type"@
    }
}

/// The part that holds the byte address, if the address has one.
pub open spec fn byte_part(parts: Seq<Seq<char>>) -> Option<Seq<char>> {
    if parts[0][0] == 'D' {
        if parts.len() >= 2 { Some(parts[1]) } else { None }
    } else {
        Some(parts[0])
    }
}

/// The part that holds the bit address, if the address has one and a bit is read.
pub open spec fn bit_part(parts: Seq<Seq<char>>, variable_type: S7ParamVariableType) -> Option<Seq<char>> {
    if variable_type != S7ParamVariableType::Bit {
        None
    } else if parts[0][0] == 'D' {
        if parts.len() >= 3 { Some(parts[2]) } else { None }
    } else {
        if parts.len() >= 2 { Some(parts[1]) } else { None }
    }
}

/// The message that refuses the parts of an upper-case address, for the
/// first fault in the order they are read: the area letter, the DB number,
/// the byte address, the bit address, the bit range.
pub open spec fn parts_error_text(parts: Seq<Seq<char>>, variable_type: S7ParamVariableType) -> Seq<char> {
    let first = parts[0];
    if first.len() == 0 {
        "empty first part"@
    } else if S7Area::spec_from_first_char(first[0]) is None {
        "unknown area prefix: '"@ + seq![first[0]] + seq!['\'']
    } else if first[0] == 'D' && number_in(first) is None {
        number_error_text(first)
    } else if first[0] == 'D' && number_in(first)->0 > u16::MAX {
        "number "@ + dec_digits(number_in(first)->0 as nat) + " out of range"@
    } else if byte_part(parts) matches Some(b) && number_in(b) is None {
        number_error_text(byte_part(parts)->0)
    } else if bit_part(parts, variable_type) matches Some(b) && number_in(b) is None {
        number_error_text(bit_part(parts, variable_type)->0)
    } else {
        "bit index must be in range 0-7"@
    }
}

/// The message that refuses an address; see `item_from_address`.
pub open spec fn address_error_text(address: Seq<char>, count: u16, variable_type: S7ParamVariableType) -> Seq<char> {
    if address.len() == 0 {
        "address is null or empty"@
    } else if count == 0 {
        "count must be positive"@
    } else {
        parts_error_text(split_dots(upper_of(address)), variable_type)
    }
}

/// The item that the address `address` names, read as `variable_type`.
pub open spec fn item_from_address(
    address: Seq<char>,
    count: u16,
    variable_type: S7ParamVariableType,
) -> Result<RequestItem, ()> {
    if address.len() == 0 || count == 0 {
        Err(())
    } else {
        item_from_parts(split_dots(upper_of(address)), count, variable_type)
    }
}

/// The 24-bit address of an item: the word number for timers and counters,
/// byte address times eight plus bit address elsewhere.
pub open spec fn address_bits(item: RequestItem) -> u32 {
    if is_timer_or_counter(item.area) {
        item.byte_address << 2
    } else {
        ((item.byte_address << 3) + item.bit_address) as u32
    }
}

proof fn lemma_split_dots_first(s: Seq<char>)
    requires
        s.len() > 0,
        s[0] != '.',
    ensures
        split_dots(s)[0].len() > 0,
        split_dots(s)[0][0] == s[0],
    decreases s.len(),
{
    lemma_split_dots_nonempty(s.drop_last());
    if s.len() > 1 {
        lemma_split_dots_first(s.drop_last());
    }
}

proof fn lemma_ascii_case_fold(s: Seq<char>)
    requires
        is_ascii_text(s),
    ensures
        is_ascii_text(ascii_lower(s)),
        ascii_upper(ascii_lower(s)) == ascii_upper(s),
{
    assert forall|i: int| 0 <= i < s.len() implies is_ascii_char(#[trigger] ascii_lower(s)[i])
        && ascii_upper_char(ascii_lower(s)[i]) == ascii_upper_char(s[i]) by {
        let c = s[i];
        assert(is_ascii_char(c));
        if 65 <= c as u32 <= 90 {
            let u = (c as u32 + 32) as u32;
            assert((u as char) as u32 == u);
            assert(((u - 32) as u32) == c as u32);
            vstd::utf8::char_u32_cast(c, c as u32);
        }
    }
    assert(ascii_upper(ascii_lower(s)) =~= ascii_upper(s));
}

/// Addresses are read without regard to the case of their letters: an ASCII
/// address and its lower-case form name the same item, and where one is
/// refused the other is refused with the same message.
pub proof fn lemma_address_case_insensitive(address: Seq<char>, count: u16, variable_type: S7ParamVariableType)
    requires
        is_ascii_text(address),
    ensures
        item_from_address(ascii_lower(address), count, variable_type) == item_from_address(
            address,
            count,
            variable_type,
        ),
        address_error_text(ascii_lower(address), count, variable_type) == address_error_text(
            address,
            count,
            variable_type,
        ),
{
    lemma_ascii_case_fold(address);
}

/// What an item parsed for bytes holds: the count asked for, bit address 0
/// and the byte transport size. A count of zero is refused, and an ASCII
/// address that begins with `V` or `v` is DB 1 of the data blocks.
pub proof fn lemma_byte_item(address: Seq<char>, count: u16)
    ensures
        count == 0 ==> item_from_address(address, count, S7ParamVariableType::Byte) is Err,
        item_from_address(address, count, S7ParamVariableType::Byte) matches Ok(r) ==> r.count == count
            && r.bit_address == 0 && r.variable_type == S7ParamVariableType::Byte,
        is_ascii_text(address) && address.len() > 0 && (address[0] == 'V' || address[0] == 'v') ==> (
        item_from_address(address, count, S7ParamVariableType::Byte) matches Ok(r) ==> r.area
            == S7Area::DataBlocks && r.db_number == 1),
{
    if is_ascii_text(address) && address.len() > 0 && (address[0] == 'V' || address[0] == 'v') {
        let up = ascii_upper(address);
        assert(up[0] == 'V');
        lemma_split_dots_first(up);
    }
}

/// The first eight bytes of an item parsed from an address: the variable
/// specification 12, the length 0A, the S7-Any syntax 10, the transport size
/// (01 for a bit, 02 for bytes), the count and the DB number; then the area
/// code: 81 inputs, 82 outputs, 83 flags, 84 data blocks, 1D timers, 1C
/// counters (hexadecimal), the only areas an address names.
pub proof fn lemma_parsed_item_bytes(address: Seq<char>, count: u16, variable_type: S7ParamVariableType)
    requires
        variable_type == S7ParamVariableType::Bit || variable_type == S7ParamVariableType::Byte,
        item_from_address(address, count, variable_type) is Ok,
    ensures
        ({
            let r = item_from_address(address, count, variable_type)->Ok_0;
            let b = r.encoded();
            &&& b.subrange(0, 4) == seq![
                0x12u8,
                0x0A,
                0x10,
                if variable_type == S7ParamVariableType::Bit { 0x01u8 } else { 0x02u8 },
            ]
            &&& b.subrange(4, 8) == be16(count) + be16(r.db_number)
            &&& b[8] == if r.area == S7Area::Inputs {
                0x81u8
            } else if r.area == S7Area::Outputs {
                0x82u8
            } else if r.area == S7Area::Flags {
                0x83u8
            } else if r.area == S7Area::DataBlocks {
                0x84u8
            } else if r.area == S7Area::S7Timers {
                0x1Du8
            } else {
                0x1Cu8
            }
            &&& (r.area == S7Area::Inputs || r.area == S7Area::Outputs || r.area == S7Area::Flags || r.area
                == S7Area::DataBlocks || r.area == S7Area::S7Timers || r.area == S7Area::S7Counters)
        }),
{
    let r = item_from_address(address, count, variable_type)->Ok_0;
    let b = r.encoded();
    assert(b.subrange(0, 4) =~= seq![r.specification_type, r.length_of_following, r.syntax_id.code(), r.variable_type.code()]);
    assert(b.subrange(4, 8) =~= be16(r.count) + be16(r.db_number));
}

proof fn lemma_u32_bytes(v: u32)
    ensures
        ((v >> 16) & 0xFF) as u8 == (v / 0x10000) % 0x100,
        ((v >> 8) & 0xFF) as u8 == (v / 0x100) % 0x100,
        (v & 0xFF) as u8 == v % 0x100,
{
    assert(((v >> 16) & 0xFF) as u8 == (v / 0x10000) % 0x100) by (bit_vector);
    assert(((v >> 8) & 0xFF) as u8 == (v / 0x100) % 0x100) by (bit_vector);
    assert((v & 0xFF) as u8 == v % 0x100) by (bit_vector);
}

/// The last three bytes of an item hold its address, most significant byte
/// first: the bit number 8 * byte + bit, or for timers and counters the word
/// number 4 * byte.
pub proof fn lemma_item_address_bytes(r: RequestItem)
    requires
        is_timer_or_counter(r.area) ==> 4 * r.byte_address <= u32::MAX,
        !is_timer_or_counter(r.area) ==> 8 * r.byte_address + r.bit_address <= u32::MAX,
    ensures
        ({
            let a: int = if is_timer_or_counter(r.area) {
                4 * r.byte_address
            } else {
                8 * r.byte_address + r.bit_address
            };
            &&& r.encoded()[9] == (a / 0x10000) % 0x100
            &&& r.encoded()[10] == (a / 0x100) % 0x100
            &&& r.encoded()[11] == a % 0x100
        }),
{
    let x = r.byte_address;
    let y = r.bit_address;
    if is_timer_or_counter(r.area) {
        assert(x << 2 == 4 * x) by (bit_vector)
            requires
                4 * x <= 0xFFFF_FFFF,
        ;
    } else {
        assert(x << 3 == 8 * x) by (bit_vector)
            requires
                8 * x + y <= 0xFFFF_FFFF,
        ;
    }
    lemma_u32_bytes(address_bits(r));
}

/// The length field of a data item counts bits for the untyped, the
/// byte/word/dword and the integer transport sizes, and bytes for the bit,
/// double integer, real and octet string sizes; the data follow it.
pub proof fn lemma_data_item_length_field(d: DataItemView)
    requires
        d.count_encodable(),
    ensures
        (d.data_variable_type == S7DataVariableType::Null || d.data_variable_type
            == S7DataVariableType::ByteWordDword || d.data_variable_type == S7DataVariableType::Integer)
            ==> d.encoded().subrange(2, 4) == be16((8 * d.count) as u16),
        (d.data_variable_type == S7DataVariableType::Bit || d.data_variable_type == S7DataVariableType::DInteger
            || d.data_variable_type == S7DataVariableType::Real || d.data_variable_type
            == S7DataVariableType::OctetString) ==> d.encoded().subrange(2, 4) == be16(d.count),
        d.encoded().subrange(4, d.encoded().len() as int) == d.data,
{
    assert(d.encoded().subrange(2, 4) =~= be16(d.wire_count()));
    assert(d.encoded().subrange(4, d.encoded().len() as int) =~= d.data);
}

impl RequestItem {
    pub const BYTE_LENGTH: usize = 12;

    pub open spec fn spec_new(
        variable_type: S7ParamVariableType,
        count: u16,
        area: S7Area,
        db_number: u16,
        byte_address: u32,
        bit_address: u32,
    ) -> RequestItem {
        RequestItem {
            specification_type: 0x12,
            length_of_following: 0x0A,
            syntax_id: SyntaxID::S7Any,
            variable_type,
            count,
            db_number,
            area,
            byte_address,
            bit_address,
        }
    }

    fn new(
        variable_type: S7ParamVariableType,
        count: u16,
        area: S7Area,
        db_number: u16,
        byte_address: u32,
        bit_address: u32,
    ) -> (r: RequestItem)
        ensures
            r == RequestItem::spec_new(variable_type, count, area, db_number, byte_address, bit_address),
    {
        Self {
            specification_type: 0x12,
            length_of_following: 0x0A,
            syntax_id: SyntaxID::S7Any,
            variable_type,
            count,
            db_number,
            area,
            byte_address,
            bit_address,
        }
    }

    /// The item for one bit at `address`, such as `DB10.5.3` or `M1.2`.
    pub fn parse_bit(address: &str) -> (r: Result<RequestItem, S7Error>)
        ensures
            match r {
                Ok(item) => item_from_address(address@, 1, S7ParamVariableType::Bit) == Ok::<RequestItem, ()>(item),
                Err(e) => item_from_address(address@, 1, S7ParamVariableType::Bit) is Err && (e matches S7Error::Error(
                    m,
                ) && m@ == address_error_text(address@, 1, S7ParamVariableType::Bit)),
            },
    {
        Self::parse(address, 1, S7ParamVariableType::Bit)
    }

    /// The item for `count` bytes from `address`, such as `DB1.10` or `MB4`.
    pub fn parse_byte(address: &str, count: u16) -> (r: Result<RequestItem, S7Error>)
        ensures
            match r {
                Ok(item) => item_from_address(address@, count, S7ParamVariableType::Byte) == Ok::<RequestItem, ()>(item),
                Err(e) => item_from_address(address@, count, S7ParamVariableType::Byte) is Err && (e matches S7Error::Error(
                    m,
                ) && m@ == address_error_text(address@, count, S7ParamVariableType::Byte)),
            },
    {
        Self::parse(address, count, S7ParamVariableType::Byte)
    }

    fn parse(address: &str, count: u16, variable_type: S7ParamVariableType) -> (r: Result<RequestItem, S7Error>)
        ensures
            match r {
                Ok(item) => item_from_address(address@, count, variable_type) == Ok::<RequestItem, ()>(item),
                Err(e) => item_from_address(address@, count, variable_type) is Err && (e matches S7Error::Error(m) && m@
                    == address_error_text(address@, count, variable_type)),
            },
    {
        if address.is_empty() {
            return Err(error_msg("address is null or empty"));
        }
        if count == 0 {
            return Err(error_msg("count must be positive"));
        }
        let upper = uppercase_chars(address);
        Self::parse_uppercase(&upper, count, variable_type)
    }

    /// The item named by an address that is already in upper case.
    pub fn parse_uppercase(upper: &Vec<char>, count: u16, variable_type: S7ParamVariableType) -> (r: Result<RequestItem, S7Error>)
        ensures
            match r {
                Ok(item) => item_from_parts(split_dots(upper@), count, variable_type) == Ok::<RequestItem, ()>(item),
                Err(e) => item_from_parts(split_dots(upper@), count, variable_type) is Err && (e matches S7Error::Error(m)
                    && m@ == parts_error_text(split_dots(upper@), variable_type)),
            },
    {
        let parts = split_at_dots(upper);
        proof {
            lemma_split_dots_nonempty(upper@);
        }
        let area = Self::parse_area(&parts)?;
        let db_number = Self::parse_db_number(&parts)?;
        let byte_address = Self::parse_byte_address(&parts)?;
        let bit_address = Self::parse_bit_address(&parts, variable_type)?;
        if bit_address > 7 {
            return Err(error_msg("bit index must be in range 0-7"));
        }
        Ok(RequestItem::new(variable_type, count, area, db_number, byte_address, bit_address))
    }

    fn parse_area(parts: &Vec<Vec<char>>) -> (r: Result<S7Area, S7Error>)
        requires
            parts@.len() >= 1,
        ensures
            match r {
                Ok(a) => parts@[0]@.len() > 0 && S7Area::spec_from_first_char(parts@[0]@[0]) == Some(a),
                Err(e) => (parts@[0]@.len() == 0 || S7Area::spec_from_first_char(parts@[0]@[0]) is None) && (
                e matches S7Error::Error(m) && m@ == if parts@[0]@.len() == 0 {
                    "empty first part"@
                } else {
                    "unknown area prefix: '"@ + seq![parts@[0]@[0]] + seq!['\'']
                }),
            },
    {
        let first = &parts[0];
        if first.len() == 0 {
            return Err(error_msg("empty first part"));
        }
        let c = first[0];
        match S7Area::from_first_char(c) {
            Some(a) => Ok(a),
            None => {
                let mut m = String::from_str("unknown area prefix: '");
                string_push(&mut m, c);
                string_push(&mut m, '\'');
                Err(S7Error::Error(m))
            },
        }
    }

    fn parse_db_number(parts: &Vec<Vec<char>>) -> (r: Result<u16, S7Error>)
        requires
            parts@.len() >= 1,
            parts@[0]@.len() >= 1,
        ensures
            ({
                let first = parts@[0]@;
                let c = first[0];
                let want = if c == 'D' {
                    match number_in(first) {
                        Some(n) => if n <= u16::MAX { Some(n as u16) } else { None },
                        None => None,
                    }
                } else if c == 'V' {
                    Some(1u16)
                } else {
                    Some(0u16)
                };
                match r {
                    Ok(n) => want == Some(n),
                    Err(e) => want is None && (e matches S7Error::Error(m) && m@ == if number_in(first) is None {
                        number_error_text(first)
                    } else {
                        "number "@ + dec_digits(number_in(first)->0 as nat) + " out of range"@
                    }),
                }
            }),
    {
        let first = &parts[0];
        let c = first[0];
        if c == 'D' {
            let n = Self::extract_number(first)?;
            if n > 0xFFFF {
                let mut m = String::from_str("number ");
                push_decimal(&mut m, n as u64);
                m.append(" out of range");
                return Err(S7Error::Error(m));
            }
            Ok(n as u16)
        } else if c == 'V' {
            Ok(1)
        } else {
            Ok(0)
        }
    }

    fn parse_byte_address(parts: &Vec<Vec<char>>) -> (r: Result<u32, S7Error>)
        requires
            parts@.len() >= 1,
            parts@[0]@.len() >= 1,
        ensures
            ({
                let first = parts@[0]@;
                let want = if first[0] == 'D' {
                    if parts@.len() >= 2 { number_in(parts@[1]@) } else { Some(0u32) }
                } else {
                    number_in(first)
                };
                match r {
                    Ok(n) => want == Some(n),
                    Err(e) => want is None && (e matches S7Error::Error(m) && m@ == number_error_text(
                        if first[0] == 'D' { parts@[1]@ } else { first },
                    )),
                }
            }),
    {
        let first = &parts[0];
        let c = first[0];
        if c == 'D' {
            if parts.len() >= 2 {
                Self::extract_number(&parts[1])
            } else {
                Ok(0)
            }
        } else {
            Self::extract_number(first)
        }
    }

    fn parse_bit_address(parts: &Vec<Vec<char>>, variable_type: S7ParamVariableType) -> (r: Result<u32, S7Error>)
        requires
            parts@.len() >= 1,
            parts@[0]@.len() >= 1,
        ensures
            ({
                let first = parts@[0]@;
                let want = if variable_type != S7ParamVariableType::Bit {
                    Some(0u32)
                } else if first[0] == 'D' {
                    if parts@.len() >= 3 { number_in(parts@[2]@) } else { Some(0u32) }
                } else {
                    if parts@.len() >= 2 { number_in(parts@[1]@) } else { Some(0u32) }
                };
                match r {
                    Ok(n) => want == Some(n),
                    Err(e) => want is None && (e matches S7Error::Error(m) && m@ == number_error_text(
                        if first[0] == 'D' { parts@[2]@ } else { parts@[1]@ },
                    )),
                }
            }),
    {
        if variable_type != S7ParamVariableType::Bit {
            return Ok(0);
        }
        let first = &parts[0];
        let c = first[0];
        if c == 'D' {
            if parts.len() >= 3 {
                Self::extract_number(&parts[2])
            } else {
                Ok(0)
            }
        } else {
            if parts.len() >= 2 {
                Self::extract_number(&parts[1])
            } else {
                Ok(0)
            }
        }
    }

    fn extract_number(s: &Vec<char>) -> (r: Result<u32, S7Error>)
        ensures
            match r {
                Ok(n) => number_in(s@) == Some(n),
                Err(e) => number_in(s@) is None && (e matches S7Error::Error(m) && m@ == number_error_text(s@)),
            },
    {
        extract_number(s)
    }

    /// Whether the byte and bit address can be written in the 24-bit address
    /// without overflowing 32 bits on the way.
    pub open spec fn address_computable(self) -> bool {
        is_timer_or_counter(self.area) || (self.byte_address << 3) as int + self.bit_address as int <= u32::MAX
    }

    /// The 12 bytes of this item on the wire.
    pub open spec fn encoded(self) -> Seq<u8> {
        let a = address_bits(self);
        seq![self.specification_type, self.length_of_following, self.syntax_id.code(), self.variable_type.code()]
            + be16(self.count) + be16(self.db_number) + seq![
            self.area.code(),
            ((a >> 16) & 0xFF) as u8,
            ((a >> 8) & 0xFF) as u8,
            (a & 0xFF) as u8,
        ]
    }

    pub fn to_be_bytes(&self) -> (r: Vec<u8>)
        requires
            self.address_computable(),
        ensures
            r@ == self.encoded(),
    {
        let mut bytes: BytesMut = buf_with_capacity(Self::BYTE_LENGTH);
        put_u8(&mut bytes, self.specification_type);
        put_u8(&mut bytes, self.length_of_following);
        put_u8(&mut bytes, self.syntax_id.code());
        put_u8(&mut bytes, self.variable_type.code());
        put_u16(&mut bytes, self.count);
        put_u16(&mut bytes, self.db_number);
        put_u8(&mut bytes, self.area.code());
        let address_bits: u32 = if self.area == S7Area::S7Timers || self.area == S7Area::S7Counters {
            self.byte_address << 2
        } else {
            (self.byte_address << 3) + self.bit_address
        };
        put_u8(&mut bytes, ((address_bits >> 16) & 0xFF) as u8);
        put_u8(&mut bytes, ((address_bits >> 8) & 0xFF) as u8);
        put_u8(&mut bytes, (address_bits & 0xFF) as u8);
        let r = buf_to_vec(&bytes);
        assert(r@ =~= self.encoded());
        r
    }

    /// The 24-bit address in bytes 9 to 11 of an item.
    pub open spec fn raw_address(d: Seq<u8>) -> u32 {
        (((d[9] as u32) & 0xFF) << 16) | (((d[10] as u32) & 0xFF) << 8) | ((d[11] as u32) & 0xFF)
    }

    /// The item at the start of `d`, if it has 12 bytes and known codes.
    pub open spec fn from_wire(d: Seq<u8>) -> Result<RequestItem, ()> {
        if d.len() < 12 {
            Err(())
        } else {
            let raw = RequestItem::raw_address(d);
            let tc = d[8] == S7Area::S7Timers.code() || d[8] == S7Area::S7Counters.code();
            let byte_address = if tc { raw >> 2 } else { raw >> 3 };
            let bit_address = if tc { 0u32 } else { raw & 0x07 };
            match (SyntaxID::decode(d[2]), S7ParamVariableType::decode(d[3]), S7Area::decode(d[8])) {
                (Some(syntax_id), Some(variable_type), Some(area)) => Ok(RequestItem {
                    specification_type: d[0],
                    length_of_following: d[1],
                    syntax_id,
                    variable_type,
                    count: from_be16(d[4], d[5]),
                    db_number: from_be16(d[6], d[7]),
                    area,
                    byte_address,
                    bit_address,
                }),
                _ => Err(()),
            }
        }
    }

    /// The message that refuses the item at the start of `d`: too short, or an
    /// unknown syntax, variable type or area, checked in that order.
    pub open spec fn wire_error(d: Seq<u8>) -> Seq<char> {
        if d.len() < 12 {
            "data too short for RequestItem"@
        } else if SyntaxID::decode(d[2]) is None {
            hex_text("Unknown SyntaxID: "@, d[2])
        } else if S7ParamVariableType::decode(d[3]) is None {
            hex_text("Unknown S7ParamVariableType: "@, d[3])
        } else {
            hex_text("Unknown S7Area: "@, d[8])
        }
    }

    pub fn from_be_bytes(bytes: &[u8]) -> (r: Result<Self, S7Error>)
        ensures
            match r {
                Ok(item) => RequestItem::from_wire(bytes@) == Ok::<RequestItem, ()>(item),
                Err(e) => RequestItem::from_wire(bytes@) is Err && is_error_text(e, RequestItem::wire_error(bytes@)),
            },
    {
        let r = Self::from_be_bytes_offset(bytes, 0);
        assert(bytes@.subrange(0, bytes@.len() as int) =~= bytes@);
        r
    }

    /// The item that starts `offset` bytes into `bytes`.
    pub fn from_be_bytes_offset(bytes: &[u8], offset: usize) -> (r: Result<Self, S7Error>)
        requires
            offset + 12 <= usize::MAX,
        ensures
            match r {
                Ok(item) => bytes@.len() >= offset + 12 && RequestItem::from_wire(
                    bytes@.subrange(offset as int, bytes@.len() as int),
                ) == Ok::<RequestItem, ()>(item),
                Err(e) => (bytes@.len() < offset + 12 || RequestItem::from_wire(
                    bytes@.subrange(offset as int, bytes@.len() as int),
                ) is Err) && is_error_text(
                    e,
                    if bytes@.len() < offset + 12 {
                        "data too short for RequestItem"@
                    } else {
                        RequestItem::wire_error(bytes@.subrange(offset as int, bytes@.len() as int))
                    },
                ),
            },
    {
        if bytes.len() < offset + 12 {
            return Err(error_msg("data too short for RequestItem"));
        }
        let ghost d = bytes@.subrange(offset as int, bytes@.len() as int);
        let mut buf = buf_from(&bytes[offset..bytes.len()]);
        let specification_type = get_u8(&mut buf);
        let length_of_following = get_u8(&mut buf);
        let syntax_id = get_u8(&mut buf);
        let variable_type = get_u8(&mut buf);
        let count = get_u16(&mut buf);
        let db_number = get_u16(&mut buf);
        let area = get_u8(&mut buf);
        let addr_high = ((get_u8(&mut buf) as u32) & 0xFFu32) << 16;
        let addr_mid = ((get_u8(&mut buf) as u32) & 0xFFu32) << 8;
        let addr_low = (get_u8(&mut buf) as u32) & 0xFFu32;
        let raw_addr = addr_high | addr_mid | addr_low;
        assert(raw_addr == RequestItem::raw_address(d));
        let (byte_address, bit_address) = if area == S7Area::S7Timers.code() || area
            == S7Area::S7Counters.code() {
            (raw_addr >> 2, 0u32)
        } else {
            (raw_addr >> 3, (raw_addr & 0x07))
        };
        let syntax_id = match SyntaxID::from(syntax_id) {
            Some(s) => s,
            None => {
                return Err(error_hex("Unknown SyntaxID: ", syntax_id));
            },
        };
        let variable_type = match S7ParamVariableType::from(variable_type) {
            Some(v) => v,
            None => {
                return Err(error_hex("Unknown S7ParamVariableType: ", variable_type));
            },
        };
        let area = match S7Area::from(area) {
            Some(a) => a,
            None => {
                return Err(error_hex("Unknown S7Area: ", area));
            },
        };
        Ok(
            RequestItem {
                specification_type,
                length_of_following,
                syntax_id,
                variable_type,
                count,
                db_number,
                area,
                byte_address,
                bit_address,
            },
        )
    }
}

/// Outcome of one write, a single byte on the wire.
#[derive(Debug, Eq, PartialEq, Clone, Copy, Structural)]
pub struct ReturnItem {
    /// Return code (byte 0).
    pub return_code: S7ReturnCode,
}

impl ReturnItem {
    pub open spec fn encoded(self) -> Seq<u8> {
        seq![self.return_code.code()]
    }

    pub open spec fn from_wire(d: Seq<u8>) -> Result<ReturnItem, ()> {
        match S7ReturnCode::decode(d[0]) {
            Some(rc) => Ok(ReturnItem { return_code: rc }),
            None => Err(()),
        }
    }

    pub fn byte_len(&self) -> (r: usize)
        ensures
            r == 1,
            r == self.encoded().len(),
    {
        1
    }

    pub fn new(return_code: S7ReturnCode) -> (r: Self)
        ensures
            r.return_code == return_code,
    {
        ReturnItem { return_code }
    }

    pub fn to_be_bytes(&self) -> (r: Vec<u8>)
        ensures
            r@ == self.encoded(),
    {
        let mut bytes: BytesMut = buf_new();
        put_u8(&mut bytes, self.return_code.code());
        let r = buf_to_vec(&bytes);
        assert(r@ =~= self.encoded());
        r
    }

    pub fn from_be_bytes(bytes: &[u8]) -> (r: Result<Self, S7Error>)
        requires
            bytes@.len() >= 1,
        ensures
            match r {
                Ok(item) => ReturnItem::from_wire(bytes@) == Ok::<ReturnItem, ()>(item),
                Err(e) => ReturnItem::from_wire(bytes@) is Err && is_error_text(
                    e,
                    hex_text("Unknown S7ReturnCode: "@, bytes@[0]),
                ),
            },
    {
        match S7ReturnCode::from(bytes[0]) {
            Some(return_code) => Ok(Self { return_code }),
            None => Err(error_hex("Unknown S7ReturnCode: ", bytes[0])),
        }
    }
}

/// Payload of a read response or a write request.
#[derive(Debug, Eq, PartialEq, Clone)]
pub struct DataItem {
    /// Return code (byte 0).
    pub return_code: S7ReturnCode,
    /// Variable type (byte 1).
    pub data_variable_type: S7DataVariableType,
    /// Number of data bytes; on the wire (bytes 2-3) it is counted in bits for
    /// the byte, word and integer types.
    pub count: u16,
    /// Data (from byte 4).
    pub data: Vec<u8>,
}

/// A data item as values: its fields, the data as a sequence.
pub struct DataItemView {
    pub return_code: S7ReturnCode,
    pub data_variable_type: S7DataVariableType,
    pub count: u16,
    pub data: Seq<u8>,
}

impl View for DataItem {
    type V = DataItemView;

    open spec fn view(&self) -> DataItemView {
        DataItemView {
            return_code: self.return_code,
            data_variable_type: self.data_variable_type,
            count: self.count,
            data: self.data@,
        }
    }
}

/// Whether the length of a data item of this type is counted in bits on the wire.
pub open spec fn length_in_bits(t: S7DataVariableType) -> bool {
    t == S7DataVariableType::Null || t == S7DataVariableType::ByteWordDword || t
        == S7DataVariableType::Integer
}

impl DataItemView {
    /// The length field on the wire.
    pub open spec fn wire_count(self) -> u16 {
        if length_in_bits(self.data_variable_type) {
            (self.count * 8) as u16
        } else {
            self.count
        }
    }

    /// Whether the length field can be written without overflowing 16 bits.
    pub open spec fn count_encodable(self) -> bool {
        length_in_bits(self.data_variable_type) ==> self.count * 8 <= u16::MAX
    }

    /// The bytes of this item on the wire.
    pub open spec fn encoded(self) -> Seq<u8> {
        seq![self.return_code.code(), self.data_variable_type.code()] + be16(self.wire_count())
            + self.data
    }
}

impl DataItem {
    /// A copy of this item.
    pub fn clone_item(&self) -> (r: Self)
        ensures
            r@ == self@,
    {
        DataItem {
            return_code: self.return_code,
            data_variable_type: self.data_variable_type,
            count: self.count,
            data: self.data.clone(),
        }
    }

    /// A write payload of bytes; refused when empty.
    pub fn create_req_bytes(data: Vec<u8>) -> (r: Result<Self, S7Error>)
        ensures
            match r {
                Ok(item) => data@.len() > 0 && item@ == (DataItemView {
                    return_code: S7ReturnCode::Reserved,
                    data_variable_type: S7DataVariableType::ByteWordDword,
                    count: data@.len() as u16,
                    data: data@,
                }),
                Err(e) => data@.len() == 0 && (e matches S7Error::Error(m) && m@ == "Empty data"@),
            },
    {
        if data.len() == 0 {
            return Err(error_msg("Empty data"));
        }
        Ok(
            DataItem {
                return_code: S7ReturnCode::Reserved,
                data_variable_type: S7DataVariableType::ByteWordDword,
                count: data.len() as u16,
                data,
            },
        )
    }

    /// A write payload of one bit.
    pub fn create_req_bool(data: bool) -> (r: Result<Self, S7Error>)
        ensures
            r matches Ok(item) && item@ == (DataItemView {
                return_code: S7ReturnCode::Reserved,
                data_variable_type: S7DataVariableType::Bit,
                count: 1,
                data: seq![if data { 1u8 } else { 0u8 }],
            }),
    {
        let byte_value: u8 = if data { 0x01 } else { 0x00 };
        let v = vec![byte_value];
        assert(v@ =~= seq![byte_value]);
        Ok(
            DataItem {
                return_code: S7ReturnCode::Reserved,
                data_variable_type: S7DataVariableType::Bit,
                count: 1,
                data: v,
            },
        )
    }

    pub fn byte_len(&self) -> (r: usize)
        requires
            self.data@.len() + 4 <= usize::MAX,
        ensures
            r == 4 + self.data@.len(),
            r == self@.encoded().len(),
    {
        4 + self.data.len()
    }

    pub fn to_be_bytes(&self) -> (r: Vec<u8>)
        requires
            self@.count_encodable(),
            self.data@.len() + 4 <= isize::MAX,
        ensures
            r@ == self@.encoded(),
    {
        let mut bytes: BytesMut = buf_new();
        put_u8(&mut bytes, self.return_code.code());
        put_u8(&mut bytes, self.data_variable_type.code());
        match self.data_variable_type {
            S7DataVariableType::Null | S7DataVariableType::ByteWordDword | S7DataVariableType::Integer => {
                put_u16(&mut bytes, self.count * 8);
            },
            _ => {
                put_u16(&mut bytes, self.count);
            },
        }
        extend_from_slice(&mut bytes, self.data.as_slice());
        let r = buf_to_vec(&bytes);
        assert(r@ =~= self@.encoded());
        r
    }

    /// Whether `d` is long enough for the decoder: the type byte must be there,
    /// and a known type needs the four header bytes.
    pub open spec fn readable(d: Seq<u8>) -> bool {
        d.len() >= 2 && (S7DataVariableType::decode(d[1]) is Some ==> d.len() >= 4)
    }

    /// The item at the start of `d`: a null item carries no data, others carry
    /// as many bytes as their count, which must be present.
    pub open spec fn from_wire(d: Seq<u8>) -> Result<DataItemView, ()> {
        match S7DataVariableType::decode(d[1]) {
            None => Err(()),
            Some(dv) => {
                let wire = from_be16(d[2], d[3]);
                let count: u16 = if length_in_bits(dv) { wire / 8 } else { wire };
                if dv != S7DataVariableType::Null && d.len() - 4 < count {
                    Err(())
                } else {
                    let data = if dv != S7DataVariableType::Null {
                        d.subrange(4, 4 + count)
                    } else {
                        Seq::<u8>::empty()
                    };
                    match S7ReturnCode::decode(d[0]) {
                        None => Err(()),
                        Some(rc) => Ok(DataItemView { return_code: rc, data_variable_type: dv, count, data }),
                    }
                }
            },
        }
    }

    /// The message that refuses the item at the start of `d`: an unknown
    /// variable type, data shorter than its count, or an unknown return code,
    /// checked in that order.
    pub open spec fn wire_error(d: Seq<u8>) -> Seq<char> {
        if S7DataVariableType::decode(d[1]) is None {
            hex_text("Unknown S7DataVariableType: "@, d[1])
        } else {
            let dv = S7DataVariableType::decode(d[1])->0;
            let wire = from_be16(d[2], d[3]);
            let count: u16 = if length_in_bits(dv) { wire / 8 } else { wire };
            if dv != S7DataVariableType::Null && d.len() - 4 < count {
                "DataItem: insufficient data body"@
            } else {
                hex_text("Unknown S7ReturnCode: "@, d[0])
            }
        }
    }

    pub fn from_be_bytes(bytes: &[u8]) -> (r: Result<Self, S7Error>)
        requires
            DataItem::readable(bytes@),
        ensures
            match r {
                Ok(item) => DataItem::from_wire(bytes@) == Ok::<DataItemView, ()>(item@),
                Err(e) => DataItem::from_wire(bytes@) is Err && is_error_text(e, DataItem::wire_error(bytes@)),
            },
    {
        let mut buf = buf_from(bytes);
        let return_code = get_u8(&mut buf);
        let data_variable_type = get_u8(&mut buf);
        let dv = match S7DataVariableType::from(data_variable_type) {
            Some(t) => t,
            None => {
                return Err(error_hex("Unknown S7DataVariableType: ", data_variable_type));
            },
        };
        let item_count: u16 = match dv {
            S7DataVariableType::Null | S7DataVariableType::ByteWordDword | S7DataVariableType::Integer => get_u16(&mut buf) / 8,
            _ => get_u16(&mut buf),
        };
        let data = if dv != S7DataVariableType::Null {
            if remaining(&buf) < item_count as usize {
                return Err(error_msg("DataItem: insufficient data body"));
            }
            copy_to_vec(&mut buf, item_count as usize)
        } else {
            Vec::new()
        };
        let rc = match S7ReturnCode::from(return_code) {
            Some(rc) => rc,
            None => {
                return Err(error_hex("Unknown S7ReturnCode: ", return_code));
            },
        };
        let item = DataItem { return_code: rc, data_variable_type: dv, count: item_count, data };
        assert(item@.data =~= DataItem::from_wire(bytes@).unwrap().data);
        Ok(item)
    }
}

/// An item of a response's data part: a write result or a data item.
#[derive(Debug, Clone, Eq, PartialEq)]
pub enum S7ReturnItem {
    Return(ReturnItem),
    Data(DataItem),
}

/// A response item as values.
pub enum S7ReturnItemView {
    Return(ReturnItem),
    Data(DataItemView),
}

impl View for S7ReturnItem {
    type V = S7ReturnItemView;

    open spec fn view(&self) -> S7ReturnItemView {
        match self {
            S7ReturnItem::Return(r) => S7ReturnItemView::Return(*r),
            S7ReturnItem::Data(d) => S7ReturnItemView::Data(d@),
        }
    }
}

impl S7ReturnItemView {
    pub open spec fn encoded(self) -> Seq<u8> {
        match self {
            S7ReturnItemView::Return(r) => r.encoded(),
            S7ReturnItemView::Data(d) => d.encoded(),
        }
    }

    /// Whether the item can be written out.
    pub open spec fn encodable(self) -> bool {
        match self {
            S7ReturnItemView::Return(_) => true,
            S7ReturnItemView::Data(d) => d.count_encodable() && d.data.len() + 4 <= isize::MAX,
        }
    }
}

impl S7ReturnItem {
    pub fn byte_len(&self) -> (r: usize)
        requires
            self is Data ==> self->Data_0.data@.len() + 4 <= usize::MAX,
        ensures
            r == self@.encoded().len(),
    {
        match self {
            S7ReturnItem::Return(r) => r.byte_len(),
            S7ReturnItem::Data(d) => d.byte_len(),
        }
    }

    pub fn to_be_bytes(&self) -> (r: Vec<u8>)
        requires
            self@.encodable(),
        ensures
            r@ == self@.encoded(),
    {
        match self {
            S7ReturnItem::Return(r) => r.to_be_bytes(),
            S7ReturnItem::Data(d) => d.to_be_bytes(),
        }
    }

    /// A single byte is a write result; anything longer is a data item.
    pub open spec fn from_wire(d: Seq<u8>) -> Result<S7ReturnItemView, ()> {
        if d.len() == 1 {
            match ReturnItem::from_wire(d) {
                Ok(r) => Ok(S7ReturnItemView::Return(r)),
                Err(()) => Err(()),
            }
        } else {
            match DataItem::from_wire(d) {
                Ok(v) => Ok(S7ReturnItemView::Data(v)),
                Err(()) => Err(()),
            }
        }
    }

    pub fn from_be_bytes(bytes: &[u8]) -> (r: Result<Self, S7Error>)
        requires
            bytes@.len() == 1 || DataItem::readable(bytes@),
        ensures
            match r {
                Ok(item) => S7ReturnItem::from_wire(bytes@) == Ok::<S7ReturnItemView, ()>(item@),
                Err(e) => S7ReturnItem::from_wire(bytes@) is Err && is_error_text(
                    e,
                    if bytes@.len() == 1 {
                        hex_text("Unknown S7ReturnCode: "@, bytes@[0])
                    } else {
                        DataItem::wire_error(bytes@)
                    },
                ),
            },
    {
        if bytes.len() == 1 {
            Ok(S7ReturnItem::Return(ReturnItem::from_be_bytes(bytes)?))
        } else {
            Ok(S7ReturnItem::Data(DataItem::from_be_bytes(bytes)?))
        }
    }
}

/// A request item whose address fits the 24 bits of the wire: a word number
/// below 2^22 for timers and counters (no bit), a byte address below 2^21 and a
/// bit below 8 elsewhere.
pub open spec fn request_item_wf(i: RequestItem) -> bool {
    if is_timer_or_counter(i.area) {
        i.byte_address < 0x400000 && i.bit_address == 0
    } else {
        i.byte_address < 0x200000 && i.bit_address < 8
    }
}

proof fn lemma_address_bytes(a: u32)
    requires
        a < 0x1000000,
    ensures
        ((((((a >> 16) & 0xFF) as u8) as u32) & 0xFF) << 16) | ((((((a >> 8) & 0xFF) as u8) as u32)
            & 0xFF) << 8) | (((((a & 0xFF) as u8) as u32)) & 0xFF) == a,
{
    assert(((((((a >> 16) & 0xFF) as u8) as u32) & 0xFF) << 16) | ((((((a >> 8) & 0xFF) as u8)
        as u32) & 0xFF) << 8) | (((((a & 0xFF) as u8) as u32)) & 0xFF) == a) by (bit_vector)
        requires
            a < 0x1000000,
    ;
}

/// Decoding the bytes of a well-formed request item, whatever follows them,
/// gives the item back.
pub proof fn lemma_request_item_roundtrip(i: RequestItem, rest: Seq<u8>)
    requires
        request_item_wf(i),
    ensures
        i.address_computable(),
        i.encoded().len() == 12,
        RequestItem::from_wire(i.encoded() + rest) == Ok::<RequestItem, ()>(i),
{
    let d = i.encoded() + rest;
    assert(d.subrange(0, 12) =~= i.encoded());
    SyntaxID::lemma_decode_code(i.syntax_id);
    S7ParamVariableType::lemma_decode_code(i.variable_type);
    S7Area::lemma_decode_code(i.area);
    let b = i.byte_address;
    let t = i.bit_address;
    if is_timer_or_counter(i.area) {
        assert((b << 2) < 0x1000000 && (b << 2) >> 2 == b) by (bit_vector)
            requires
                b < 0x400000,
        ;
        lemma_address_bytes(b << 2);
    } else {
        assert((b << 3) as int + t as int <= u32::MAX) by (bit_vector)
            requires
                b < 0x200000,
                t < 8,
        ;
        assert((((b << 3) + t) as u32) < 0x1000000 && (((b << 3) + t) as u32) >> 3 == b && (((b
            << 3) + t) as u32) & 0x07 == t) by (bit_vector)
            requires
                b < 0x200000,
                t < 8,
        ;
        lemma_address_bytes(((b << 3) + t) as u32);
    }
    assert(d[9] == i.encoded()[9] && d[10] == i.encoded()[10] && d[11] == i.encoded()[11]);
    assert(RequestItem::raw_address(d) == address_bits(i));
}

/// A decoded request item is well formed, and it encodes to the 12 bytes it
/// was read from unless it is a timer or counter whose address had either of
/// its two low bits set.
pub proof fn lemma_request_item_reencode(d: Seq<u8>)
    ensures
        RequestItem::from_wire(d) matches Ok(i) ==> request_item_wf(i) && (!is_timer_or_counter(
            i.area,
        ) || RequestItem::raw_address(d) & 3 == 0 ==> i.encoded() == d.subrange(0, 12)),
{
    if let Ok(i) = RequestItem::from_wire(d) {
        let raw = RequestItem::raw_address(d);
        let (b9, b10, b11) = (d[9], d[10], d[11]);
        assert(raw < 0x1000000) by (bit_vector)
            requires
                raw == (((b9 as u32) & 0xFF) << 16) | (((b10 as u32) & 0xFF) << 8) | ((b11 as u32)
                    & 0xFF),
        ;
        assert(i.syntax_id.code() == d[2]);
        assert(i.variable_type.code() == d[3]);
        assert(i.area.code() == d[8]);
        if is_timer_or_counter(i.area) {
            assert((raw >> 2) < 0x400000) by (bit_vector)
                requires
                    raw < 0x1000000,
            ;
            if raw & 3 == 0 {
                assert((raw >> 2) << 2 == raw) by (bit_vector)
                    requires
                        raw & 3 == 0,
                ;
                lemma_address_bytes(raw);
                assert(((raw & 0xFF) as u8) == b11 && (((raw >> 8) & 0xFF) as u8) == b10 && (((raw
                    >> 16) & 0xFF) as u8) == b9) by (bit_vector)
                    requires
                        raw == (((b9 as u32) & 0xFF) << 16) | (((b10 as u32) & 0xFF) << 8) | ((b11
                            as u32) & 0xFF),
                ;
                assert(i.encoded() =~= d.subrange(0, 12));
            }
        } else {
            assert((raw >> 3) < 0x200000 && (raw & 0x07) < 8 && (((raw >> 3) << 3) + (raw & 0x07))
                as u32 == raw && ((raw >> 3) << 3) as int + (raw & 0x07) as int <= u32::MAX)
                by (bit_vector)
                requires
                    raw < 0x1000000,
            ;
            assert(((raw & 0xFF) as u8) == b11 && (((raw >> 8) & 0xFF) as u8) == b10 && (((raw
                >> 16) & 0xFF) as u8) == b9) by (bit_vector)
                requires
                    raw == (((b9 as u32) & 0xFF) << 16) | (((b10 as u32) & 0xFF) << 8) | ((b11 as u32)
                        & 0xFF),
            ;
            assert(i.encoded() =~= d.subrange(0, 12));
        }
    }
}

/// A data item that the decoder gives back unchanged: its length field fits,
/// a null item has no data, and any other has exactly `count` bytes.
pub open spec fn data_item_wf(v: DataItemView) -> bool {
    &&& v.count_encodable()
    &&& v.data_variable_type == S7DataVariableType::Null ==> v.data.len() == 0
    &&& v.data_variable_type != S7DataVariableType::Null ==> v.data.len() == v.count
}

/// Decoding the bytes of a well-formed data item, whatever follows them, gives
/// the item back.
pub proof fn lemma_data_item_roundtrip(v: DataItemView, rest: Seq<u8>)
    requires
        data_item_wf(v),
    ensures
        DataItem::readable(v.encoded() + rest),
        DataItem::from_wire(v.encoded() + rest) == Ok::<DataItemView, ()>(v),
{
    let d = v.encoded() + rest;
    S7DataVariableType::lemma_decode_code(v.data_variable_type);
    S7ReturnCode::lemma_decode_code(v.return_code);
    assert(d[1] == v.data_variable_type.code());
    assert(d[0] == v.return_code.code());
    assert(from_be16(d[2], d[3]) == v.wire_count());
    if v.data_variable_type != S7DataVariableType::Null {
        assert(d.subrange(4, 4 + v.count) =~= v.data);
    }
    assert(DataItem::from_wire(d).unwrap().data =~= v.data);
}

/// A decoded data item is well formed and encodes to the bytes it was read
/// from, unless its length was counted in bits and was not a multiple of eight.
pub proof fn lemma_data_item_reencode(d: Seq<u8>)
    requires
        DataItem::readable(d),
    ensures
        DataItem::from_wire(d) matches Ok(v) ==> (!length_in_bits(v.data_variable_type) || from_be16(
            d[2],
            d[3],
        ) % 8 == 0 ==> v.encoded() == d.subrange(0, 4 + v.data.len() as int)),
{
    if let Ok(v) = DataItem::from_wire(d) {
        assert(v.data_variable_type.code() == d[1]);
        assert(v.return_code.code() == d[0]);
        if !length_in_bits(v.data_variable_type) || from_be16(d[2], d[3]) % 8 == 0 {
            assert(v.wire_count() == from_be16(d[2], d[3]));
            assert(v.encoded() =~= d.subrange(0, 4 + v.data.len() as int));
        }
    }
}

/// Decoding the byte of a write result gives it back.
pub proof fn lemma_return_item_roundtrip(r: ReturnItem)
    ensures
        ReturnItem::from_wire(r.encoded()) == Ok::<ReturnItem, ()>(r),
{
    S7ReturnCode::lemma_decode_code(r.return_code);
}

} // verus!
