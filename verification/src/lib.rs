//! Siemens S7 (ISO-on-TCP) protocol data units: wire types, their byte
//! encodings and decodings, address parsing and the decisions of the client.
pub mod batch;
pub mod buffer;
pub mod client;
pub mod cotp;
pub mod datum;
pub mod error;
pub mod header;
pub mod item;
pub mod packet;
pub mod session;
pub mod paramter;
pub mod szl;
pub mod text;
pub mod tpkt;
pub mod types;

use vstd::prelude::*;
use crate::text::{hex_dump, push_hex_byte, string_push};

verus! {

/// Renders bytes as upper-case hexadecimal pairs separated by spaces.
pub fn bytes_to_hex(bytes: &[u8]) -> (r: String)
    ensures
        r@ == hex_dump(bytes@),
{
    let mut s = String::new();
    let n = bytes.len();
    for i in 0..n
        invariant
            n == bytes@.len(),
            s@ == hex_dump(bytes@.take(i as int)),
    {
        if i > 0 {
            string_push(&mut s, ' ');
        }
        push_hex_byte(&mut s, bytes[i]);
        assert(bytes@.take(i + 1).drop_last() =~= bytes@.take(i as int));
    }
    assert(bytes@.take(n as int) =~= bytes@);
    s
}

} // verus!
