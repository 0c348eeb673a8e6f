//! Byte layouts of the two schemas kept in an account.

use vstd::prelude::*;

verus! {

/// The largest counter value; the next update after it wraps to zero.
pub const COUNTER_MAX: u32 = 0xffff_ffff;

/// The number of bytes the counter occupies at the start of an account.
pub const COUNTER_LEN: usize = 4;

/// The four bytes of a counter value, most significant first.
pub open spec fn counter_bytes(n: u32) -> Seq<u8> {
    seq![(n >> 24u32) as u8, (n >> 16u32) as u8, (n >> 8u32) as u8, n as u8]
}

/// The counter value held by four bytes, most significant first.
pub open spec fn counter_value(b0: u8, b1: u8, b2: u8, b3: u8) -> u32 {
    ((b0 as u32) << 24u32) | ((b1 as u32) << 16u32) | ((b2 as u32) << 8u32) | (b3 as u32)
}

/// The counter value stored at the start of `s`, which holds at least four bytes.
pub open spec fn stored_counter(s: Seq<u8>) -> u32
    recommends
        s.len() >= 4,
{
    counter_value(s[0], s[1], s[2], s[3])
}

/// The value a counter takes after one update: one more, and zero after the largest.
pub open spec fn next_counter(n: u32) -> u32 {
    if n == COUNTER_MAX {
        0
    } else {
        (n + 1) as u32
    }
}

/// Reading back the bytes of a counter gives the counter.
pub proof fn lemma_counter_value_of_bytes(n: u32)
    ensures
        stored_counter(counter_bytes(n)) == n,
{
    assert(counter_value((n >> 24u32) as u8, (n >> 16u32) as u8, (n >> 8u32) as u8, n as u8) == n)
        by (bit_vector);
}

/// Reads the counter from the first four bytes of `data`.
pub fn read_counter(data: &[u8]) -> (r: u32)
    requires
        data@.len() >= COUNTER_LEN,
    ensures
        r == stored_counter(data@),
{
    ((data[0] as u32) << 24u32) | ((data[1] as u32) << 16u32) | ((data[2] as u32) << 8u32) | (
    data[3] as u32)
}

/// The four bytes of `n`, most significant first.
pub fn write_counter(n: u32) -> (r: [u8; 4])
    ensures
        r@ == counter_bytes(n),
{
    let r = [(n >> 24u32) as u8, (n >> 16u32) as u8, (n >> 8u32) as u8, n as u8];
    assert(r@ =~= counter_bytes(n));
    r
}

} // verus!
