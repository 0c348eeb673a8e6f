//! Records of three byte fields, and their length-prefixed layout.

use borsh::BorshDeserialize;
use vstd::prelude::*;

verus! {

/// A stored proof result: proof material, verification key material and
/// witness material, each opaque bytes.
#[derive(Debug, Clone)]
pub struct ZkpResult {
    pub proof: Vec<u8>,
    pub verifying_key: Vec<u8>,
    pub public_witness: Vec<u8>,
}

impl View for ZkpResult {
    type V = (Seq<u8>, Seq<u8>, Seq<u8>);

    open spec fn view(&self) -> (Seq<u8>, Seq<u8>, Seq<u8>) {
        (self.proof@, self.verifying_key@, self.public_witness@)
    }
}

/// The four bytes of a length prefix, least significant first.
pub open spec fn prefix_bytes(n: u32) -> Seq<u8> {
    seq![n as u8, (n >> 8u32) as u8, (n >> 16u32) as u8, (n >> 24u32) as u8]
}

/// The length held by the first four bytes of `s`, least significant first.
pub open spec fn prefix_value(s: Seq<u8>) -> u32
    recommends
        s.len() >= 4,
{
    (s[0] as u32) | ((s[1] as u32) << 8u32) | ((s[2] as u32) << 16u32) | ((s[3] as u32) << 24u32)
}

/// Whether a field of this many bytes can carry a length prefix.
pub open spec fn fits_prefix(b: Seq<u8>) -> bool {
    b.len() <= u32::MAX
}

/// One field: its length prefix, then its bytes.
pub open spec fn field_bytes(b: Seq<u8>) -> Seq<u8>
    recommends
        fits_prefix(b),
{
    prefix_bytes(b.len() as u32) + b
}

/// Whether every field of a record can carry a length prefix.
pub open spec fn record_fits(r: (Seq<u8>, Seq<u8>, Seq<u8>)) -> bool {
    fits_prefix(r.0) && fits_prefix(r.1) && fits_prefix(r.2)
}

/// The layout of a record: proof, verification key and witness, in that order.
pub open spec fn record_bytes(r: (Seq<u8>, Seq<u8>, Seq<u8>)) -> Seq<u8>
    recommends
        record_fits(r),
{
    field_bytes(r.0) + field_bytes(r.1) + field_bytes(r.2)
}

/// The size of a record's layout: twelve bytes of prefixes and the fields' bytes.
pub open spec fn record_len(r: (Seq<u8>, Seq<u8>, Seq<u8>)) -> int {
    12 + r.0.len() + r.1.len() + r.2.len() as int
}

/// Reads one field from the start of `s`: the field and the bytes after it, or
/// `None` where the prefix is cut short or claims more bytes than follow it.
pub open spec fn split_field(s: Seq<u8>) -> Option<(Seq<u8>, Seq<u8>)> {
    if s.len() < 4 {
        None
    } else {
        let n = prefix_value(s) as int;
        if s.len() - 4 < n {
            None
        } else {
            Some((s.subrange(4, 4 + n), s.subrange(4 + n, s.len() as int)))
        }
    }
}

/// The record laid out in `s`, with no bytes left over, if there is one.
pub open spec fn parse_record(s: Seq<u8>) -> Option<(Seq<u8>, Seq<u8>, Seq<u8>)> {
    match split_field(s) {
        None => None,
        Some((p, s1)) => match split_field(s1) {
            None => None,
            Some((k, s2)) => match split_field(s2) {
                None => None,
                Some((w, s3)) => if s3.len() == 0 {
                    Some((p, k, w))
                } else {
                    None
                },
            },
        },
    }
}

/// Relies on borsh::to_vec over a tuple of three byte vectors: each is written
/// as its length in four bytes, least significant first, then its bytes; a
/// vector longer than u32::MAX is an error.
#[verifier::external_body]
fn borsh_to_vec(r: &ZkpResult) -> (out: Option<Vec<u8>>)
    ensures
        match out {
            Some(v) => record_fits(r@) && v@ == record_bytes(r@),
            None => !record_fits(r@),
        },
{
    borsh::to_vec(&(&r.proof, &r.verifying_key, &r.public_witness)).ok()
}

/// Relies on borsh's try_from_slice for a tuple of three byte vectors: it reads
/// the fields in order, each a length in four bytes, least significant first,
/// then that many bytes, and fails on a short read or on bytes left over.
#[verifier::external_body]
fn borsh_try_from_slice(data: &[u8]) -> (out: Option<ZkpResult>)
    ensures
        match out {
            Some(r) => parse_record(data@) == Some(r@),
            None => parse_record(data@) is None,
        },
{
    match <(Vec<u8>, Vec<u8>, Vec<u8>)>::try_from_slice(data) {
        Ok((proof, verifying_key, public_witness)) => Some(
            ZkpResult { proof, verifying_key, public_witness },
        ),
        Err(_) => None,
    }
}

/// Lays `r` out as three length-prefixed fields, or `None` where a field is too
/// long for its prefix.
pub fn encode_record(r: &ZkpResult) -> (out: Option<Vec<u8>>)
    ensures
        match out {
            Some(v) => record_fits(r@) && v@ == record_bytes(r@) && v@.len() == record_len(r@),
            None => !record_fits(r@),
        },
{
    let out = borsh_to_vec(r);
    proof {
        lemma_prefix_bytes_len(r@.0);
        lemma_prefix_bytes_len(r@.1);
        lemma_prefix_bytes_len(r@.2);
    }
    out
}

/// Reads a record laid out as three length-prefixed fields that fill `data`
/// exactly, or `None` where there is no such record.
pub fn decode_record(data: &[u8]) -> (out: Option<ZkpResult>)
    ensures
        match out {
            Some(r) => parse_record(data@) == Some(r@),
            None => parse_record(data@) is None,
        },
{
    borsh_try_from_slice(data)
}

proof fn lemma_prefix_bytes_len(b: Seq<u8>)
    ensures
        field_bytes(b).len() == 4 + b.len(),
{
}

/// Reading a length prefix back gives the length written.
pub proof fn lemma_prefix_value_of_bytes(n: u32)
    ensures
        prefix_value(prefix_bytes(n)) == n,
{
    assert(((n as u8) as u32) | ((((n >> 8u32) as u8) as u32) << 8u32) | ((((n >> 16u32) as u8)
        as u32) << 16u32) | ((((n >> 24u32) as u8) as u32) << 24u32) == n) by (bit_vector);
}

/// A field read from the start of its own layout, followed by anything, gives
/// the field and what follows.
pub proof fn lemma_split_field(b: Seq<u8>, rest: Seq<u8>)
    requires
        fits_prefix(b),
    ensures
        split_field(field_bytes(b) + rest) == Some((b, rest)),
{
    let s = field_bytes(b) + rest;
    lemma_prefix_value_of_bytes(b.len() as u32);
    assert(prefix_value(s) == prefix_value(prefix_bytes(b.len() as u32)));
    assert(s.subrange(4, 4 + b.len() as int) =~= b);
    assert(s.subrange(4 + b.len() as int, s.len() as int) =~= rest);
}

/// Decoding the layout of a record gives the record back.
pub proof fn lemma_parse_record_bytes(r: (Seq<u8>, Seq<u8>, Seq<u8>))
    requires
        record_fits(r),
    ensures
        parse_record(record_bytes(r)) == Some(r),
{
    let (p, k, w) = r;
    let tail2 = field_bytes(w);
    let tail1 = field_bytes(k) + tail2;
    assert(record_bytes(r) =~= field_bytes(p) + tail1);
    lemma_split_field(p, tail1);
    lemma_split_field(k, tail2);
    assert(tail2 =~= field_bytes(w) + Seq::<u8>::empty());
    lemma_split_field(w, Seq::<u8>::empty());
}

} // verus!
