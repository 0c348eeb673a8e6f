//! Properties of the update protocol that hold for every input.

use crate::codec::{lemma_counter_value_of_bytes, stored_counter, COUNTER_MAX};
use crate::handler::{
    counter_handler, counter_update, handler_update, record_update, UpdateError,
};
use crate::record::{
    field_bytes, fits_prefix, lemma_parse_record_bytes, lemma_split_field, parse_record,
    prefix_value, record_bytes, record_fits, record_len, split_field,
};
use vstd::prelude::*;

verus! {

/// Updating a counter below the largest value stores the counter plus one, and
/// keeps the account's length.
pub proof fn lemma_counter_increments(data: Seq<u8>)
    requires
        data.len() >= 4,
        stored_counter(data) < COUNTER_MAX,
    ensures
        counter_update(data) is Ok,
        counter_update(data)->Ok_0.len() == data.len(),
        stored_counter(counter_update(data)->Ok_0) == stored_counter(data) + 1,
{
    lemma_counter_value_of_bytes((stored_counter(data) + 1) as u32);
}

/// Updating a counter at the largest value stores zero.
pub proof fn lemma_counter_wraps(data: Seq<u8>)
    requires
        data.len() >= 4,
        stored_counter(data) == COUNTER_MAX,
    ensures
        counter_update(data) is Ok,
        counter_update(data)->Ok_0.len() == data.len(),
        stored_counter(counter_update(data)->Ok_0) == 0,
{
    lemma_counter_value_of_bytes(0);
}

/// Storing a record whose layout fits in the account succeeds, and the
/// account's first bytes, as many as the layout has, decode to that record.
pub proof fn lemma_record_round_trip(data: Seq<u8>, r: (Seq<u8>, Seq<u8>, Seq<u8>))
    requires
        record_fits(r),
        record_len(r) <= data.len(),
    ensures
        record_update(data, record_bytes(r)) is Ok,
        record_update(data, record_bytes(r))->Ok_0.len() == data.len(),
        parse_record(record_update(data, record_bytes(r))->Ok_0.subrange(0, record_len(r)))
            == Some(r),
{
    lemma_parse_record_bytes(r);
    let d = record_update(data, record_bytes(r))->Ok_0;
    assert(d.subrange(0, record_len(r)) =~= record_bytes(r));
}

/// Storing a record whose layout is longer than the account fails with
/// `InsufficientCapacity`.
pub proof fn lemma_record_too_large(data: Seq<u8>, r: (Seq<u8>, Seq<u8>, Seq<u8>))
    requires
        record_fits(r),
        record_len(r) > data.len(),
    ensures
        record_update(data, record_bytes(r)) == Err::<Seq<u8>, UpdateError>(
            UpdateError::InsufficientCapacity,
        ),
{
    lemma_parse_record_bytes(r);
}

/// The counter handler refuses every caller that is not the account's owner,
/// whatever the account holds and whatever the payload.
pub proof fn lemma_counter_rejects_stranger(
    caller: Seq<u8>,
    owner: Seq<u8>,
    data: Seq<u8>,
    payload: Seq<u8>,
)
    requires
        caller != owner,
    ensures
        handler_update(counter_handler(), caller, owner, data, payload) == Err::<
            Seq<u8>,
            UpdateError,
        >(UpdateError::NotAuthorized),
{
}

/// A payload in which a length prefix claims more bytes than follow it is
/// refused with `MalformedPayload`, whichever of the three prefixes it is:
/// `lead` is the whole fields before it (none, the proof, or the proof and the
/// key), `rest` starts with the prefix.
pub proof fn lemma_overlong_prefix_rejected(
    data: Seq<u8>,
    lead: Seq<Seq<u8>>,
    rest: Seq<u8>,
)
    requires
        lead.len() <= 2,
        forall|i: int| 0 <= i < lead.len() ==> fits_prefix(#[trigger] lead[i]),
        rest.len() >= 4,
        prefix_value(rest) > rest.len() - 4,
    ensures
        record_update(data, lead_bytes(lead) + rest) == Err::<Seq<u8>, UpdateError>(
            UpdateError::MalformedPayload,
        ),
{
    assert(split_field(rest) is None);
    if lead.len() == 0 {
        assert(lead_bytes(lead) + rest =~= rest);
    } else if lead.len() == 1 {
        assert(lead_bytes(lead.drop_last()) =~= Seq::<u8>::empty());
        assert(lead_bytes(lead) =~= field_bytes(lead[0]));
        assert(lead_bytes(lead) + rest =~= field_bytes(lead[0]) + rest);
        lemma_split_field(lead[0], rest);
    } else {
        let first = lead.drop_last();
        assert(first.drop_last().len() == 0);
        assert(lead_bytes(first.drop_last()) =~= Seq::<u8>::empty());
        assert(lead_bytes(first) =~= field_bytes(lead[0]));
        assert(lead_bytes(lead) =~= field_bytes(lead[0]) + field_bytes(lead[1]));
        let tail = field_bytes(lead[1]) + rest;
        assert(lead_bytes(lead) + rest =~= field_bytes(lead[0]) + tail);
        lemma_split_field(lead[0], tail);
        lemma_split_field(lead[1], rest);
    }
}

/// The layouts of `lead`'s fields, one after another.
pub open spec fn lead_bytes(lead: Seq<Seq<u8>>) -> Seq<u8>
    decreases lead.len(),
{
    if lead.len() == 0 {
        Seq::empty()
    } else {
        lead_bytes(lead.drop_last()) + field_bytes(lead.last())
    }
}

} // verus!
