//! The account-update protocol: ownership check, decoding, capacity check and
//! write-back, with no change to the account on any failure.

use crate::codec::{
    counter_bytes, next_counter, read_counter, stored_counter, write_counter, COUNTER_LEN,
    COUNTER_MAX,
};
use crate::record::{decode_record, encode_record, parse_record, record_bytes, record_len};
use vstd::prelude::*;

verus! {

/// The 32-byte identity of a program: the caller of an update, or the owner
/// recorded on an account.
pub struct Identity {
    pub key: [u8; 32],
}

impl Identity {
    /// Whether the two identities are the same key.
    pub fn same_as(&self, other: &Identity) -> (r: bool)
        ensures
            r == (self.key@ == other.key@),
    {
        let mut i: usize = 0;
        while i < 32
            invariant
                i <= 32,
                forall|j: int| 0 <= j < i ==> self.key@[j] == other.key@[j],
            decreases 32 - i,
        {
            if self.key[i] != other.key[i] {
                return false;
            }
            i += 1;
        }
        assert(self.key@ =~= other.key@);
        true
    }
}

/// A fixed-capacity byte buffer tagged with the identity of its owner. Updates
/// overwrite bytes in place and never change its length.
pub struct StorageAccount {
    pub owner: Identity,
    pub data: Vec<u8>,
}

/// Why an update was rejected.
#[derive(Debug, Clone, Copy, PartialEq, Eq, Structural)]
pub enum UpdateError {
    /// The caller is not the account's owner.
    NotAuthorized,
    /// The account's bytes do not hold a counter.
    MalformedState,
    /// The payload does not hold a record.
    MalformedPayload,
    /// The encoded result is longer than the account.
    InsufficientCapacity,
    /// No account was supplied.
    MissingAccount,
}

/// The account's bytes after a counter update: the next counter value in the
/// first four bytes, the rest as they were.
pub open spec fn counter_update(data: Seq<u8>) -> Result<Seq<u8>, UpdateError> {
    if data.len() < 4 {
        Err(UpdateError::MalformedState)
    } else {
        Ok(counter_bytes(next_counter(stored_counter(data))) + data.subrange(4, data.len() as int))
    }
}

/// The account's bytes after storing the record held by `payload`: its layout
/// at the start, the rest as it was.
pub open spec fn record_update(data: Seq<u8>, payload: Seq<u8>) -> Result<Seq<u8>, UpdateError> {
    match parse_record(payload) {
        None => Err(UpdateError::MalformedPayload),
        Some(r) => if record_len(r) > data.len() {
            Err(UpdateError::InsufficientCapacity)
        } else {
            Ok(record_bytes(r) + data.subrange(record_len(r), data.len() as int))
        },
    }
}

/// `bytes` written over the start of `data`, which keeps its length.
fn overwrite_prefix(data: &mut Vec<u8>, bytes: &[u8])
    requires
        bytes@.len() <= old(data)@.len(),
    ensures
        final(data)@ == bytes@ + old(data)@.subrange(bytes@.len() as int, old(data)@.len() as int),
{
    let ghost start = data@;
    let mut i: usize = 0;
    while i < bytes.len()
        invariant
            i <= bytes@.len(),
            bytes@.len() <= data@.len(),
            data@.len() == start.len(),
            forall|j: int| 0 <= j < i ==> data@[j] == bytes@[j],
            forall|j: int| i <= j < data@.len() ==> data@[j] == start[j],
        decreases bytes@.len() - i,
    {
        data.set(i, bytes[i]);
        i += 1;
    }
    assert(data@ =~= bytes@ + start.subrange(bytes@.len() as int, start.len() as int));
}

impl StorageAccount {
    /// Adds one to the counter kept in the first four bytes, wrapping to zero
    /// after the largest value. Fails with `MalformedState`, leaving the account
    /// as it was, where it holds fewer than four bytes.
    pub fn increment_counter(&mut self) -> (r: Result<(), UpdateError>)
        ensures
            final(self).owner == old(self).owner,
            match counter_update(old(self).data@) {
                Ok(d) => r is Ok && final(self).data@ == d,
                Err(e) => r == Err::<(), UpdateError>(e) && final(self).data@ == old(self).data@,
            },
    {
        if self.data.len() < COUNTER_LEN {
            return Err(UpdateError::MalformedState);
        }
        let n = read_counter(self.data.as_slice());
        let next = if n == COUNTER_MAX {
            0
        } else {
            n + 1
        };
        let bytes = write_counter(next);
        overwrite_prefix(&mut self.data, &bytes);
        Ok(())
    }

    /// Replaces the start of the account with the record held by `payload`.
    /// Fails with `MalformedPayload` where the payload is not exactly one
    /// record, and with `InsufficientCapacity` where the record's layout is
    /// longer than the account; the account is then as it was.
    pub fn store_record(&mut self, payload: &[u8]) -> (r: Result<(), UpdateError>)
        ensures
            final(self).owner == old(self).owner,
            match record_update(old(self).data@, payload@) {
                Ok(d) => r is Ok && final(self).data@ == d,
                Err(e) => r == Err::<(), UpdateError>(e) && final(self).data@ == old(self).data@,
            },
    {
        let record = match decode_record(payload) {
            None => {
                return Err(UpdateError::MalformedPayload);
            },
            Some(record) => record,
        };
        let bytes = match encode_record(&record) {
            None => {
                return Err(UpdateError::MalformedPayload);
            },
            Some(bytes) => bytes,
        };
        if bytes.len() > self.data.len() {
            return Err(UpdateError::InsufficientCapacity);
        }
        overwrite_prefix(&mut self.data, bytes.as_slice());
        Ok(())
    }
}

/// Which schema an update works on.
#[derive(Debug, Clone, Copy, PartialEq, Eq, Structural)]
pub enum UpdateKind {
    /// Increment the counter kept in the account; the payload is unused.
    Counter,
    /// Replace the account's contents with the record in the payload.
    Record,
}

/// How updates are handled: the schema, and whether the caller must be the
/// account's owner.
#[derive(Debug, Clone, Copy)]
pub struct Handler {
    pub kind: UpdateKind,
    pub enforce_ownership: bool,
}

/// The counter handler, which checks the owner.
pub open spec fn counter_handler() -> Handler {
    Handler { kind: UpdateKind::Counter, enforce_ownership: true }
}

/// The record-store handler, which does not check the owner.
pub open spec fn record_handler() -> Handler {
    Handler { kind: UpdateKind::Record, enforce_ownership: false }
}

/// The account's bytes after handling one call, or the error it fails with.
pub open spec fn handler_update(
    h: Handler,
    caller: Seq<u8>,
    owner: Seq<u8>,
    data: Seq<u8>,
    payload: Seq<u8>,
) -> Result<Seq<u8>, UpdateError> {
    if h.enforce_ownership && caller != owner {
        Err(UpdateError::NotAuthorized)
    } else {
        match h.kind {
            UpdateKind::Counter => counter_update(data),
            UpdateKind::Record => record_update(data, payload),
        }
    }
}

impl Handler {
    /// The counter handler, which checks the owner.
    pub fn counter() -> (h: Handler)
        ensures
            h == counter_handler(),
    {
        Handler { kind: UpdateKind::Counter, enforce_ownership: true }
    }

    /// The record-store handler, which does not check the owner.
    pub fn record_store() -> (h: Handler)
        ensures
            h == record_handler(),
    {
        Handler { kind: UpdateKind::Record, enforce_ownership: false }
    }

    /// Handles one call on `account`: checks the owner where this handler
    /// does, then updates the account. On failure the account is as it was.
    pub fn handle(&self, caller: &Identity, account: &mut StorageAccount, payload: &[u8]) -> (r:
        Result<(), UpdateError>)
        ensures
            final(account).owner == old(account).owner,
            match handler_update(*self, caller.key@, old(account).owner.key@, old(account).data@, payload@) {
                Ok(d) => r is Ok && final(account).data@ == d,
                Err(e) => r == Err::<(), UpdateError>(e) && final(account).data@ == old(account).data@,
            },
    {
        if self.enforce_ownership && !caller.same_as(&account.owner) {
            return Err(UpdateError::NotAuthorized);
        }
        match self.kind {
            UpdateKind::Counter => account.increment_counter(),
            UpdateKind::Record => account.store_record(payload),
        }
    }
}

/// Handles one call on the first of `accounts`, or fails with `MissingAccount`
/// where there is none. No other account is touched.
pub fn process_instruction(
    handler: &Handler,
    program_id: &Identity,
    accounts: &mut Vec<StorageAccount>,
    instruction_data: &[u8],
) -> (r: Result<(), UpdateError>)
    ensures
        final(accounts)@.len() == old(accounts)@.len(),
        old(accounts)@.len() == 0 ==> r == Err::<(), UpdateError>(UpdateError::MissingAccount),
        old(accounts)@.len() > 0 ==> {
            let a = old(accounts)@[0];
            let b = final(accounts)@[0];
            &&& b.owner == a.owner
            &&& forall|j: int| 1 <= j < old(accounts)@.len() ==> final(accounts)@[j] == old(accounts)@[j]
            &&& match handler_update(*handler, program_id.key@, a.owner.key@, a.data@, instruction_data@) {
                Ok(d) => r is Ok && b.data@ == d,
                Err(e) => r == Err::<(), UpdateError>(e) && b.data@ == a.data@,
            }
        },
{
    if accounts.len() == 0 {
        return Err(UpdateError::MissingAccount);
    }
    handler.handle(program_id, &mut accounts[0], instruction_data)
}

} // verus!
