use zkp_program::codec::{read_counter, write_counter};
use zkp_program::handler::{
    process_instruction, Handler, Identity, StorageAccount, UpdateError, UpdateKind,
};
use zkp_program::record::{decode_record, encode_record, ZkpResult};

fn id(b: u8) -> Identity {
    Identity { key: [b; 32] }
}

fn account(owner: u8, data: Vec<u8>) -> StorageAccount {
    StorageAccount { owner: id(owner), data }
}

fn record_payload(p: &[u8], k: &[u8], w: &[u8]) -> Vec<u8> {
    let mut out = Vec::new();
    for f in [p, k, w] {
        out.extend_from_slice(&(f.len() as u32).to_le_bytes());
        out.extend_from_slice(f);
    }
    out
}

#[test]
fn counter_example_sixteen_bytes() {
    let mut data = vec![0u8, 0, 0, 5];
    data.extend_from_slice(&[0u8; 12]);
    let mut acc = account(1, data);
    assert_eq!(Handler::counter().handle(&id(1), &mut acc, &[]), Ok(()));
    assert_eq!(&acc.data[..4], &[0, 0, 0, 6]);
    assert_eq!(&acc.data[4..], &[0u8; 12]);
    assert_eq!(acc.data.len(), 16);
}

#[test]
fn counter_increments_by_one() {
    let mut acc = account(3, vec![0x12, 0x34, 0x56, 0xff, 0xaa]);
    assert_eq!(acc.increment_counter(), Ok(()));
    assert_eq!(acc.data, vec![0x12, 0x34, 0x57, 0x00, 0xaa]);
}

#[test]
fn counter_wraps_to_zero() {
    let mut acc = account(1, vec![0xff, 0xff, 0xff, 0xff]);
    assert_eq!(Handler::counter().handle(&id(1), &mut acc, &[9, 9]), Ok(()));
    assert_eq!(acc.data, vec![0, 0, 0, 0]);
}

#[test]
fn counter_rejects_short_account() {
    let mut acc = account(1, vec![1, 2, 3]);
    assert_eq!(
        Handler::counter().handle(&id(1), &mut acc, &[]),
        Err(UpdateError::MalformedState)
    );
    assert_eq!(acc.data, vec![1, 2, 3]);
}

#[test]
fn counter_rejects_stranger() {
    let mut acc = account(1, vec![0, 0, 0, 5]);
    let payload = record_payload(&[1], &[], &[]);
    assert_eq!(
        Handler::counter().handle(&id(2), &mut acc, &payload),
        Err(UpdateError::NotAuthorized)
    );
    assert_eq!(acc.data, vec![0, 0, 0, 5]);
}

#[test]
fn record_store_ignores_owner() {
    let mut acc = account(1, vec![0u8; 13]);
    let payload = record_payload(&[1], &[], &[]);
    assert_eq!(Handler::record_store().handle(&id(2), &mut acc, &payload), Ok(()));
    assert_eq!(acc.data, payload);
}

#[test]
fn record_with_owner_check_rejects_stranger() {
    let h = Handler { kind: UpdateKind::Record, enforce_ownership: true };
    let mut acc = account(1, vec![7u8; 20]);
    let payload = record_payload(&[1], &[2], &[3]);
    assert_eq!(h.handle(&id(2), &mut acc, &payload), Err(UpdateError::NotAuthorized));
    assert_eq!(acc.data, vec![7u8; 20]);
    assert_eq!(h.handle(&id(1), &mut acc, &payload), Ok(()));
    assert_eq!(&acc.data[..15], &payload[..]);
}

#[test]
fn record_round_trip_keeps_tail() {
    let payload = record_payload(&[1, 2, 3], &[4, 5], &[6]);
    assert_eq!(payload.len(), 18);
    let mut acc = account(1, vec![0xee; 25]);
    assert_eq!(acc.store_record(&payload), Ok(()));
    assert_eq!(&acc.data[..18], &payload[..]);
    assert_eq!(&acc.data[18..], &[0xee; 7]);
    let back = decode_record(&acc.data[..18]).unwrap();
    assert_eq!(back.proof, vec![1, 2, 3]);
    assert_eq!(back.verifying_key, vec![4, 5]);
    assert_eq!(back.public_witness, vec![6]);
}

#[test]
fn record_exact_fit() {
    let payload = record_payload(&[], &[], &[]);
    let mut acc = account(1, vec![5u8; 12]);
    assert_eq!(acc.store_record(&payload), Ok(()));
    assert_eq!(acc.data, vec![0u8; 12]);
}

#[test]
fn record_too_large_example() {
    let payload = record_payload(&[1], &[], &[]);
    assert_eq!(payload.len(), 13);
    let before = vec![3u8, 1, 4, 1, 5, 9, 2, 6, 5, 3];
    let mut acc = account(1, before.clone());
    assert_eq!(
        Handler::record_store().handle(&id(1), &mut acc, &payload),
        Err(UpdateError::InsufficientCapacity)
    );
    assert_eq!(acc.data, before);
}

#[test]
fn record_overlong_prefix_rejected() {
    let mut payload = record_payload(&[1, 2], &[], &[]);
    payload[0] = 200;
    let mut acc = account(1, vec![8u8; 64]);
    assert_eq!(acc.store_record(&payload), Err(UpdateError::MalformedPayload));
    assert_eq!(acc.data, vec![8u8; 64]);

    let mut second = record_payload(&[1], &[2, 3], &[]);
    second[5] = 9;
    assert_eq!(acc.store_record(&second), Err(UpdateError::MalformedPayload));
    assert_eq!(acc.data, vec![8u8; 64]);
}

#[test]
fn record_rejects_short_and_trailing_payloads() {
    let mut acc = account(1, vec![0u8; 64]);
    assert_eq!(acc.store_record(&[]), Err(UpdateError::MalformedPayload));
    assert_eq!(acc.store_record(&[0, 0, 0, 0, 0, 0, 0, 0]), Err(UpdateError::MalformedPayload));
    let mut trailing = record_payload(&[1], &[2], &[3]);
    trailing.push(0);
    assert_eq!(acc.store_record(&trailing), Err(UpdateError::MalformedPayload));
    assert_eq!(acc.data, vec![0u8; 64]);
}

#[test]
fn process_instruction_without_account() {
    let mut accounts: Vec<StorageAccount> = Vec::new();
    assert_eq!(
        process_instruction(&Handler::record_store(), &id(1), &mut accounts, &[]),
        Err(UpdateError::MissingAccount)
    );
    assert!(accounts.is_empty());
}

#[test]
fn process_instruction_updates_first_account_only() {
    let mut accounts = vec![account(1, vec![0, 0, 0, 1]), account(1, vec![0, 0, 0, 1])];
    assert_eq!(
        process_instruction(&Handler::counter(), &id(1), &mut accounts, &[]),
        Ok(())
    );
    assert_eq!(accounts[0].data, vec![0, 0, 0, 2]);
    assert_eq!(accounts[1].data, vec![0, 0, 0, 1]);
}

#[test]
fn encode_record_lays_out_prefixes() {
    let r = ZkpResult { proof: vec![0xab], verifying_key: vec![1, 2], public_witness: vec![] };
    let bytes = encode_record(&r).unwrap();
    assert_eq!(bytes, vec![1, 0, 0, 0, 0xab, 2, 0, 0, 0, 1, 2, 0, 0, 0, 0]);
}

#[test]
fn decode_record_reads_fields() {
    let payload = record_payload(&[9; 300], &[7], &[5, 5]);
    let r = decode_record(&payload).unwrap();
    assert_eq!(r.proof, vec![9; 300]);
    assert_eq!(r.verifying_key, vec![7]);
    assert_eq!(r.public_witness, vec![5, 5]);
    assert!(decode_record(&payload[..payload.len() - 1]).is_none());
}

#[test]
fn counter_codec_is_big_endian() {
    assert_eq!(read_counter(&[0x01, 0x02, 0x03, 0x04, 0xff]), 0x0102_0304);
    assert_eq!(write_counter(0x0a0b_0c0d), [0x0a, 0x0b, 0x0c, 0x0d]);
}

#[test]
fn identity_comparison() {
    let mut other = [4u8; 32];
    assert!(id(4).same_as(&Identity { key: other }));
    other[31] = 5;
    assert!(!id(4).same_as(&Identity { key: other }));
}
