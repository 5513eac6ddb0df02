use std::sync::Arc;

use alloy_consensus::{Sealable, SignableTransaction, TxEip1559};
use alloy_eips::eip2718::Encodable2718;
use alloy_eips::eip4895::Withdrawal;
use alloy_primitives::Signature;
use alloy_rlp::Decodable;
use alloy_rpc_types_engine::{ExecutionPayloadV1, ExecutionPayloadV2, ExecutionPayloadV3};
use flashblocks_rpc::payload::{seal_block, ExecutionPayload};
use flashblocks_rpc::primitives::U256;
use op_alloy_consensus::OpTxEnvelope;

fn encoded_transaction(nonce: u64) -> Vec<u8> {
    let tx = TxEip1559 { chain_id: 8453, nonce, ..Default::default() };
    OpTxEnvelope::Eip1559(tx.into_signed(Signature::test_signature())).encoded_2718()
}

fn payload() -> ExecutionPayload {
    ExecutionPayload {
        parent_hash: [1; 32],
        fee_recipient: [2; 20],
        state_root: [3; 32],
        receipts_root: [4; 32],
        logs_bloom: [5; 256],
        prev_randao: [6; 32],
        block_number: 77,
        gas_limit: 30_000_000,
        gas_used: 21_000,
        timestamp: 1_700_000_000,
        extra_data: Arc::new(vec![7; 9]),
        base_fee_per_gas: U256::from_u64(1_000_000_007),
        block_hash: [8; 32],
        transactions: vec![Arc::new(encoded_transaction(0)), Arc::new(encoded_transaction(1))],
        withdrawals: vec![(1, 2, [9; 20], 3)],
        blob_gas_used: 0,
        excess_blob_gas: 0,
    }
}

#[test]
fn sealed_header_is_that_of_the_block() {
    let payload = payload();
    let block = ExecutionPayloadV3 {
        payload_inner: ExecutionPayloadV2 {
            payload_inner: ExecutionPayloadV1 {
                parent_hash: [1; 32].into(),
                fee_recipient: [2; 20].into(),
                state_root: [3; 32].into(),
                receipts_root: [4; 32].into(),
                logs_bloom: [5; 256].into(),
                prev_randao: [6; 32].into(),
                block_number: 77,
                gas_limit: 30_000_000,
                gas_used: 21_000,
                timestamp: 1_700_000_000,
                extra_data: vec![7; 9].into(),
                base_fee_per_gas: alloy_primitives::U256::from(1_000_000_007u64),
                block_hash: [8; 32].into(),
                transactions: vec![encoded_transaction(0).into(), encoded_transaction(1).into()],
            },
            withdrawals: vec![Withdrawal {
                index: 1,
                validator_index: 2,
                address: [9; 20].into(),
                amount: 3,
            }],
        },
        blob_gas_used: 0,
        excess_blob_gas: 0,
    }
    .try_into_block::<OpTxEnvelope>()
    .unwrap();
    let sealed = seal_block(&payload).unwrap();
    assert_eq!(sealed.hash, block.header.hash_slow().0);
    assert_eq!(sealed.fields.number, 77);
    assert_eq!(sealed.fields.timestamp, 1_700_000_000);
    assert_eq!(sealed.fields.base_fee_per_gas, Some(1_000_000_007));
    assert_eq!(sealed.fields.excess_blob_gas, Some(0));
    let decoded = alloy_consensus::Header::decode(&mut sealed.rlp.as_slice()).unwrap();
    assert_eq!(decoded, block.header);
    assert_eq!(decoded.seal_slow().hash().0, sealed.hash);
}

#[test]
fn a_clone_of_a_sealed_header_is_equal() {
    let sealed = seal_block(&payload()).unwrap();
    let copy = sealed.clone();
    assert_eq!(copy.hash, sealed.hash);
    assert_eq!(copy.rlp, sealed.rlp);
    assert_eq!(copy.fields.number, 77);
}

#[test]
fn extra_data_may_have_32_bytes() {
    let mut payload = payload();
    payload.extra_data = Arc::new(vec![0; 32]);
    assert!(seal_block(&payload).is_ok());
    payload.extra_data = Arc::new(vec![0; 33]);
    assert!(seal_block(&payload).is_err());
}

#[test]
fn base_fee_may_have_64_bits() {
    let mut payload = payload();
    payload.base_fee_per_gas = U256 { limbs: [u64::MAX, 0, 0, 0] };
    assert_eq!(seal_block(&payload).unwrap().fields.base_fee_per_gas, Some(u64::MAX));
    payload.base_fee_per_gas = U256 { limbs: [0, 1, 0, 0] };
    assert!(seal_block(&payload).is_err());
}

#[test]
fn transactions_must_decode() {
    let mut payload = payload();
    payload.transactions.push(Arc::new(vec![0x02, 0x01]));
    assert!(seal_block(&payload).is_err());
    let mut too_long = encoded_transaction(3);
    too_long.push(0);
    payload.transactions.pop();
    payload.transactions.push(Arc::new(too_long));
    assert!(seal_block(&payload).is_err());
}

#[test]
fn a_block_may_be_empty() {
    let mut payload = payload();
    payload.transactions.clear();
    payload.withdrawals.clear();
    let sealed = seal_block(&payload).unwrap();
    let decoded = alloy_consensus::Header::decode(&mut sealed.rlp.as_slice()).unwrap();
    assert_eq!(decoded.transactions_root, alloy_consensus::EMPTY_ROOT_HASH);
}
