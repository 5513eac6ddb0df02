use std::sync::Arc;

use alloy_consensus::transaction::SignerRecoverable;
use alloy_consensus::{Sealable, SignableTransaction, TxEip1559};
use alloy_eips::eip2718::Encodable2718;
use alloy_primitives::map::foldhash::{HashMap, HashMapExt};
use alloy_primitives::Signature;
use flashblocks_rpc::block::{
    assemble_payload, make_receipt_input, make_transaction, merge_receipts, require_parts,
    ReceiptInput,
};
use flashblocks_rpc::error::BuildError;
use flashblocks_rpc::flashblock::{
    ExecutionPayloadBaseV1, ExecutionPayloadFlashblockDeltaV1, Flashblock, Metadata,
};
use flashblocks_rpc::grouping::group_by_block;
use flashblocks_rpc::metrics::Metrics;
use flashblocks_rpc::overrides::{Account, AccountInfo, EvmState};
use flashblocks_rpc::payload::{seal_block, HeaderFields, SealedHeader};
use flashblocks_rpc::pending_blocks::PendingBlocks;
use flashblocks_rpc::pending_state::{BlockStart, PendingStateBuild};
use flashblocks_rpc::primitives::{B256, U256};
use flashblocks_rpc::receipt::{
    Eip658Value, L1BlockInfo, Log, OpDepositReceipt, OpReceipt, OpReceiptType,
    OpTransactionReceipt, Receipt,
};
use flashblocks_rpc::state::{CanonicalBlock, Decision, StateProcessor};
use flashblocks_rpc::transaction::{TxEnvelope, TxFields};
use op_alloy_consensus::{OpTxEnvelope, TxDeposit};
use revm_database::Cache;

fn deposit(id: u8) -> OpTxEnvelope {
    let tx = TxDeposit {
        source_hash: [id; 32].into(),
        from: [id; 20].into(),
        gas_limit: 100_000,
        ..Default::default()
    };
    OpTxEnvelope::Deposit(tx.seal_slow())
}

fn signed(nonce: u64) -> OpTxEnvelope {
    let tx = TxEip1559 {
        chain_id: 8453,
        nonce,
        gas_limit: 21_000,
        max_fee_per_gas: 100,
        max_priority_fee_per_gas: 7,
        ..Default::default()
    };
    OpTxEnvelope::Eip1559(tx.into_signed(Signature::test_signature()))
}

fn hash(tx: &OpTxEnvelope) -> B256 {
    tx.tx_hash().0
}

fn plain_receipt(gas: u64, logs: usize) -> Receipt {
    Receipt {
        status: Eip658Value::Eip658(true),
        cumulative_gas_used: gas,
        logs: (0..logs)
            .map(|i| {
                Arc::new(Log { address: [i as u8; 20], topics: vec![], data: Arc::new(vec![]) })
            })
            .collect(),
    }
}

fn receipt_for(tx: &OpTxEnvelope, gas: u64, logs: usize) -> Arc<OpReceipt> {
    let inner = plain_receipt(gas, logs);
    Arc::new(if tx.is_deposit() {
        OpReceipt::Deposit(OpDepositReceipt {
            inner,
            deposit_nonce: Some(40),
            deposit_receipt_version: Some(1),
        })
    } else {
        OpReceipt::Eip1559(inner)
    })
}

fn base(number: u64) -> ExecutionPayloadBaseV1 {
    ExecutionPayloadBaseV1 {
        parent_beacon_block_root: [1; 32],
        parent_hash: [2; 32],
        fee_recipient: [3; 20],
        prev_randao: [4; 32],
        block_number: number,
        gas_limit: 30_000_000,
        timestamp: 1_000 + 2 * number,
        extra_data: Arc::new(vec![5, 6]),
        base_fee_per_gas: U256::from_u64(40),
    }
}

/// A flashblock with transactions, each with its receipt.
fn flashblock(number: u64, index: u64, txs: &[(OpTxEnvelope, Arc<OpReceipt>)]) -> Flashblock {
    let mut receipts = HashMap::new();
    for (tx, receipt) in txs {
        receipts.insert(hash(tx), receipt.clone());
    }
    Flashblock {
        payload_id: [0; 8],
        index,
        base: if index == 0 { Some(base(number)) } else { None },
        diff: ExecutionPayloadFlashblockDeltaV1 {
            state_root: [index as u8; 32],
            receipts_root: [index as u8; 32],
            logs_bloom: [0; 256],
            gas_used: 21_000 * index,
            block_hash: [0; 32],
            transactions: txs.iter().map(|(tx, _)| Arc::new(tx.encoded_2718())).collect(),
            withdrawals: vec![],
            withdrawals_root: [0; 32],
        },
        metadata: Metadata { receipts, new_account_balances: HashMap::new(), block_number: number },
    }
}

/// A receipt as the RPC reports it, made from what the build hands out.
fn reported_receipt(input: &ReceiptInput) -> Arc<OpTransactionReceipt> {
    Arc::new(OpTransactionReceipt {
        receipt_type: OpReceiptType::Eip1559,
        status: Eip658Value::Eip658(true),
        cumulative_gas_used: input.receipt.cumulative_gas_used(),
        logs: vec![],
        logs_bloom: [0; 256],
        transaction_hash: input.meta.tx_hash,
        transaction_index: Some(input.meta.index),
        block_hash: Some(input.meta.block_hash),
        block_number: Some(input.meta.block_number),
        gas_used: input.gas_used,
        effective_gas_price: 0,
        blob_gas_used: None,
        blob_gas_price: None,
        from: input.signer,
        to: None,
        contract_address: None,
        l1_block_info: L1BlockInfo {
            l1_gas_price: None,
            l1_gas_used: None,
            l1_fee: None,
            l1_fee_scalar_bits: None,
            l1_base_fee_scalar: None,
            l1_blob_base_fee: None,
            l1_blob_base_fee_scalar: None,
            operator_fee_scalar: None,
            operator_fee_constant: None,
        },
    })
}

/// What a run of a build did.
#[derive(Default)]
struct Trace {
    inputs: Vec<ReceiptInput>,
    executed: Vec<B256>,
    starts: Vec<BlockStart>,
}

/// Runs a build to its end. Every executed transaction leaves its sender with its index as nonce.
fn run(
    mut build: PendingStateBuild,
    metrics: &mut Metrics,
    trace: &mut Trace,
) -> Result<Arc<PendingBlocks>, BuildError> {
    while let Some(start) = build.next_block()? {
        trace.starts.push(start);
        loop {
            let input = match build.try_next_transaction().expect("counters fit")? {
                Some(input) => input,
                None => break,
            };
            let execute = build.add_transaction(reported_receipt(&input))?;
            if execute {
                trace.executed.push(input.meta.tx_hash);
                let account = Account {
                    info: AccountInfo {
                        balance: U256::from_u64(1),
                        nonce: input.meta.index,
                        code: None,
                    },
                    storage: vec![],
                };
                build.apply_state(&EvmState { accounts: vec![(input.signer, account)] });
            }
            trace.inputs.push(input);
        }
        build.end_block(metrics);
    }
    build.finish(Arc::new(Cache::default()))
}

fn build_from(
    prev: Option<Arc<PendingBlocks>>,
    flashblocks: Vec<Flashblock>,
) -> (Result<Arc<PendingBlocks>, BuildError>, Trace) {
    let mut metrics = Metrics::default();
    let mut trace = Trace::default();
    let flashblocks = flashblocks.into_iter().map(Arc::new).collect();
    let result = run(PendingStateBuild::new(prev, flashblocks), &mut metrics, &mut trace);
    (result, trace)
}

#[test]
fn flashblocks_are_grouped_by_block() {
    let places = vec![(11, 0), (10, 0), (11, 1), (10, 1), (12, 0), (10, 2)];
    let flashblocks: Vec<Arc<Flashblock>> =
        places.into_iter().map(|(n, i)| Arc::new(flashblock(n, i, &[]))).collect();
    let groups: Vec<Vec<(u64, u64)>> = group_by_block(&flashblocks)
        .iter()
        .map(|group| group.iter().map(|f| (f.metadata.block_number, f.index)).collect())
        .collect();
    assert_eq!(
        groups,
        vec![vec![(10, 0), (10, 1), (10, 2)], vec![(11, 0), (11, 1)], vec![(12, 0)]]
    );
    assert!(group_by_block(&vec![]).is_empty());
}

#[test]
fn a_payload_takes_the_base_and_the_latest_diff() {
    let mut first = flashblock(10, 0, &[(signed(0), receipt_for(&signed(0), 1, 0))]);
    first.diff.withdrawals = vec![(1, 1, [1; 20], 1)];
    let mut second = flashblock(10, 1, &[(signed(1), receipt_for(&signed(1), 2, 0))]);
    second.diff.withdrawals = vec![(2, 2, [2; 20], 2)];
    second.diff.state_root = [9; 32];
    second.diff.gas_used = 77;
    let payload = assemble_payload(&vec![Arc::new(first), Arc::new(second)]).ok().unwrap();
    assert_eq!(payload.block_number, 10);
    assert_eq!(payload.timestamp, 1_020);
    assert_eq!(payload.parent_hash, [2; 32]);
    assert_eq!(payload.state_root, [9; 32]);
    assert_eq!(payload.gas_used, 77);
    assert_eq!(payload.blob_gas_used, 0);
    assert_eq!(payload.excess_blob_gas, 0);
    assert_eq!(payload.withdrawals, vec![(1, 1, [1; 20], 1), (2, 2, [2; 20], 2)]);
    assert_eq!(payload.transactions.len(), 2);
    assert_eq!(*payload.transactions[1], signed(1).encoded_2718());
}

#[test]
fn a_payload_needs_flashblocks_and_a_base() {
    assert!(matches!(assemble_payload(&vec![]), Err(BuildError::EmptyBlock)));
    let headless = vec![Arc::new(flashblock(10, 1, &[]))];
    assert!(matches!(assemble_payload(&headless), Err(BuildError::MissingBase)));
}

#[test]
fn the_last_receipt_counts() {
    let tx = signed(0);
    let group = vec![
        Arc::new(flashblock(10, 0, &[(tx.clone(), receipt_for(&tx, 5, 0))])),
        Arc::new(flashblock(10, 1, &[(tx.clone(), receipt_for(&tx, 6, 0))])),
    ];
    let receipts = merge_receipts(&group);
    assert_eq!(receipts.len(), 1);
    assert_eq!(receipts.get(&hash(&tx)).unwrap().cumulative_gas_used(), 6);
}

#[test]
fn a_block_is_built_from_its_flashblocks() {
    let (a, b, c) = (deposit(1), signed(0), signed(1));
    let flashblocks = vec![
        flashblock(10, 0, &[(a.clone(), receipt_for(&a, 50_000, 2))]),
        flashblock(
            10,
            1,
            &[(b.clone(), receipt_for(&b, 71_000, 1)), (c.clone(), receipt_for(&c, 92_500, 0))],
        ),
    ];
    let (pending, trace) = build_from(None, flashblocks);
    let pending = pending.ok().unwrap();
    assert_eq!(pending.latest_block_number(), 10);
    assert_eq!(pending.latest_flashblock_index(), 1);
    assert_eq!(trace.executed, vec![hash(&a), hash(&b), hash(&c)]);

    let gas: Vec<u64> = trace.inputs.iter().map(|input| input.gas_used).collect();
    assert_eq!(gas, vec![50_000, 21_000, 21_500]);
    assert_eq!(gas.iter().sum::<u64>(), 92_500);
    let log_indices: Vec<usize> = trace.inputs.iter().map(|input| input.next_log_index).collect();
    assert_eq!(log_indices, vec![0, 2, 3]);
    let header = pending.latest_header();
    for (i, input) in trace.inputs.iter().enumerate() {
        assert_eq!(input.meta.index, i as u64);
        assert_eq!(input.meta.block_hash, header.hash);
        assert_eq!(input.meta.block_number, 10);
        assert_eq!(input.meta.base_fee, Some(40));
        assert_eq!(input.meta.excess_blob_gas, Some(0));
        assert_eq!(input.meta.timestamp, 1_020);
    }

    let first = pending.get_transaction_by_hash(hash(&a)).unwrap();
    assert_eq!(first.signer, [1; 20]);
    assert_eq!(first.effective_gas_price, Some(0));
    assert_eq!(first.deposit_nonce, Some(40));
    assert_eq!(first.deposit_receipt_version, Some(1));
    assert_eq!(first.transaction_index, Some(0));
    assert_eq!(first.block_hash, Some(header.hash));
    assert_eq!(first.block_number, Some(10));
    let last = pending.get_transaction_by_hash(hash(&c)).unwrap();
    assert_eq!(last.effective_gas_price, Some(47));
    assert_eq!(last.deposit_nonce, None);
    assert_eq!(last.transaction_index, Some(2));
    assert_eq!(*last.inner.raw, c.encoded_2718());
    assert_eq!(pending.get_receipt(hash(&c)).unwrap().gas_used, 21_500);
    assert_eq!(pending.transactions_for_block(10).len(), 3);
}

#[test]
fn senders_are_recovered_and_counted() {
    let (a, b) = (signed(0), signed(1));
    let sender = a.recover_signer().unwrap().into_array();
    let (pending, trace) = build_from(
        None,
        vec![flashblock(
            10,
            0,
            &[
                (deposit(7), receipt_for(&deposit(7), 1, 0)),
                (deposit(7), receipt_for(&deposit(7), 1, 0)),
                (a.clone(), receipt_for(&a, 2, 0)),
                (b.clone(), receipt_for(&b, 3, 0)),
            ],
        )],
    );
    let pending = pending.ok().unwrap();
    assert_eq!(trace.inputs[2].signer, sender);
    assert_eq!(pending.get_transaction_count([7; 20]), U256::from_u64(2));
    let other = b.recover_signer().unwrap().into_array();
    let expected = if other == sender { 2 } else { 1 };
    assert_eq!(pending.get_transaction_count(sender), U256::from_u64(expected));
}

#[test]
fn the_receipt_of_a_transaction_is_found_by_its_hash() {
    let (a, b) = (signed(0), deposit(7));
    let first = flashblock(10, 0, &[(a.clone(), receipt_for(&a, 21_000, 0))]);
    let second = flashblock(10, 1, &[(b.clone(), receipt_for(&b, 52_000, 0))]);
    let pending = build_from(None, vec![first, second]).0.ok().unwrap();
    let receipt = pending.get_receipt(hash(&a)).unwrap();
    assert_eq!(receipt.transaction_hash, hash(&a));
    assert_eq!(receipt.gas_used, 21_000);
    assert_eq!(receipt.from, a.recover_signer().unwrap().into_array());
    let receipt = pending.get_receipt(hash(&b)).unwrap();
    assert_eq!(receipt.transaction_hash, hash(&b));
    assert_eq!(receipt.gas_used, 31_000);
    assert_eq!(receipt.from, [7; 20]);
    assert!(pending.get_receipt([9; 32]).is_none());
}

#[test]
fn the_execution_starts_from_the_base() {
    let flashblocks = vec![flashblock(10, 0, &[]), flashblock(11, 0, &[])];
    let (pending, trace) = build_from(None, flashblocks);
    let pending = pending.ok().unwrap();
    let start = &trace.starts[0];
    assert!(start.parent.is_none());
    assert_eq!(start.attributes.timestamp, 1_020);
    assert_eq!(start.attributes.suggested_fee_recipient, [3; 20]);
    assert_eq!(start.attributes.prev_randao, [4; 32]);
    assert_eq!(start.attributes.gas_limit, 30_000_000);
    assert_eq!(start.attributes.parent_beacon_block_root, Some([1; 32]));
    assert_eq!(*start.attributes.extra_data, vec![5, 6]);
    assert!(start.transactions.is_empty());
    let parent = trace.starts[1].parent.clone().unwrap();
    assert_eq!(parent.fields.number, 10);
    assert_eq!(trace.starts[1].attributes.timestamp, 1_022);
    assert_eq!(pending.latest_block_number(), 11);
    assert_eq!(pending.earliest_block_number(), 10);
    let group = vec![Arc::new(flashblock(10, 0, &[]))];
    let header = seal_block(&assemble_payload(&group).ok().unwrap()).ok().unwrap();
    assert_eq!(parent.hash, header.hash);
}

#[test]
fn the_canonical_block_is_before_the_earliest() {
    let flashblocks = vec![Arc::new(flashblock(12, 0, &[])), Arc::new(flashblock(11, 0, &[]))];
    let build = PendingStateBuild::new(None, flashblocks);
    assert_eq!(build.earliest_block_number(), 11);
    assert_eq!(build.canonical_block(), 10);
}

#[test]
fn known_transactions_are_not_executed_again() {
    let (a, b) = (signed(0), signed(1));
    let first = || flashblock(10, 0, &[(a.clone(), receipt_for(&a, 21_000, 0))]);
    let second = || flashblock(10, 1, &[(b.clone(), receipt_for(&b, 42_000, 0))]);
    let (prev, trace) = build_from(None, vec![first()]);
    assert_eq!(trace.executed, vec![hash(&a)]);
    let prev = prev.ok().unwrap();

    let (upon, trace) = build_from(Some(prev), vec![first(), second()]);
    assert_eq!(trace.executed, vec![hash(&b)]);
    let upon = upon.ok().unwrap();
    let (fresh, trace) = build_from(None, vec![first(), second()]);
    assert_eq!(trace.executed, vec![hash(&a), hash(&b)]);
    let fresh = fresh.ok().unwrap();

    assert_eq!(upon.latest_header().hash, fresh.latest_header().hash);
    assert_eq!(upon.transactions_for_block(10).len(), fresh.transactions_for_block(10).len());
    assert_eq!(upon.get_transaction_count([0; 20]), fresh.get_transaction_count([0; 20]));
    assert_eq!(
        upon.get_transaction_by_hash(hash(&a)).unwrap().inner.raw,
        fresh.get_transaction_by_hash(hash(&a)).unwrap().inner.raw
    );
}

#[test]
fn overrides_build_upon_the_previous_ones() {
    let (a, b) = (deposit(1), deposit(2));
    let first = || flashblock(10, 0, &[(a.clone(), receipt_for(&a, 1, 0))]);
    let second = || flashblock(10, 1, &[(b.clone(), receipt_for(&b, 2, 0))]);
    let (prev, _) = build_from(None, vec![first()]);
    let prev = prev.ok().unwrap();
    let overrides = prev.get_state_overrides().unwrap();
    assert_eq!(overrides.get(&[1; 20]).unwrap().nonce, Some(0));
    assert!(overrides.get(&[2; 20]).is_none());
    let (upon, _) = build_from(Some(prev), vec![first(), second()]);
    let overrides = upon.ok().unwrap().get_state_overrides().unwrap();
    assert_eq!(overrides.get(&[1; 20]).unwrap().nonce, Some(0));
    assert_eq!(overrides.get(&[2; 20]).unwrap().nonce, Some(1));
}

#[test]
fn the_last_balance_counts() {
    let mut first = flashblock(10, 0, &[]);
    first.metadata.new_account_balances.insert([1; 20], U256::from_u64(5));
    first.metadata.new_account_balances.insert([2; 20], U256::from_u64(6));
    let mut second = flashblock(10, 1, &[]);
    second.metadata.new_account_balances.insert([1; 20], U256::from_u64(7));
    let mut third = flashblock(11, 0, &[]);
    third.metadata.new_account_balances.insert([2; 20], U256::from_u64(8));
    let (pending, _) = build_from(None, vec![first, second, third]);
    let pending = pending.ok().unwrap();
    assert_eq!(pending.get_balance([1; 20]), Some(U256::from_u64(7)));
    assert_eq!(pending.get_balance([2; 20]), Some(U256::from_u64(8)));
    assert_eq!(pending.get_balance([3; 20]), None);
}

#[test]
fn processed_and_executed_transactions_are_reported() {
    let (a, b) = (signed(0), signed(1));
    let first = || flashblock(10, 0, &[(a.clone(), receipt_for(&a, 21_000, 0))]);
    let second = flashblock(
        11,
        0,
        &[(a.clone(), receipt_for(&a, 21_000, 0)), (b.clone(), receipt_for(&b, 42_000, 0))],
    );
    let (prev, _) = build_from(None, vec![first()]);
    let mut metrics = Metrics::default();
    let build = PendingStateBuild::new(
        prev.ok(),
        vec![Arc::new(first()), Arc::new(second)],
    );
    run(build, &mut metrics, &mut Trace::default()).ok().unwrap();
    assert_eq!(metrics.total_transactions_processed.samples(), &vec![1, 2]);
    assert_eq!(metrics.total_transactions_executed.samples(), &vec![0, 1]);
}

#[test]
fn a_block_needs_a_base() {
    let (result, _) = build_from(None, vec![flashblock(10, 1, &[])]);
    assert!(matches!(result, Err(BuildError::MissingBase)));
    let (result, _) = build_from(None, vec![flashblock(10, 0, &[]), flashblock(11, 1, &[])]);
    assert!(matches!(result, Err(BuildError::MissingBase)));
}

#[test]
fn a_payload_that_is_no_block_is_reported() {
    let mut broken = flashblock(10, 0, &[]);
    broken.diff.transactions.push(Arc::new(vec![0x7f]));
    let (result, _) = build_from(None, vec![broken]);
    assert!(matches!(result, Err(BuildError::Payload(_))));
}

#[test]
fn a_missing_receipt_is_reported() {
    let tx = signed(0);
    let mut incomplete = flashblock(10, 0, &[(tx.clone(), receipt_for(&tx, 1, 0))]);
    incomplete.metadata.receipts.clear();
    let (result, _) = build_from(None, vec![incomplete]);
    assert!(matches!(result, Err(BuildError::MissingReceipt(missing)) if missing == hash(&tx)));
}

#[test]
fn an_invalid_signature_is_reported() {
    let tx = TxEip1559 { chain_id: 8453, ..Default::default() };
    let high = Signature::from_scalars_and_parity([1; 32].into(), [0xee; 32].into(), false);
    let tx = OpTxEnvelope::Eip1559(tx.into_signed(high));
    let (result, _) =
        build_from(None, vec![flashblock(10, 0, &[(tx.clone(), receipt_for(&tx, 1, 0))])]);
    assert!(matches!(result, Err(BuildError::SignerRecovery(failed)) if failed == hash(&tx)));
}

#[test]
fn a_deposit_needs_a_deposit_receipt() {
    let tx = deposit(1);
    let receipt = Arc::new(OpReceipt::Legacy(plain_receipt(1, 0)));
    let (result, _) = build_from(None, vec![flashblock(10, 0, &[(tx.clone(), receipt)])]);
    assert!(matches!(result, Err(BuildError::NotDepositReceipt(failed)) if failed == hash(&tx)));
}

#[test]
fn decreasing_cumulative_gas_does_not_fit() {
    let (a, b) = (signed(0), signed(1));
    let flashblocks = vec![Arc::new(flashblock(
        10,
        0,
        &[(a.clone(), receipt_for(&a, 30_000, 0)), (b.clone(), receipt_for(&b, 29_999, 0))],
    ))];
    let mut build = PendingStateBuild::new(None, flashblocks);
    build.next_block().ok().unwrap().unwrap();
    assert!(build.counters_fit());
    let input = build.next_transaction().ok().unwrap().unwrap();
    assert!(build.add_transaction(reported_receipt(&input)).ok().unwrap());
    build.apply_state(&EvmState { accounts: vec![] });
    assert!(!build.counters_fit());
    assert!(build.try_next_transaction().is_none());
}

#[test]
fn an_invalid_signature_comes_before_the_counters() {
    let a = signed(0);
    let tx = TxEip1559 { chain_id: 8453, ..Default::default() };
    let high = Signature::from_scalars_and_parity([1; 32].into(), [0xee; 32].into(), false);
    let b = OpTxEnvelope::Eip1559(tx.into_signed(high));
    let (result, _) = build_from(
        None,
        vec![flashblock(
            10,
            0,
            &[(a.clone(), receipt_for(&a, 30_000, 0)), (b.clone(), receipt_for(&b, 29_999, 0))],
        )],
    );
    assert!(matches!(result, Err(BuildError::SignerRecovery(failed)) if failed == hash(&b)));
}

#[test]
fn all_kinds_of_receipts_are_read() {
    let receipts = vec![
        OpReceipt::Legacy(plain_receipt(1, 0)),
        OpReceipt::Eip2930(plain_receipt(2, 0)),
        OpReceipt::Eip1559(plain_receipt(3, 0)),
        OpReceipt::Eip7702(plain_receipt(4, 0)),
    ];
    for (i, receipt) in receipts.iter().enumerate() {
        assert_eq!(receipt.cumulative_gas_used(), 1 + i as u64);
        assert!(receipt.as_deposit_receipt().is_none());
    }
    let deposit_receipt = receipt_for(&deposit(1), 9, 3);
    assert_eq!(deposit_receipt.cumulative_gas_used(), 9);
    assert_eq!(deposit_receipt.as_receipt().logs.len(), 3);
    assert_eq!(deposit_receipt.as_deposit_receipt().unwrap().deposit_nonce, Some(40));
}

/// Processes a decision the way a node does.
fn carry_out(
    decision: Decision,
    trace: &mut Trace,
) -> Result<Option<Arc<PendingBlocks>>, BuildError> {
    match decision {
        Decision::Replace(pending) => Ok(pending),
        Decision::Build { prev_pending_blocks, flashblocks } => {
            let build = PendingStateBuild::new(prev_pending_blocks, flashblocks);
            run(build, &mut Metrics::default(), trace).map(Some)
        }
    }
}

fn places(pending: &PendingBlocks) -> Vec<(u64, u64)> {
    pending.flashblocks().iter().map(|f| (f.metadata.block_number, f.index)).collect()
}

#[test]
fn a_stream_of_flashblocks_is_followed() {
    let txs: Vec<OpTxEnvelope> = (0..4).map(signed).collect();
    let gas = [21_000, 42_000, 21_000, 21_000];
    let places_of_txs = [(10, 0), (10, 1), (11, 0), (12, 0)];
    let mut processor = StateProcessor::new();
    let mut trace = Trace::default();
    for i in 0..4 {
        let (number, index) = places_of_txs[i];
        let receipt = receipt_for(&txs[i], gas[i], 0);
        let decision =
            processor.process_flashblock(flashblock(number, index, &[(txs[i].clone(), receipt)]));
        let outcome = carry_out(decision, &mut trace);
        assert!(processor.finish_flashblock(outcome).is_some());
        let pending = processor.pending_blocks().unwrap();
        assert_eq!(pending.latest_block_number(), number);
        assert_eq!(pending.latest_flashblock_index(), index);
        assert_eq!(places(&pending), places_of_txs[..=i].to_vec());
    }
    let hashes: Vec<B256> = txs.iter().map(hash).collect();
    assert_eq!(trace.executed, hashes);

    let pending = processor.pending_blocks().unwrap();
    let in_block: Vec<B256> =
        pending.transactions_for_block(10).iter().map(|tx| tx.tx_hash()).collect();
    let block = CanonicalBlock { number: 10, transaction_hashes: in_block };
    let decision = processor.process_canonical_block(&block);
    let outcome = carry_out(decision, &mut trace);
    processor.finish_canonical_block(outcome);
    let pending = processor.pending_blocks().unwrap();
    assert_eq!(places(&pending), vec![(11, 0), (12, 0)]);
    assert_eq!(trace.executed, hashes);
    assert!(pending.get_transaction_by_hash(hashes[0]).is_none());
    assert!(pending.get_transaction_by_hash(hashes[3]).is_some());

    let block = CanonicalBlock { number: 11, transaction_hashes: vec![[0xee; 32]] };
    let decision = processor.process_canonical_block(&block);
    let outcome = carry_out(decision, &mut trace);
    processor.finish_canonical_block(outcome);
    let pending = processor.pending_blocks().unwrap();
    assert_eq!(places(&pending), vec![(12, 0)]);
    assert_eq!(trace.executed.len(), 5);
    assert_eq!(trace.executed[4], hashes[3]);
    assert_eq!(processor.take_metrics().pending_clear_reorg.count(), 1);
}

#[test]
fn building_again_builds_the_same_blocks() {
    let shuffled = vec![
        flashblock(11, 0, &[]),
        flashblock(10, 0, &[]),
        flashblock(11, 1, &[]),
        flashblock(10, 1, &[]),
    ];
    let (first, _) = build_from(None, shuffled);
    let first = first.ok().unwrap();
    assert_eq!(places(&first), vec![(10, 0), (10, 1), (11, 0), (11, 1)]);
    let build = PendingStateBuild::new(None, first.flashblocks());
    let again = run(build, &mut Metrics::default(), &mut Trace::default()).ok().unwrap();
    assert_eq!(places(&again), places(&first));
    assert_eq!(again.latest_header().hash, first.latest_header().hash);
}

fn header() -> SealedHeader {
    SealedHeader {
        hash: [7; 32],
        fields: HeaderFields {
            number: 10,
            timestamp: 1_020,
            base_fee_per_gas: Some(40),
            excess_blob_gas: Some(3),
        },
        rlp: Arc::new(vec![]),
    }
}

fn envelope(is_deposit: bool) -> TxEnvelope {
    TxEnvelope {
        raw: Arc::new(vec![1, 2, 3]),
        fields: TxFields {
            hash: [5; 32],
            is_deposit,
            max_fee_per_gas: 100,
            max_priority_fee_per_gas: Some(7),
        },
    }
}

#[test]
fn a_receipt_input_is_put_together() {
    let receipt = Arc::new(OpReceipt::Eip1559(plain_receipt(70_000, 2)));
    let input =
        make_receipt_input(&envelope(false), [6; 20], &receipt, &header(), 4, 45_000, 9);
    assert_eq!(input.gas_used, 25_000);
    assert_eq!(input.next_log_index, 9);
    assert_eq!(input.signer, [6; 20]);
    assert_eq!(input.meta.tx_hash, [5; 32]);
    assert_eq!(input.meta.index, 4);
    assert_eq!(input.meta.block_hash, [7; 32]);
    assert_eq!(input.meta.block_number, 10);
    assert_eq!(input.meta.base_fee, Some(40));
    assert_eq!(input.meta.excess_blob_gas, Some(3));
    assert_eq!(input.meta.timestamp, 1_020);
}

#[test]
fn a_transaction_is_put_together() {
    let plain = OpReceipt::Eip1559(plain_receipt(1, 0));
    let deposit_receipt = receipt_for(&deposit(1), 1, 0);
    let tx = make_transaction(&envelope(false), [6; 20], &plain, &header(), 4).ok().unwrap();
    assert_eq!(tx.tx_hash(), [5; 32]);
    assert_eq!(tx.effective_gas_price, Some(47));
    assert_eq!(tx.deposit_nonce, None);
    let tx = make_transaction(&envelope(false), [6; 20], &deposit_receipt, &header(), 4);
    assert_eq!(tx.ok().unwrap().deposit_nonce, None);
    let tx = make_transaction(&envelope(true), [6; 20], &deposit_receipt, &header(), 4);
    let tx = tx.ok().unwrap();
    assert_eq!(tx.effective_gas_price, Some(0));
    assert_eq!(tx.deposit_nonce, Some(40));
    assert_eq!(tx.deposit_receipt_version, Some(1));
    let failed = make_transaction(&envelope(true), [6; 20], &plain, &header(), 4);
    assert!(matches!(failed, Err(BuildError::NotDepositReceipt(hash)) if hash == [5; 32]));
}

#[test]
fn a_transaction_needs_a_signer_and_a_receipt() {
    let receipt = Arc::new(OpReceipt::Legacy(plain_receipt(3, 0)));
    let parts = require_parts([5; 32], Some([6; 20]), Some(&receipt)).ok().unwrap();
    assert_eq!(parts.0, [6; 20]);
    assert!(Arc::ptr_eq(&parts.1, &receipt));
    let unsigned = require_parts([5; 32], None, Some(&receipt));
    assert!(matches!(unsigned, Err(BuildError::SignerRecovery(hash)) if hash == [5; 32]));
    let unsigned = require_parts([5; 32], None, None);
    assert!(matches!(unsigned, Err(BuildError::SignerRecovery(_))));
    let missing = require_parts([5; 32], Some([6; 20]), None);
    assert!(matches!(missing, Err(BuildError::MissingReceipt(hash)) if hash == [5; 32]));
}
