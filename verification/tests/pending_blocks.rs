use std::sync::Arc;

use flashblocks_rpc::error::BuildError;
use flashblocks_rpc::flashblock::{ExecutionPayloadFlashblockDeltaV1, Flashblock, Metadata};
use flashblocks_rpc::overrides::{AccountOverride, EvmState, StateOverride};
use flashblocks_rpc::payload::{HeaderFields, SealedHeader};
use flashblocks_rpc::pending_blocks::{
    BlockNumberOrTag, BlockTransactions, PendingBlocks, PendingBlocksBuilder,
};
use flashblocks_rpc::primitives::U256;
use flashblocks_rpc::receipt::{
    Eip658Value, Filter, L1BlockInfo, Log, OpReceiptType, OpTransactionReceipt, RpcLog,
};
use flashblocks_rpc::snapshot::Snapshot;
use flashblocks_rpc::transaction::{Transaction, TxEnvelope, TxFields};

use alloy_primitives::map::foldhash::{HashMap, HashMapExt};

fn flashblock(number: u64, index: u64) -> Arc<Flashblock> {
    Arc::new(Flashblock {
        payload_id: [0; 8],
        index,
        base: None,
        diff: ExecutionPayloadFlashblockDeltaV1 {
            state_root: [0; 32],
            receipts_root: [0; 32],
            logs_bloom: [0; 256],
            gas_used: 0,
            block_hash: [0; 32],
            transactions: vec![],
            withdrawals: vec![],
            withdrawals_root: [0; 32],
        },
        metadata: Metadata {
            receipts: HashMap::new(),
            new_account_balances: HashMap::new(),
            block_number: number,
        },
    })
}

fn header(number: u64) -> SealedHeader {
    SealedHeader {
        hash: [number as u8; 32],
        fields: HeaderFields {
            number,
            timestamp: 2 * number,
            base_fee_per_gas: Some(1),
            excess_blob_gas: Some(0),
        },
        rlp: Arc::new(vec![]),
    }
}

fn transaction(hash: u8, number: Option<u64>, index: u64) -> Arc<Transaction> {
    Arc::new(Transaction {
        inner: TxEnvelope {
            raw: Arc::new(vec![hash]),
            fields: TxFields {
                hash: [hash; 32],
                is_deposit: false,
                max_fee_per_gas: 0,
                max_priority_fee_per_gas: None,
            },
        },
        signer: [0; 20],
        block_hash: None,
        block_number: number,
        transaction_index: Some(index),
        effective_gas_price: None,
        deposit_nonce: None,
        deposit_receipt_version: None,
    })
}

fn log(address: u8, topics: &[u8]) -> Arc<RpcLog> {
    Arc::new(RpcLog {
        inner: Arc::new(Log {
            address: [address; 20],
            topics: topics.iter().map(|topic| [*topic; 32]).collect(),
            data: Arc::new(vec![address]),
        }),
        block_hash: None,
        block_number: None,
        block_timestamp: None,
        transaction_hash: None,
        transaction_index: None,
        log_index: None,
        removed: false,
    })
}

fn receipt(hash: u8, logs: Vec<Arc<RpcLog>>) -> Arc<OpTransactionReceipt> {
    Arc::new(OpTransactionReceipt {
        receipt_type: OpReceiptType::Eip1559,
        status: Eip658Value::Eip658(true),
        cumulative_gas_used: 0,
        logs,
        logs_bloom: [0; 256],
        transaction_hash: [hash; 32],
        transaction_index: None,
        block_hash: None,
        block_number: None,
        gas_used: 0,
        effective_gas_price: 0,
        blob_gas_used: None,
        blob_gas_price: None,
        from: [0; 20],
        to: None,
        contract_address: None,
        l1_block_info: L1BlockInfo {
            l1_gas_price: None,
            l1_gas_used: None,
            l1_fee: None,
            l1_fee_scalar_bits: None,
            l1_base_fee_scalar: None,
            l1_blob_base_fee: None,
            l1_blob_base_fee_scalar: None,
            operator_fee_scalar: None,
            operator_fee_constant: None,
        },
    })
}

fn filter(addresses: &[u8], topics: [&[u8]; 4]) -> Filter {
    Filter {
        address: addresses.iter().map(|address| [*address; 20]).collect(),
        topics: topics.map(|topics| topics.iter().map(|topic| [*topic; 32]).collect()),
    }
}

fn two_blocks() -> PendingBlocksBuilder {
    let mut builder = PendingBlocksBuilder::new();
    builder.with_header(header(10)).with_header(header(11));
    builder.with_flashblocks(vec![flashblock(10, 0), flashblock(10, 1)]);
    builder.with_flashblocks(vec![flashblock(11, 0)]);
    builder
        .with_transaction_and_receipt(transaction(1, Some(10), 0), receipt(1, vec![]))
        .with_transaction_and_receipt(transaction(2, Some(11), 0), receipt(2, vec![]))
        .with_transaction_and_receipt(transaction(3, Some(11), 1), receipt(3, vec![]));
    builder
}

#[test]
fn build_needs_headers() {
    let mut builder = PendingBlocksBuilder::new();
    builder.with_flashblocks(vec![flashblock(10, 0)]);
    assert!(matches!(builder.build(), Err(BuildError::MissingHeaders)));
    assert!(matches!(PendingBlocksBuilder::new().build(), Err(BuildError::MissingHeaders)));
}

#[test]
fn build_needs_flashblocks() {
    let mut builder = PendingBlocksBuilder::new();
    builder.with_header(header(10));
    assert!(matches!(builder.build(), Err(BuildError::NoFlashblocks)));
}

#[test]
fn the_ends_are_reported() {
    let pending = two_blocks().build().ok().unwrap();
    assert_eq!(pending.latest_block_number(), 11);
    assert_eq!(pending.earliest_block_number(), 10);
    assert!(matches!(pending.canonical_block_number(), BlockNumberOrTag::Number(9)));
    assert_eq!(pending.latest_flashblock_index(), 0);
    assert_eq!(pending.latest_header().hash, [11; 32]);
    let places: Vec<(u64, u64)> =
        pending.flashblocks().iter().map(|f| (f.metadata.block_number, f.index)).collect();
    assert_eq!(places, vec![(10, 0), (10, 1), (11, 0)]);
}

#[test]
fn transactions_are_found_by_hash() {
    let pending = two_blocks().build().ok().unwrap();
    for hash in 1u8..=3 {
        assert_eq!(pending.get_transaction_by_hash([hash; 32]).unwrap().tx_hash(), [hash; 32]);
        assert_eq!(pending.get_receipt([hash; 32]).unwrap().transaction_hash, [hash; 32]);
    }
    assert!(pending.get_transaction_by_hash([4; 32]).is_none());
    assert!(pending.get_receipt([4; 32]).is_none());
}

#[test]
fn the_last_transaction_with_a_hash_is_found() {
    let mut builder = two_blocks();
    builder.with_transaction(transaction(1, Some(12), 5));
    let pending = builder.build().ok().unwrap();
    assert_eq!(pending.get_transaction_by_hash([1; 32]).unwrap().transaction_index, Some(5));
}

#[test]
fn transactions_are_listed_by_block() {
    let mut builder = two_blocks();
    builder.with_transaction(transaction(4, None, 0));
    let pending = builder.build().ok().unwrap();
    let hashes = |number: u64| -> Vec<u8> {
        pending.transactions_for_block(number).iter().map(|tx| tx.tx_hash()[0]).collect()
    };
    assert_eq!(hashes(10), vec![1]);
    assert_eq!(hashes(11), vec![2, 3]);
    assert!(hashes(12).is_empty());
}

#[test]
fn the_latest_block_is_reported() {
    let pending = two_blocks().build().ok().unwrap();
    let full = pending.get_latest_block(true);
    assert_eq!(full.header.fields.number, 11);
    assert!(full.uncles.is_empty());
    assert!(full.withdrawals.is_none());
    match full.transactions {
        BlockTransactions::Full(transactions) => {
            let hashes: Vec<u8> = transactions.iter().map(|tx| tx.tx_hash()[0]).collect();
            assert_eq!(hashes, vec![2, 3]);
        }
        BlockTransactions::Hashes(_) => panic!("only hashes"),
    }
    match pending.get_latest_block(false).transactions {
        BlockTransactions::Hashes(hashes) => assert_eq!(hashes, vec![[2; 32], [3; 32]]),
        BlockTransactions::Full(_) => panic!("not only hashes"),
    }
}

#[test]
fn transactions_are_counted_by_sender() {
    let mut builder = two_blocks();
    builder.increment_nonce([1; 20]);
    builder.increment_nonce([2; 20]);
    builder.increment_nonce([1; 20]);
    let pending = builder.build().ok().unwrap();
    assert_eq!(pending.get_transaction_count([1; 20]), U256::from_u64(2));
    assert_eq!(pending.get_transaction_count([2; 20]), U256::from_u64(1));
    assert_eq!(pending.get_transaction_count([3; 20]), U256::from_u64(0));
}

#[test]
fn balances_are_reported() {
    let mut builder = two_blocks();
    builder.with_account_balance([1; 20], U256::from_u64(5));
    let mut balances = HashMap::new();
    balances.insert([1u8; 20], U256::from_u64(6));
    balances.insert([2u8; 20], U256::from_u64(7));
    builder.with_account_balances(&balances);
    let pending = builder.build().ok().unwrap();
    assert_eq!(pending.get_balance([1; 20]), Some(U256::from_u64(6)));
    assert_eq!(pending.get_balance([2; 20]), Some(U256::from_u64(7)));
    assert_eq!(pending.get_balance([3; 20]), None);
}

#[test]
fn states_and_overrides_are_kept() {
    let mut builder = two_blocks();
    builder.with_transaction_state([1; 32], Arc::new(EvmState { accounts: vec![] }));
    let mut overrides = StateOverride::default();
    overrides.insert([1; 20], AccountOverride::default());
    builder.with_state_overrides(overrides);
    let pending = builder.build().ok().unwrap();
    assert!(pending.get_transaction_state([1; 32]).is_some());
    assert!(pending.get_transaction_state([2; 32]).is_none());
    let overrides = pending.get_state_overrides().unwrap();
    assert!(overrides.get(&[1; 20]).is_some());
    assert!(overrides.get(&[2; 20]).is_none());
    assert!(two_blocks().build().ok().unwrap().get_state_overrides().is_none());
}

#[test]
fn the_cache_is_carried_along() {
    let mut cache = revm_database::Cache::default();
    cache.logs.push(Default::default());
    let mut builder = two_blocks();
    builder.with_db_cache(Arc::new(cache));
    let pending = builder.build().ok().unwrap();
    assert_eq!(pending.get_db_cache().logs.len(), 1);
    let untouched = two_blocks().build().ok().unwrap().get_db_cache();
    assert!(untouched.accounts.is_empty());
    assert!(untouched.logs.is_empty());
}

fn with_logs() -> PendingBlocks {
    let mut builder = two_blocks();
    builder.with_receipt([1; 32], receipt(1, vec![log(1, &[10, 20]), log(2, &[10])]));
    builder.with_receipt([2; 32], receipt(2, vec![log(1, &[]), log(3, &[11, 20, 30, 40])]));
    builder.build().ok().unwrap()
}

fn emitters(pending: &PendingBlocks, filter: &Filter) -> Vec<u8> {
    let mut emitters: Vec<u8> =
        pending.get_pending_logs(filter).iter().map(|log| log.inner.address[0]).collect();
    emitters.sort();
    emitters
}

#[test]
fn an_empty_filter_selects_all_logs() {
    let pending = with_logs();
    assert_eq!(emitters(&pending, &filter(&[], [&[], &[], &[], &[]])), vec![1, 1, 2, 3]);
}

#[test]
fn logs_are_selected_by_address() {
    let pending = with_logs();
    assert_eq!(emitters(&pending, &filter(&[1], [&[], &[], &[], &[]])), vec![1, 1]);
    assert_eq!(emitters(&pending, &filter(&[2, 3], [&[], &[], &[], &[]])), vec![2, 3]);
    assert!(emitters(&pending, &filter(&[4], [&[], &[], &[], &[]])).is_empty());
}

#[test]
fn logs_are_selected_by_topic() {
    let pending = with_logs();
    assert_eq!(emitters(&pending, &filter(&[], [&[10], &[], &[], &[]])), vec![1, 2]);
    assert_eq!(emitters(&pending, &filter(&[], [&[10, 11], &[], &[], &[]])), vec![1, 2, 3]);
    assert_eq!(emitters(&pending, &filter(&[], [&[], &[20], &[], &[]])), vec![1, 3]);
    assert_eq!(emitters(&pending, &filter(&[], [&[], &[], &[], &[40]])), vec![3]);
    assert_eq!(emitters(&pending, &filter(&[1], [&[11], &[], &[], &[]])), Vec::<u8>::new());
}

#[test]
fn a_log_with_five_topics_is_not_selected() {
    let mut builder = two_blocks();
    builder.with_receipt([1; 32], receipt(1, vec![log(1, &[1, 2, 3, 4, 5])]));
    let pending = builder.build().ok().unwrap();
    assert!(emitters(&pending, &filter(&[], [&[], &[], &[], &[]])).is_empty());
}

#[test]
fn logs_of_a_transaction_stay_together_and_in_order() {
    let pending = with_logs();
    let logs = pending.get_pending_logs(&filter(&[], [&[], &[], &[], &[]]));
    let order: Vec<u8> = logs.iter().map(|log| log.inner.address[0]).collect();
    assert!(order == vec![1, 2, 1, 3] || order == vec![1, 3, 1, 2]);
}

#[test]
fn a_snapshot_of_nothing_has_defaults() {
    let snapshot = Snapshot::new(None);
    assert!(snapshot.pending_blocks().is_none());
    assert!(matches!(snapshot.get_canonical_block_number(), BlockNumberOrTag::Latest));
    assert_eq!(snapshot.get_transaction_count([1; 20]), U256::from_u64(0));
    assert!(snapshot.get_block(true).is_none());
    assert!(snapshot.get_transaction_receipt([1; 32]).is_none());
    assert!(snapshot.get_transaction_by_hash([1; 32]).is_none());
    assert!(snapshot.get_balance([1; 20]).is_none());
    assert!(snapshot.get_state_overrides().is_none());
    assert!(snapshot.get_pending_logs(&filter(&[], [&[], &[], &[], &[]])).is_empty());
}

#[test]
fn a_snapshot_reads_the_pending_state() {
    let mut builder = two_blocks();
    builder.increment_nonce([1; 20]);
    builder.with_account_balance([1; 20], U256::from_u64(5));
    builder.with_receipt([1; 32], receipt(1, vec![log(1, &[])]));
    builder.with_state_overrides(StateOverride::default());
    let snapshot = Snapshot::new(Some(Arc::new(builder.build().ok().unwrap())));
    assert_eq!(snapshot.pending_blocks().unwrap().latest_block_number(), 11);
    assert!(matches!(snapshot.get_canonical_block_number(), BlockNumberOrTag::Number(9)));
    assert_eq!(snapshot.get_transaction_count([1; 20]), U256::from_u64(1));
    assert_eq!(snapshot.get_block(false).unwrap().header.fields.number, 11);
    assert!(snapshot.get_transaction_receipt([1; 32]).is_some());
    assert!(snapshot.get_transaction_by_hash([2; 32]).is_some());
    assert_eq!(snapshot.get_balance([1; 20]), Some(U256::from_u64(5)));
    assert!(snapshot.get_state_overrides().is_some());
    assert_eq!(snapshot.get_pending_logs(&filter(&[], [&[], &[], &[], &[]])).len(), 1);
}
