use std::sync::Arc;

use alloy_primitives::map::foldhash::{HashMap, HashMapExt};
use flashblocks_rpc::flashblock::{ExecutionPayloadFlashblockDeltaV1, Flashblock, Metadata};
use flashblocks_rpc::payload::{HeaderFields, SealedHeader};
use flashblocks_rpc::pending_blocks::{PendingBlocks, PendingBlocksBuilder};
use flashblocks_rpc::state::{CanonicalBlock, Decision, StateProcessor};
use flashblocks_rpc::transaction::{Transaction, TxEnvelope, TxFields};

fn flashblock(number: u64, index: u64) -> Flashblock {
    Flashblock {
        payload_id: [0; 8],
        index,
        base: None,
        diff: ExecutionPayloadFlashblockDeltaV1 {
            state_root: [0; 32],
            receipts_root: [0; 32],
            logs_bloom: [0; 256],
            gas_used: 0,
            block_hash: [0; 32],
            transactions: vec![],
            withdrawals: vec![],
            withdrawals_root: [0; 32],
        },
        metadata: Metadata {
            receipts: HashMap::new(),
            new_account_balances: HashMap::new(),
            block_number: number,
        },
    }
}

fn transaction(hash: u8, number: u64) -> Arc<Transaction> {
    Arc::new(Transaction {
        inner: TxEnvelope {
            raw: Arc::new(vec![hash]),
            fields: TxFields {
                hash: [hash; 32],
                is_deposit: false,
                max_fee_per_gas: 0,
                max_priority_fee_per_gas: None,
            },
        },
        signer: [0; 20],
        block_hash: None,
        block_number: Some(number),
        transaction_index: None,
        effective_gas_price: None,
        deposit_nonce: None,
        deposit_receipt_version: None,
    })
}

/// A pending state with the given flashblocks, and with transactions given by hash and block.
fn pending(places: &[(u64, u64)], transactions: &[(u8, u64)]) -> Arc<PendingBlocks> {
    let mut builder = PendingBlocksBuilder::new();
    let mut numbers: Vec<u64> = places.iter().map(|place| place.0).collect();
    numbers.dedup();
    for number in numbers {
        builder.with_header(SealedHeader {
            hash: [number as u8; 32],
            fields: HeaderFields {
                number,
                timestamp: 0,
                base_fee_per_gas: None,
                excess_blob_gas: None,
            },
            rlp: Arc::new(vec![]),
        });
    }
    builder.with_flashblocks(places.iter().map(|(n, i)| Arc::new(flashblock(*n, *i))).collect());
    for (hash, number) in transactions {
        builder.with_transaction(transaction(*hash, *number));
    }
    Arc::new(builder.build().ok().unwrap())
}

/// A processor with the given state pending.
fn processor(pending: Arc<PendingBlocks>) -> StateProcessor {
    let mut processor = StateProcessor::new();
    processor.finish_canonical_block::<()>(Ok(Some(pending)));
    processor.take_metrics();
    processor
}

fn places(flashblocks: &[Arc<Flashblock>]) -> Vec<(u64, u64)> {
    flashblocks.iter().map(|f| (f.metadata.block_number, f.index)).collect()
}

fn canonical(number: u64, hashes: &[u8]) -> CanonicalBlock {
    CanonicalBlock {
        number,
        transaction_hashes: hashes.iter().map(|hash| [*hash; 32]).collect(),
    }
}

#[test]
fn nothing_is_pending_at_first() {
    let mut processor = StateProcessor::new();
    assert!(processor.pending_blocks().is_none());
    let decision = processor.process_canonical_block(&canonical(10, &[]));
    assert!(matches!(decision, Decision::Replace(None)));
    assert!(processor.take_metrics().flashblocks_in_block.samples().is_empty());
}

#[test]
fn the_first_flashblock_of_a_block_is_built_from() {
    let mut processor = StateProcessor::new();
    match processor.process_flashblock(flashblock(10, 0)) {
        Decision::Build { prev_pending_blocks, flashblocks } => {
            assert!(prev_pending_blocks.is_none());
            assert_eq!(places(&flashblocks), vec![(10, 0)]);
        }
        Decision::Replace(_) => panic!("not built"),
    }
}

#[test]
fn other_first_flashblocks_are_waited_out() {
    let mut processor = StateProcessor::new();
    let decision = processor.process_flashblock(flashblock(10, 1));
    assert!(matches!(decision, Decision::Replace(None)));
    assert_eq!(processor.take_metrics().unexpected_block_order.count(), 0);
}

#[test]
fn the_next_flashblock_is_built_upon_what_is_pending() {
    let state = pending(&[(10, 0), (10, 1)], &[]);
    let mut processor = processor(state.clone());
    match processor.process_flashblock(flashblock(10, 2)) {
        Decision::Build { prev_pending_blocks, flashblocks } => {
            assert!(Arc::ptr_eq(&prev_pending_blocks.unwrap(), &state));
            assert_eq!(places(&flashblocks), vec![(10, 0), (10, 1), (10, 2)]);
        }
        Decision::Replace(_) => panic!("not built"),
    }
    match processor.process_flashblock(flashblock(11, 0)) {
        Decision::Build { prev_pending_blocks, flashblocks } => {
            assert!(Arc::ptr_eq(&prev_pending_blocks.unwrap(), &state));
            assert_eq!(places(&flashblocks), vec![(10, 0), (10, 1), (11, 0)]);
        }
        Decision::Replace(_) => panic!("not built"),
    }
    assert_eq!(processor.take_metrics().unexpected_block_order.count(), 0);
}

#[test]
fn next_flashblocks_are_told_apart() {
    let state = pending(&[(10, 0), (10, 1)], &[]);
    let next = |n: u64, i: u64| StateProcessor::is_next_flashblock(&state, &flashblock(n, i));
    assert!(next(10, 2));
    assert!(next(11, 0));
    assert!(!next(10, 1));
    assert!(!next(10, 3));
    assert!(!next(10, 0));
    assert!(!next(11, 1));
    assert!(!next(12, 0));
    assert!(!next(9, 2));
    assert!(!next(0, 0));
}

#[test]
fn the_largest_numbers_have_no_next() {
    let state = pending(&[(u64::MAX, u64::MAX)], &[]);
    let next = |n: u64, i: u64| StateProcessor::is_next_flashblock(&state, &flashblock(n, i));
    assert!(!next(u64::MAX, 0));
    assert!(!next(0, 0));
}

#[test]
fn a_duplicate_flashblock_changes_nothing() {
    let state = pending(&[(10, 0), (10, 1)], &[]);
    let mut processor = processor(state.clone());
    match processor.process_flashblock(flashblock(10, 1)) {
        Decision::Replace(Some(kept)) => assert!(Arc::ptr_eq(&kept, &state)),
        _ => panic!("not kept"),
    }
    assert_eq!(processor.take_metrics().unexpected_block_order.count(), 1);
}

#[test]
fn an_unexpected_flashblock_drops_what_is_pending() {
    for (number, index) in [(10, 3), (10, 0), (11, 1), (12, 0), (9, 0)] {
        let mut processor = processor(pending(&[(10, 0), (10, 1)], &[]));
        let decision = processor.process_flashblock(flashblock(number, index));
        assert!(matches!(decision, Decision::Replace(None)));
        assert_eq!(processor.take_metrics().unexpected_block_order.count(), 1);
    }
}

#[test]
fn a_canonical_block_that_caught_up_drops_what_is_pending() {
    for number in [11, 12] {
        let mut processor = processor(pending(&[(10, 0), (11, 0), (11, 1), (11, 2)], &[]));
        let decision = processor.process_canonical_block(&canonical(number, &[]));
        assert!(matches!(decision, Decision::Replace(None)));
        let metrics = processor.take_metrics();
        assert_eq!(metrics.pending_clear_catchup.count(), 1);
        assert_eq!(metrics.pending_clear_reorg.count(), 0);
        assert_eq!(metrics.pending_snapshot_height.value(), Some(11));
        assert_eq!(metrics.pending_snapshot_fb_index.value(), Some(2));
        let in_block = if number == 11 { 3 } else { 0 };
        assert_eq!(metrics.flashblocks_in_block.samples(), &vec![in_block]);
    }
}

#[test]
fn a_canonical_block_that_was_pending_leaves_the_later_ones() {
    let state = pending(&[(10, 0), (10, 1), (11, 0)], &[(1, 10), (2, 10), (3, 11)]);
    let mut processor = processor(state.clone());
    match processor.process_canonical_block(&canonical(10, &[2, 1])) {
        Decision::Build { prev_pending_blocks, flashblocks } => {
            assert!(Arc::ptr_eq(&prev_pending_blocks.unwrap(), &state));
            assert_eq!(places(&flashblocks), vec![(11, 0)]);
        }
        Decision::Replace(_) => panic!("not built"),
    }
    let metrics = processor.take_metrics();
    assert_eq!(metrics.flashblocks_in_block.samples(), &vec![2]);
    assert_eq!(metrics.pending_clear_reorg.count(), 0);
    assert_eq!(metrics.pending_clear_catchup.count(), 0);
    assert_eq!(metrics.pending_snapshot_height.value(), None);
}

#[test]
fn a_reorg_is_built_from_scratch() {
    for hashes in [&[1u8][..], &[1, 2, 3], &[1, 4], &[]] {
        let mut processor =
            processor(pending(&[(10, 0), (11, 0), (11, 1)], &[(1, 10), (2, 10), (3, 11)]));
        match processor.process_canonical_block(&canonical(10, hashes)) {
            Decision::Build { prev_pending_blocks, flashblocks } => {
                assert!(prev_pending_blocks.is_none());
                assert_eq!(places(&flashblocks), vec![(11, 0), (11, 1)]);
            }
            Decision::Replace(_) => panic!("not built"),
        }
        assert_eq!(processor.take_metrics().pending_clear_reorg.count(), 1);
    }
}

#[test]
fn an_earlier_canonical_block_without_transactions_keeps_all() {
    let state = pending(&[(10, 0), (11, 0)], &[(1, 10)]);
    let mut processor = processor(state);
    match processor.process_canonical_block(&canonical(9, &[])) {
        Decision::Build { prev_pending_blocks, flashblocks } => {
            assert!(prev_pending_blocks.is_some());
            assert_eq!(places(&flashblocks), vec![(10, 0), (11, 0)]);
        }
        Decision::Replace(_) => panic!("not built"),
    }
}

#[test]
fn a_flashblock_that_was_built_is_announced() {
    let state = pending(&[(10, 0)], &[]);
    let mut processor = StateProcessor::new();
    let announced = processor.finish_flashblock::<()>(Ok(Some(state.clone())));
    assert!(Arc::ptr_eq(&announced.unwrap(), &state));
    assert!(Arc::ptr_eq(&processor.pending_blocks().unwrap(), &state));
    assert!(processor.finish_flashblock::<()>(Ok(None)).is_none());
    assert!(processor.pending_blocks().is_none());
}

#[test]
fn the_gauges_show_the_current_state() {
    let mut processor = StateProcessor::new();
    processor.finish_flashblock::<()>(Ok(Some(pending(&[(10, 0), (10, 1)], &[]))));
    let metrics = processor.take_metrics();
    assert_eq!(metrics.pending_snapshot_height.value(), Some(10));
    assert_eq!(metrics.pending_snapshot_fb_index.value(), Some(1));
    processor.finish_canonical_block::<()>(Ok(Some(pending(&[(12, 0), (12, 4)], &[]))));
    let metrics = processor.take_metrics();
    assert_eq!(metrics.pending_snapshot_height.value(), Some(12));
    assert_eq!(metrics.pending_snapshot_fb_index.value(), Some(4));
    processor.finish_canonical_block::<()>(Ok(None));
    processor.finish_flashblock::<()>(Ok(None));
    processor.finish_flashblock(Err("failed"));
    let metrics = processor.take_metrics();
    assert_eq!(metrics.pending_snapshot_height.value(), None);
    assert_eq!(metrics.pending_snapshot_fb_index.value(), None);
}

#[test]
fn a_failure_leaves_the_pending_state() {
    let state = pending(&[(10, 0)], &[]);
    let mut processor = processor(state.clone());
    assert!(processor.finish_flashblock(Err("failed")).is_none());
    assert!(Arc::ptr_eq(&processor.pending_blocks().unwrap(), &state));
    processor.finish_canonical_block(Err("failed"));
    assert!(Arc::ptr_eq(&processor.pending_blocks().unwrap(), &state));
    assert_eq!(processor.take_metrics().block_processing_error.count(), 1);
    assert_eq!(processor.take_metrics().block_processing_error.count(), 0);
}

#[test]
fn the_last_success_is_pending_and_flashblocks_are_announced_in_order() {
    let states: Vec<Arc<PendingBlocks>> = (0..3).map(|i| pending(&[(10 + i, 0)], &[])).collect();
    let mut processor = StateProcessor::new();
    let mut announced: Vec<Arc<PendingBlocks>> = vec![];
    announced.extend(processor.finish_flashblock::<()>(Ok(Some(states[0].clone()))));
    announced.extend(processor.finish_flashblock(Err("failed")));
    processor.finish_canonical_block::<()>(Ok(Some(states[1].clone())));
    announced.extend(processor.finish_flashblock::<()>(Ok(Some(states[2].clone()))));
    processor.finish_canonical_block(Err("failed"));
    announced.extend(processor.finish_flashblock(Err("failed")));
    assert!(Arc::ptr_eq(&processor.pending_blocks().unwrap(), &states[2]));
    assert_eq!(announced.len(), 2);
    assert!(Arc::ptr_eq(&announced[0], &states[0]));
    assert!(Arc::ptr_eq(&announced[1], &states[2]));
    processor.finish_canonical_block::<()>(Ok(None));
    processor.finish_canonical_block(Err("failed"));
    assert!(processor.pending_blocks().is_none());
}

#[test]
fn nothing_becomes_pending_without_a_first_flashblock() {
    let mut processor = StateProcessor::new();
    for number in 10..13 {
        match processor.process_canonical_block(&canonical(number, &[1])) {
            Decision::Replace(state) => processor.finish_canonical_block::<()>(Ok(state)),
            Decision::Build { .. } => panic!("built"),
        }
        assert!(processor.pending_blocks().is_none());
        for index in [1, 2, u64::MAX] {
            let announced = match processor.process_flashblock(flashblock(number, index)) {
                Decision::Replace(state) => processor.finish_flashblock::<()>(Ok(state)),
                Decision::Build { .. } => panic!("built"),
            };
            assert!(announced.is_none());
            assert!(processor.pending_blocks().is_none());
        }
    }
    let decision = processor.process_flashblock(flashblock(13, 0));
    assert!(matches!(decision, Decision::Build { .. }));
}

#[test]
fn a_default_flashblock_is_blank() {
    assert_eq!(Flashblock::default(), flashblock(0, 0));
    assert!(Metadata::default().receipts.is_empty());
    assert!(Metadata::default().new_account_balances.is_empty());
    assert_eq!(Metadata::default().block_number, 0);
}
