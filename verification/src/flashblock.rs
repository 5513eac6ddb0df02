//! Flashblocks: the parts in which a block is streamed before it is complete.

use std::sync::Arc;

use alloy_primitives::map::foldhash::HashMap;
use vstd::prelude::*;

use crate::map::map_new;
use crate::primitives::{Address, Bloom, Bytes, B256, U256};
use crate::receipt::OpReceipt;

verus! {

/// A withdrawal: its index, the index of its validator, the address it goes to and its amount.
pub type Withdrawal = (u64, u64, Address, u64);

/// What the first flashblock of a block fixes for the whole block.
#[derive(Debug, PartialEq)]
pub struct ExecutionPayloadBaseV1 {
    pub parent_beacon_block_root: B256,
    pub parent_hash: B256,
    pub fee_recipient: Address,
    pub prev_randao: B256,
    pub block_number: u64,
    pub gas_limit: u64,
    pub timestamp: u64,
    pub extra_data: Bytes,
    pub base_fee_per_gas: U256,
}

impl Clone for ExecutionPayloadBaseV1 {
    fn clone(&self) -> (r: Self)
        ensures
            r == *self,
    {
        ExecutionPayloadBaseV1 {
            parent_beacon_block_root: self.parent_beacon_block_root,
            parent_hash: self.parent_hash,
            fee_recipient: self.fee_recipient,
            prev_randao: self.prev_randao,
            block_number: self.block_number,
            gas_limit: self.gas_limit,
            timestamp: self.timestamp,
            extra_data: self.extra_data.clone(),
            base_fee_per_gas: self.base_fee_per_gas,
        }
    }
}

/// What a flashblock adds to its block, and the block's roots and totals once it is added.
#[derive(Clone, Debug, PartialEq)]
pub struct ExecutionPayloadFlashblockDeltaV1 {
    pub state_root: B256,
    pub receipts_root: B256,
    pub logs_bloom: Bloom,
    pub gas_used: u64,
    pub block_hash: B256,
    /// The encoded transactions that the flashblock adds.
    pub transactions: Vec<Bytes>,
    /// The withdrawals that the flashblock adds.
    pub withdrawals: Vec<Withdrawal>,
    pub withdrawals_root: B256,
}

/// A string of zero bytes.
pub open spec fn zeros(len: nat) -> Seq<u8> {
    Seq::new(len, |i: int| 0u8)
}

impl ExecutionPayloadFlashblockDeltaV1 {
    /// Whether this adds nothing, and holds zeros for every root and total.
    pub open spec fn is_blank(&self) -> bool {
        &&& self.state_root@ == zeros(32)
        &&& self.receipts_root@ == zeros(32)
        &&& self.logs_bloom@ == zeros(256)
        &&& self.gas_used == 0
        &&& self.block_hash@ == zeros(32)
        &&& self.transactions@ == Seq::<Bytes>::empty()
        &&& self.withdrawals@ == Seq::<Withdrawal>::empty()
        &&& self.withdrawals_root@ == zeros(32)
    }
}

impl Default for ExecutionPayloadFlashblockDeltaV1 {
    /// A delta that adds nothing.
    fn default() -> (r: Self)
        ensures
            r.is_blank(),
    {
        let r = ExecutionPayloadFlashblockDeltaV1 {
            state_root: [0; 32],
            receipts_root: [0; 32],
            logs_bloom: [0; 256],
            gas_used: 0,
            block_hash: [0; 32],
            transactions: Vec::new(),
            withdrawals: Vec::new(),
            withdrawals_root: [0; 32],
        };
        assert(r.state_root@ == zeros(32));
        assert(r.receipts_root@ == zeros(32));
        assert(r.logs_bloom@ == zeros(256));
        assert(r.block_hash@ == zeros(32));
        assert(r.withdrawals_root@ == zeros(32));
        r
    }
}

/// Additional data that comes with a flashblock.
#[derive(Clone, Debug, PartialEq)]
pub struct Metadata {
    /// The receipts of the flashblock's transactions, by transaction hash.
    pub receipts: HashMap<B256, Arc<OpReceipt>>,
    /// The balances of the accounts that the flashblock touched.
    pub new_account_balances: HashMap<Address, U256>,
    /// The number of the block that the flashblock belongs to.
    pub block_number: u64,
}

impl Metadata {
    /// Whether this holds no receipts and no balances, for block 0.
    pub open spec fn is_blank(&self) -> bool {
        &&& self.receipts@ == Map::<B256, Arc<OpReceipt>>::empty()
        &&& self.new_account_balances@ == Map::<Address, U256>::empty()
        &&& self.block_number == 0
    }
}

impl Default for Metadata {
    /// Metadata without receipts and balances.
    fn default() -> (r: Self)
        ensures
            r.is_blank(),
    {
        let r = Metadata {
            receipts: map_new(),
            new_account_balances: map_new(),
            block_number: 0,
        };
        assert(r.receipts@ == Map::<B256, Arc<OpReceipt>>::empty());
        assert(r.new_account_balances@ == Map::<Address, U256>::empty());
        r
    }
}

/// A part of a block.
#[derive(Clone, Debug, PartialEq)]
pub struct Flashblock {
    /// The payload id of the flashblock
    pub payload_id: [u8; 8],
    /// The index of the flashblock in the block
    pub index: u64,
    /// The base execution payload configuration
    pub base: Option<ExecutionPayloadBaseV1>,
    /// The delta/diff containing modified portions of the execution payload
    pub diff: ExecutionPayloadFlashblockDeltaV1,
    /// Additional metadata associated with the flashblock
    pub metadata: Metadata,
}

impl Default for Flashblock {
    /// The flashblock of index 0 that fixes nothing and adds nothing.
    fn default() -> (r: Self)
        ensures
            r.payload_id@ == zeros(8),
            r.index == 0,
            r.base is None,
            r.diff.is_blank(),
            r.metadata.is_blank(),
    {
        let payload_id: [u8; 8] = [0; 8];
        assert(payload_id@ == zeros(8));
        Flashblock {
            payload_id,
            index: 0,
            base: None,
            diff: ExecutionPayloadFlashblockDeltaV1::default(),
            metadata: Metadata::default(),
        }
    }
}

/// The flashblocks of the block with the given number.
pub open spec fn flashblocks_of(
    flashblocks: Seq<Arc<Flashblock>>,
    number: u64,
) -> Seq<Arc<Flashblock>> {
    flashblocks.filter(|flashblock: Arc<Flashblock>| flashblock.metadata.block_number == number)
}

/// Shares each element of `items`, in order.
pub(crate) fn share_all<T>(items: &Vec<Arc<T>>) -> (r: Vec<Arc<T>>)
    ensures
        r@ == items@,
{
    let mut r: Vec<Arc<T>> = Vec::new();
    let mut i: usize = 0;
    while i < items.len()
        invariant
            i <= items.len(),
            r@ == items@.take(i as int),
        decreases items.len() - i,
    {
        r.push(items[i].clone());
        i += 1;
        assert(items@.take(i as int) == items@.take(i - 1).push(items@[i - 1]));
    }
    assert(items@.take(i as int) == items@);
    r
}

/// Copies each element of `items`, in order.
pub(crate) fn copy_all<T: Copy>(items: &Vec<T>) -> (r: Vec<T>)
    ensures
        r@ == items@,
{
    let mut r: Vec<T> = Vec::new();
    let mut i: usize = 0;
    while i < items.len()
        invariant
            i <= items.len(),
            r@ == items@.take(i as int),
        decreases items.len() - i,
    {
        r.push(items[i]);
        i += 1;
        assert(items@.take(i as int) == items@.take(i - 1).push(items@[i - 1]));
    }
    assert(items@.take(i as int) == items@);
    r
}

} // verus!
