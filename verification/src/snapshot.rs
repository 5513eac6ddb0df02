//! What the RPC reads from the pending state, or reads where nothing is pending.

use std::sync::Arc;

use vstd::prelude::*;

use crate::laws::lemma_logs_of_listed;
use crate::map::lookup;
use crate::overrides::StateOverride;
use crate::pending_blocks::{
    lists, selected_logs, tx_hashes, BlockNumberOrTag, BlockTransactions, PendingBlocks, RpcBlock,
};
use crate::primitives::{Address, B256, U256};
use crate::receipt::{Filter, OpTransactionReceipt, RpcLog};
use crate::transaction::Transaction;

verus! {

/// The pending state at some moment.
pub struct Snapshot {
    pending_blocks: Option<Arc<PendingBlocks>>,
}

impl Snapshot {
    /// The pending state.
    pub closed spec fn view(&self) -> Option<Arc<PendingBlocks>> {
        self.pending_blocks
    }

    /// A snapshot of the given pending state.
    pub fn new(pending_blocks: Option<Arc<PendingBlocks>>) -> (r: Self)
        ensures
            r@ == pending_blocks,
    {
        Snapshot { pending_blocks }
    }

    /// The pending state.
    pub fn pending_blocks(&self) -> (r: Option<&Arc<PendingBlocks>>)
        ensures
            match r {
                Some(pending) => self@ == Some(*pending),
                None => self@ is None,
            },
    {
        match &self.pending_blocks {
            Some(pending) => Some(pending),
            None => None,
        }
    }

    /// The canonical block that the pending state stands on; the latest one where nothing is
    /// pending.
    pub fn get_canonical_block_number(&self) -> (r: BlockNumberOrTag)
        requires
            self@ matches Some(pending) ==> pending@.earliest_block_number() > 0,
        ensures
            r == match self@ {
                Some(pending) => BlockNumberOrTag::Number(
                    (pending@.earliest_block_number() - 1) as u64,
                ),
                None => BlockNumberOrTag::Latest,
            },
    {
        match &self.pending_blocks {
            Some(pending) => pending.canonical_block_number(),
            None => BlockNumberOrTag::Latest,
        }
    }

    /// The number of pending transactions that an account sent.
    pub fn get_transaction_count(&self, address: Address) -> (r: U256)
        ensures
            r.value() == match self@ {
                Some(pending) => pending@.counted_for(address),
                None => 0,
            },
    {
        match &self.pending_blocks {
            Some(pending) => pending.get_transaction_count(address),
            None => U256::from_u64(0),
        }
    }

    /// The latest pending block, with its transactions in full or by hash.
    pub fn get_block(&self, full: bool) -> (r: Option<RpcBlock>)
        ensures
            match (r, self@) {
                (Some(block), Some(pending)) => {
                    let transactions = pending@.transactions_in(pending@.latest_block_number());
                    &&& block.header == pending@.headers.last()
                    &&& block.uncles@ == Seq::<B256>::empty()
                    &&& block.withdrawals is None
                    &&& match block.transactions {
                        BlockTransactions::Full(listed) => full && listed@ == transactions,
                        BlockTransactions::Hashes(hashes) => !full && hashes@ == tx_hashes(
                            transactions,
                        ),
                    }
                },
                (None, None) => true,
                _ => false,
            },
    {
        match &self.pending_blocks {
            Some(pending) => Some(pending.get_latest_block(full)),
            None => None,
        }
    }

    /// The receipt of the pending transaction with the given hash.
    pub fn get_transaction_receipt(&self, tx_hash: B256) -> (r: Option<Arc<OpTransactionReceipt>>)
        ensures
            r == match self@ {
                Some(pending) => lookup(pending@.transaction_receipts, tx_hash),
                None => None,
            },
    {
        match &self.pending_blocks {
            Some(pending) => pending.get_receipt(tx_hash),
            None => None,
        }
    }

    /// The pending transaction with the given hash.
    pub fn get_transaction_by_hash(&self, tx_hash: B256) -> (r: Option<Arc<Transaction>>)
        ensures
            r == match self@ {
                Some(pending) => pending@.transaction_by_hash(tx_hash),
                None => None,
            },
    {
        match &self.pending_blocks {
            Some(pending) => pending.get_transaction_by_hash(tx_hash),
            None => None,
        }
    }

    /// The pending balance of an account.
    pub fn get_balance(&self, address: Address) -> (r: Option<U256>)
        ensures
            r == match self@ {
                Some(pending) => lookup(pending@.account_balances, address),
                None => None,
            },
    {
        match &self.pending_blocks {
            Some(pending) => pending.get_balance(address),
            None => None,
        }
    }

    /// What the pending transactions changed.
    pub fn get_state_overrides(&self) -> (r: Option<StateOverride>)
        ensures
            match r {
                Some(overrides) => self@ is Some && self@.unwrap()@.state_overrides == Some(
                    overrides@,
                ),
                None => self@ is None || self@.unwrap()@.state_overrides is None,
            },
    {
        match &self.pending_blocks {
            Some(pending) => pending.get_state_overrides(),
            None => None,
        }
    }

    /// The logs of the pending transactions that the filter selects, those of a transaction next
    /// to each other and in order. The transactions come in no particular order.
    pub fn get_pending_logs(&self, filter: &Filter) -> (r: Vec<Arc<RpcLog>>)
        ensures
            match self@ {
                Some(pending) => exists|order: Seq<B256>| #[trigger]
                    lists(order, pending@.transaction_receipts.dom()) && r@ == selected_logs(
                        pending@.transaction_receipts,
                        order,
                        *filter,
                    ),
                None => r@ == Seq::<Arc<RpcLog>>::empty(),
            },
    {
        match &self.pending_blocks {
            Some(pending) => pending.get_pending_logs(filter),
            None => Vec::new(),
        }
    }
}

/// A snapshot of a pending state answers what the pending state answers.
pub proof fn law_snapshot_answers_for_its_state(
    snapshot: &Snapshot,
    pending: Arc<PendingBlocks>,
    address: Address,
    hash: B256,
    counts: (U256, U256),
    balances: (Option<U256>, Option<U256>),
    receipts: (Option<Arc<OpTransactionReceipt>>, Option<Arc<OpTransactionReceipt>>),
    transactions: (Option<Arc<Transaction>>, Option<Arc<Transaction>>),
    numbers: (BlockNumberOrTag, BlockNumberOrTag),
)
    requires
        snapshot@ == Some(pending),
        pending@.earliest_block_number() > 0,
        call_ensures(Snapshot::get_transaction_count, (snapshot, address), counts.0),
        call_ensures(PendingBlocks::get_transaction_count, (&*pending, address), counts.1),
        call_ensures(Snapshot::get_balance, (snapshot, address), balances.0),
        call_ensures(PendingBlocks::get_balance, (&*pending, address), balances.1),
        call_ensures(Snapshot::get_transaction_receipt, (snapshot, hash), receipts.0),
        call_ensures(PendingBlocks::get_receipt, (&*pending, hash), receipts.1),
        call_ensures(Snapshot::get_transaction_by_hash, (snapshot, hash), transactions.0),
        call_ensures(PendingBlocks::get_transaction_by_hash, (&*pending, hash), transactions.1),
        call_ensures(Snapshot::get_canonical_block_number, (snapshot,), numbers.0),
        call_ensures(PendingBlocks::canonical_block_number, (&*pending,), numbers.1),
    ensures
        counts.0.value() == counts.1.value(),
        balances.0 == balances.1,
        receipts.0 == receipts.1,
        transactions.0 == transactions.1,
        numbers.0 == numbers.1,
{
}

/// A snapshot of a pending state has its overrides, and its latest block: the last header, with
/// those pending transactions that are reported with its number, in full or by hash.
pub proof fn law_snapshot_has_the_latest_block(
    snapshot: &Snapshot,
    pending: Arc<PendingBlocks>,
    full: bool,
    block: Option<RpcBlock>,
    overrides: Option<StateOverride>,
)
    requires
        snapshot@ == Some(pending),
        pending@.headers.len() > 0,
        call_ensures(Snapshot::get_block, (snapshot, full), block),
        call_ensures(Snapshot::get_state_overrides, (snapshot,), overrides),
    ensures
        block matches Some(block) && {
            let header = pending@.headers[pending@.headers.len() - 1];
            let transactions = pending@.transactions_in(header.fields.number);
            &&& block.header == header
            &&& block.uncles@.len() == 0
            &&& block.withdrawals is None
            &&& full ==> (block.transactions matches BlockTransactions::Full(listed) && listed@
                == transactions)
            &&& !full ==> (block.transactions matches BlockTransactions::Hashes(hashes) && {
                &&& hashes@.len() == transactions.len()
                &&& forall|i: int|
                    0 <= i < transactions.len() ==> #[trigger] hashes@[i]
                        == transactions[i].inner.fields.hash
            })
        },
        overrides is Some <==> pending@.state_overrides is Some,
        overrides matches Some(overrides) ==> pending@.state_overrides == Some(overrides@),
{
}

/// A snapshot of a pending state has exactly those logs that the filter takes among those in the
/// receipts of the pending transactions.
pub proof fn law_snapshot_has_the_logs(
    snapshot: &Snapshot,
    pending: Arc<PendingBlocks>,
    filter: &Filter,
    logs: Vec<Arc<RpcLog>>,
    log: Arc<RpcLog>,
)
    requires
        snapshot@ == Some(pending),
        call_ensures(Snapshot::get_pending_logs, (snapshot, filter), logs),
    ensures
        logs@.contains(log) <==> {
            &&& filter.selects_log(*log.inner)
            &&& exists|hash: B256| #[trigger]
                pending@.transaction_receipts.contains_key(hash)
                    && pending@.transaction_receipts[hash].logs@.contains(log)
        },
{
    let receipts = pending@.transaction_receipts;
    let order = choose|order: Seq<B256>| #[trigger]
        lists(order, receipts.dom()) && logs@ == selected_logs(receipts, order, *filter);
    lemma_logs_of_listed(receipts, order, *filter, log);
}

/// Where nothing is pending, a snapshot counts nothing, finds nothing and has no block, and the
/// canonical block is the latest one.
pub proof fn law_empty_snapshot_has_nothing(
    snapshot: &Snapshot,
    address: Address,
    hash: B256,
    full: bool,
    filter: &Filter,
    count: U256,
    balance: Option<U256>,
    receipt: Option<Arc<OpTransactionReceipt>>,
    transaction: Option<Arc<Transaction>>,
    number: BlockNumberOrTag,
    block: Option<RpcBlock>,
    logs: Vec<Arc<RpcLog>>,
    overrides: Option<StateOverride>,
)
    requires
        snapshot@ is None,
        call_ensures(Snapshot::get_transaction_count, (snapshot, address), count),
        call_ensures(Snapshot::get_balance, (snapshot, address), balance),
        call_ensures(Snapshot::get_transaction_receipt, (snapshot, hash), receipt),
        call_ensures(Snapshot::get_transaction_by_hash, (snapshot, hash), transaction),
        call_ensures(Snapshot::get_canonical_block_number, (snapshot,), number),
        call_ensures(Snapshot::get_block, (snapshot, full), block),
        call_ensures(Snapshot::get_pending_logs, (snapshot, filter), logs),
        call_ensures(Snapshot::get_state_overrides, (snapshot,), overrides),
    ensures
        count.value() == 0,
        balance is None,
        receipt is None,
        transaction is None,
        number == BlockNumberOrTag::Latest,
        block is None,
        logs@.len() == 0,
        overrides is None,
{
}

} // verus!
