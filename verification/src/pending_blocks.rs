//! The pending state: the blocks that were streamed in flashblocks and are not canonical yet.

use std::sync::Arc;

use alloy_primitives::map::foldhash::HashMap;
use revm_database::Cache;
use vstd::prelude::*;

use crate::error::BuildError;
use crate::flashblock::{share_all, Flashblock, Withdrawal};
use crate::map::{lookup, map_get, map_insert, map_keys, map_new};
use crate::overrides::{AccountOverrideView, EvmState, StateOverride};
use crate::payload::SealedHeader;
use crate::primitives::{u256_modulus, Address, B256, U256};
use crate::receipt::{Filter, OpTransactionReceipt, RpcLog};
use crate::transaction::Transaction;

verus! {

/// The cache of the database that transactions are executed on. It is carried along; of a value
/// of it only the accounts have a name.
#[verifier::external_type_specification]
#[verifier::external_body]
pub struct ExCache(Cache);

/// The accounts that a cache holds.
pub uninterp spec fn cached_accounts(cache: Cache) -> Set<Address>;

/// A cache that no account was loaded into.
///
/// Trusted: calls `Cache::default` of `revm_database`, whose `accounts` map starts with no entry.
/// Of the rest of the cache nothing is said: it starts with no log and no block hash, and with the
/// bytecode of accounts without code.
#[verifier::external_body]
fn empty_cache() -> (cache: Cache)
    ensures
        cached_accounts(cache) == Set::<Address>::empty(),
{
    Cache::default()
}

/// What a pending state, or the builder of one, holds.
#[verifier::ext_equal]
pub struct PendingBlocksView {
    pub flashblocks: Seq<Arc<Flashblock>>,
    pub headers: Seq<SealedHeader>,
    pub transactions: Seq<Arc<Transaction>>,
    pub transactions_by_index: Map<B256, usize>,
    pub account_balances: Map<Address, U256>,
    pub transaction_count: Map<Address, U256>,
    pub transaction_receipts: Map<B256, Arc<OpTransactionReceipt>>,
    pub transaction_state: Map<B256, Arc<EvmState>>,
    pub state_overrides: Option<Map<Address, AccountOverrideView>>,
    pub db_cache: Arc<Cache>,
}

impl PendingBlocksView {
    /// Whether the index finds each transaction: every entry leads to a transaction with its
    /// hash, the last one that has it.
    pub open spec fn indexed(self) -> bool {
        &&& forall|hash: B256| #[trigger]
            self.transactions_by_index.contains_key(hash) ==> {
                let i = self.transactions_by_index[hash] as int;
                &&& 0 <= i < self.transactions.len()
                &&& self.transactions[i].hash() == hash
            }
        &&& forall|i: int|
            0 <= i < self.transactions.len() ==> {
                let hash = (#[trigger] self.transactions[i]).hash();
                &&& self.transactions_by_index.contains_key(hash)
                &&& i <= self.transactions_by_index[hash]
            }
    }

    /// Whether there is something to be pending on: a header and a flashblock.
    pub open spec fn complete(self) -> bool {
        &&& self.headers.len() > 0
        &&& self.flashblocks.len() > 0
    }

    /// The transaction with the given hash.
    pub open spec fn transaction_by_hash(self, hash: B256) -> Option<Arc<Transaction>> {
        if self.transactions_by_index.contains_key(hash) && self.transactions_by_index[hash]
            < self.transactions.len() {
            Some(self.transactions[self.transactions_by_index[hash] as int])
        } else {
            None
        }
    }

    /// The number of the earliest block.
    pub open spec fn earliest_block_number(self) -> u64 {
        self.headers.first().fields.number
    }

    /// The number of the latest block.
    pub open spec fn latest_block_number(self) -> u64 {
        self.headers.last().fields.number
    }

    /// The index of the latest flashblock in its block.
    pub open spec fn latest_flashblock_index(self) -> u64 {
        self.flashblocks.last().index
    }

    /// The transactions of the block with the given number, in order.
    pub open spec fn transactions_in(self, block_number: u64) -> Seq<Arc<Transaction>> {
        self.transactions.filter(|tx: Arc<Transaction>| tx.block_number == Some(block_number))
    }

    /// The number of transactions counted for an account.
    pub open spec fn counted_for(self, address: Address) -> nat {
        if self.transaction_count.contains_key(address) {
            self.transaction_count[address].value()
        } else {
            0
        }
    }
}

/// What is held once one more transaction was added.
pub open spec fn with_one_more(
    before: PendingBlocksView,
    tx: Arc<Transaction>,
) -> PendingBlocksView {
    PendingBlocksView {
        transactions: before.transactions.push(tx),
        transactions_by_index: before.transactions_by_index.insert(
            tx.hash(),
            before.transactions.len() as usize,
        ),
        ..before
    }
}

/// A transaction that was added is found by its hash, and all others are found as before.
pub proof fn law_added_transaction_is_found(
    before: PendingBlocksView,
    tx: Arc<Transaction>,
    hash: B256,
)
    requires
        before.indexed(),
        before.transactions.len() < usize::MAX,
    ensures
        with_one_more(before, tx).indexed(),
        with_one_more(before, tx).transaction_by_hash(hash) == if hash == tx.hash() {
            Some(tx)
        } else {
            before.transaction_by_hash(hash)
        },
{
    let after = with_one_more(before, tx);
    assert forall|i: int| 0 <= i < after.transactions.len() implies {
        let hash = (#[trigger] after.transactions[i]).hash();
        &&& after.transactions_by_index.contains_key(hash)
        &&& i <= after.transactions_by_index[hash]
    } by {
        if i < before.transactions.len() {
            assert(after.transactions[i] == before.transactions[i]);
        }
    }
    assert forall|hash: B256| #[trigger] after.transactions_by_index.contains_key(hash) implies {
        let i = after.transactions_by_index[hash] as int;
        &&& 0 <= i < after.transactions.len()
        &&& after.transactions[i].hash() == hash
    } by {
        if hash != tx.hash() {
            assert(before.transactions_by_index.contains_key(hash));
        }
    }
}

/// The hash of each of the transactions.
pub open spec fn tx_hashes(transactions: Seq<Arc<Transaction>>) -> Seq<B256> {
    transactions.map_values(|tx: Arc<Transaction>| tx.hash())
}

/// Whether `order` lists each element of `elements` once.
pub open spec fn lists(order: Seq<B256>, elements: Set<B256>) -> bool {
    &&& order.no_duplicates()
    &&& order.to_set() == elements
}

/// The logs that the filter selects from the receipts of the transactions in `order`.
pub open spec fn selected_logs(
    receipts: Map<B256, Arc<OpTransactionReceipt>>,
    order: Seq<B256>,
    filter: Filter,
) -> Seq<Arc<RpcLog>>
    decreases order.len(),
{
    if order.len() == 0 {
        Seq::empty()
    } else {
        selected_logs(receipts, order.drop_last(), filter) + receipts[order.last()].logs@.filter(
            |log: Arc<RpcLog>| filter.selects_log(*log.inner),
        )
    }
}

/// A block by its number, or the latest canonical one.
#[derive(Clone, Copy, Debug)]
pub enum BlockNumberOrTag {
    Latest,
    Number(u64),
}

/// The transactions of a block: in full, or their hashes.
#[derive(Debug)]
pub enum BlockTransactions {
    Full(Vec<Arc<Transaction>>),
    Hashes(Vec<B256>),
}

/// A block as the RPC reports it.
#[derive(Debug)]
pub struct RpcBlock {
    pub header: SealedHeader,
    pub transactions: BlockTransactions,
    pub uncles: Vec<B256>,
    pub withdrawals: Option<Vec<Withdrawal>>,
}

/// Collects a pending state.
pub struct PendingBlocksBuilder {
    flashblocks: Vec<Arc<Flashblock>>,
    headers: Vec<SealedHeader>,

    transactions: Vec<Arc<Transaction>>,
    transactions_by_index: HashMap<B256, usize>,

    transaction_state: HashMap<B256, Arc<EvmState>>,
    transaction_receipts: HashMap<B256, Arc<OpTransactionReceipt>>,

    account_balances: HashMap<Address, U256>,
    transaction_count: HashMap<Address, U256>,

    state_overrides: Option<StateOverride>,

    db_cache: Arc<Cache>,
}

impl PendingBlocksBuilder {
    /// What was collected so far.
    pub closed spec fn view(&self) -> PendingBlocksView {
        PendingBlocksView {
            flashblocks: self.flashblocks@,
            headers: self.headers@,
            transactions: self.transactions@,
            transactions_by_index: self.transactions_by_index@,
            account_balances: self.account_balances@,
            transaction_count: self.transaction_count@,
            transaction_receipts: self.transaction_receipts@,
            transaction_state: self.transaction_state@,
            state_overrides: match self.state_overrides {
                Some(overrides) => Some(overrides@),
                None => None,
            },
            db_cache: self.db_cache,
        }
    }

    /// A builder that has collected nothing.
    pub fn new() -> (r: Self)
        ensures
            r@.flashblocks == Seq::<Arc<Flashblock>>::empty(),
            r@.headers == Seq::<SealedHeader>::empty(),
            r@.transactions == Seq::<Arc<Transaction>>::empty(),
            r@.transactions_by_index == Map::<B256, usize>::empty(),
            r@.account_balances == Map::<Address, U256>::empty(),
            r@.transaction_count == Map::<Address, U256>::empty(),
            r@.transaction_receipts == Map::<B256, Arc<OpTransactionReceipt>>::empty(),
            r@.transaction_state == Map::<B256, Arc<EvmState>>::empty(),
            r@.state_overrides is None,
            cached_accounts(*r@.db_cache) == Set::<Address>::empty(),
            r@.indexed(),
    {
        let r = PendingBlocksBuilder {
            flashblocks: Vec::new(),
            headers: Vec::new(),
            transactions: Vec::new(),
            transactions_by_index: map_new(),
            account_balances: map_new(),
            transaction_count: map_new(),
            transaction_receipts: map_new(),
            transaction_state: map_new(),
            state_overrides: None,
            db_cache: Arc::new(empty_cache()),
        };
        assert(r@.transactions_by_index =~= Map::<B256, usize>::empty());
        assert(r@.account_balances =~= Map::<Address, U256>::empty());
        assert(r@.transaction_count =~= Map::<Address, U256>::empty());
        assert(r@.transaction_receipts =~= Map::<B256, Arc<OpTransactionReceipt>>::empty());
        assert(r@.transaction_state =~= Map::<B256, Arc<EvmState>>::empty());
        r
    }

    /// Adds flashblocks after those that were added before.
    pub fn with_flashblocks(&mut self, flashblocks: Vec<Arc<Flashblock>>) -> (r: &mut Self)
        ensures
            r@ == (PendingBlocksView {
                flashblocks: old(self)@.flashblocks + flashblocks@,
                ..old(self)@
            }),
            *final(self) == *final(r),
    {
        let mut flashblocks = flashblocks;
        self.flashblocks.append(&mut flashblocks);
        self
    }

    /// Adds the header of the next block.
    pub fn with_header(&mut self, header: SealedHeader) -> (r: &mut Self)
        ensures
            r@ == (PendingBlocksView { headers: old(self)@.headers.push(header), ..old(self)@ }),
            *final(self) == *final(r),
    {
        self.headers.push(header);
        self
    }

    /// Adds a transaction, and makes its hash lead to it.
    pub fn with_transaction(&mut self, tx: Arc<Transaction>) -> (r: &mut Self)
        ensures
            r@ == with_one_more(old(self)@, tx),
            old(self)@.indexed() ==> r@.indexed(),
            old(self)@.transactions.len() < usize::MAX,
            *final(self) == *final(r),
    {
        let idx = self.transactions.len();
        let hash = tx.tx_hash();
        map_insert(&mut self.transactions_by_index, hash, idx);
        self.transactions.push(tx);
        assert(self.transactions.len() == idx + 1);
        self
    }

    /// Adds a transaction together with its receipt.
    pub fn with_transaction_and_receipt(
        &mut self,
        tx: Arc<Transaction>,
        receipt: Arc<OpTransactionReceipt>,
    ) -> (r: &mut Self)
        ensures
            r@ == (PendingBlocksView {
                transaction_receipts: old(self)@.transaction_receipts.insert(tx.hash(), receipt),
                ..with_one_more(old(self)@, tx)
            }),
            old(self)@.indexed() ==> r@.indexed(),
            old(self)@.transactions.len() < usize::MAX,
            *final(self) == *final(r),
    {
        let hash = tx.tx_hash();
        self.with_transaction(tx).with_receipt(hash, receipt)
    }

    /// Sets the cache of the database that the transactions were executed on.
    pub fn with_db_cache(&mut self, cache: Arc<Cache>) -> (r: &mut Self)
        ensures
            r@ == (PendingBlocksView { db_cache: cache, ..old(self)@ }),
            *final(self) == *final(r),
    {
        self.db_cache = cache;
        self
    }

    /// Sets what the transaction with the given hash left behind.
    pub fn with_transaction_state(&mut self, hash: B256, state: Arc<EvmState>) -> (r: &mut Self)
        ensures
            r@ == (PendingBlocksView {
                transaction_state: old(self)@.transaction_state.insert(hash, state),
                ..old(self)@
            }),
            *final(self) == *final(r),
    {
        map_insert(&mut self.transaction_state, hash, state);
        self
    }

    /// Counts one more transaction of the sender.
    pub fn increment_nonce(&mut self, sender: Address) -> (r: &Self)
        ensures
            r@ == (PendingBlocksView {
                transaction_count: old(self)@.transaction_count.insert(
                    sender,
                    r@.transaction_count[sender],
                ),
                ..old(self)@
            }),
            r@.counted_for(sender) == (old(self)@.counted_for(sender) + 1) % u256_modulus(),
            forall|address: Address|
                address != sender ==> #[trigger] r@.counted_for(address) == old(self)@.counted_for(
                    address,
                ),
            *final(self) == *r,
    {
        let current_count = match map_get(&self.transaction_count, &sender) {
            Some(count) => *count,
            None => U256::from_u64(0),
        };
        let count = current_count.wrapping_add(U256::from_u64(1));
        map_insert(&mut self.transaction_count, sender, count);
        self
    }

    /// Sets the receipt of the transaction with the given hash.
    pub fn with_receipt(&mut self, hash: B256, receipt: Arc<OpTransactionReceipt>) -> (r: &mut Self)
        ensures
            r@ == (PendingBlocksView {
                transaction_receipts: old(self)@.transaction_receipts.insert(hash, receipt),
                ..old(self)@
            }),
            *final(self) == *final(r),
    {
        map_insert(&mut self.transaction_receipts, hash, receipt);
        self
    }

    /// Sets the balance of an account.
    pub fn with_account_balance(&mut self, address: Address, balance: U256) -> (r: &Self)
        ensures
            r@ == (PendingBlocksView {
                account_balances: old(self)@.account_balances.insert(address, balance),
                ..old(self)@
            }),
            *final(self) == *r,
    {
        map_insert(&mut self.account_balances, address, balance);
        self
    }

    /// Sets the balance of each of the accounts in `balances`.
    pub fn with_account_balances(&mut self, balances: &HashMap<Address, U256>)
        ensures
            final(self)@ == (PendingBlocksView {
                account_balances: old(self)@.account_balances.union_prefer_right(balances@),
                ..old(self)@
            }),
    {
        let keys = map_keys(balances);
        let ghost start = self@;
        let mut i: usize = 0;
        assert(start.account_balances.union_prefer_right(
            balances@.restrict(keys@.take(0).to_set()),
        ) =~= start.account_balances);
        while i < keys.len()
            invariant
                i <= keys.len(),
                keys@.to_set() == balances@.dom(),
                self@ == (PendingBlocksView {
                    account_balances: start.account_balances.union_prefer_right(
                        balances@.restrict(keys@.take(i as int).to_set()),
                    ),
                    ..start
                }),
            decreases keys.len() - i,
        {
            let key = keys[i];
            let ghost before = keys@.take(i as int);
            let ghost after = keys@.take(i + 1);
            proof {
                assert(keys@.to_set().contains(key));
                assert(after =~= before.push(key));
                before.lemma_push_to_set_commute(key);
            }
            let balance = *map_get(balances, &key).unwrap();
            self.with_account_balance(key, balance);
            assert(self@.account_balances =~= start.account_balances.union_prefer_right(
                balances@.restrict(after.to_set()),
            ));
            i += 1;
        }
        proof {
            assert(keys@.take(keys@.len() as int) =~= keys@);
            assert(balances@.restrict(balances@.dom()) =~= balances@);
        }
    }

    /// Sets what the executed transactions changed.
    pub fn with_state_overrides(&mut self, state_overrides: StateOverride) -> (r: &Self)
        ensures
            r@ == (PendingBlocksView { state_overrides: Some(state_overrides@), ..old(self)@ }),
            *final(self) == *r,
    {
        self.state_overrides = Some(state_overrides);
        self
    }

    /// The header that was added last.
    pub fn latest_header(&self) -> (r: Option<SealedHeader>)
        ensures
            r == if self@.headers.len() == 0 {
                None
            } else {
                Some(self@.headers.last())
            },
    {
        if self.headers.len() == 0 {
            None
        } else {
            Some(self.headers[self.headers.len() - 1].clone())
        }
    }

    /// The pending state that was collected. It needs a header and a flashblock.
    pub fn build(self) -> (r: Result<PendingBlocks, BuildError>)
        ensures
            match r {
                Ok(pending) => {
                    &&& self@.headers.len() > 0
                    &&& self@.flashblocks.len() > 0
                    &&& pending@ == self@
                    &&& pending@.complete()
                },
                Err(BuildError::MissingHeaders) => self@.headers.len() == 0,
                Err(BuildError::NoFlashblocks) => self@.headers.len() > 0
                    && self@.flashblocks.len() == 0,
                Err(_) => false,
            },
    {
        if self.headers.is_empty() {
            return Err(BuildError::MissingHeaders);
        }
        if self.flashblocks.is_empty() {
            return Err(BuildError::NoFlashblocks);
        }
        Ok(
            PendingBlocks {
                flashblocks: self.flashblocks,
                headers: self.headers,
                transactions: self.transactions,
                transactions_by_index: self.transactions_by_index,
                transaction_state: self.transaction_state,
                transaction_receipts: self.transaction_receipts,
                account_balances: self.account_balances,
                transaction_count: self.transaction_count,
                state_overrides: self.state_overrides,
                db_cache: self.db_cache,
            },
        )
    }
}

/// The blocks that were streamed in flashblocks and are not canonical yet.
#[derive(Debug)]
pub struct PendingBlocks {
    flashblocks: Vec<Arc<Flashblock>>,
    headers: Vec<SealedHeader>,
    transactions: Vec<Arc<Transaction>>,
    transactions_by_index: HashMap<B256, usize>,

    account_balances: HashMap<Address, U256>,
    transaction_count: HashMap<Address, U256>,
    transaction_receipts: HashMap<B256, Arc<OpTransactionReceipt>>,
    transaction_state: HashMap<B256, Arc<EvmState>>,
    state_overrides: Option<StateOverride>,

    db_cache: Arc<Cache>,
}

impl PendingBlocks {
    /// What is pending.
    pub closed spec fn view(&self) -> PendingBlocksView {
        PendingBlocksView {
            flashblocks: self.flashblocks@,
            headers: self.headers@,
            transactions: self.transactions@,
            transactions_by_index: self.transactions_by_index@,
            account_balances: self.account_balances@,
            transaction_count: self.transaction_count@,
            transaction_receipts: self.transaction_receipts@,
            transaction_state: self.transaction_state@,
            state_overrides: match self.state_overrides {
                Some(overrides) => Some(overrides@),
                None => None,
            },
            db_cache: self.db_cache,
        }
    }

    #[verifier::type_invariant]
    spec fn is_complete(self) -> bool {
        self@.complete()
    }

    /// The number of the latest block.
    pub fn latest_block_number(&self) -> (r: u64)
        ensures
            self@.complete(),
            r == self@.latest_block_number(),
    {
        proof {
            use_type_invariant(self);
        }
        self.headers[self.headers.len() - 1].fields.number
    }

    /// The number of the earliest block.
    pub fn earliest_block_number(&self) -> (r: u64)
        ensures
            r == self@.earliest_block_number(),
    {
        proof {
            use_type_invariant(self);
        }
        self.headers[0].fields.number
    }

    /// The number of the canonical block that the pending blocks stand on: the one before the
    /// first of them.
    pub fn canonical_block_number(&self) -> (r: BlockNumberOrTag)
        requires
            self@.earliest_block_number() > 0,
        ensures
            r == BlockNumberOrTag::Number((self@.earliest_block_number() - 1) as u64),
    {
        proof {
            use_type_invariant(self);
        }
        BlockNumberOrTag::Number(self.headers[0].fields.number - 1)
    }

    /// The index of the latest flashblock in its block.
    pub fn latest_flashblock_index(&self) -> (r: u64)
        ensures
            r == self@.latest_flashblock_index(),
    {
        proof {
            use_type_invariant(self);
        }
        self.flashblocks[self.flashblocks.len() - 1].index
    }

    /// The header of the latest block.
    pub fn latest_header(&self) -> (r: SealedHeader)
        ensures
            r == self@.headers.last(),
    {
        proof {
            use_type_invariant(self);
        }
        self.headers[self.headers.len() - 1].clone()
    }

    /// The flashblocks that the pending state was built from.
    pub fn flashblocks(&self) -> (r: Vec<Arc<Flashblock>>)
        ensures
            r@ == self@.flashblocks,
    {
        share_all(&self.flashblocks)
    }

    /// What the transaction with the given hash left behind.
    pub fn get_transaction_state(&self, hash: B256) -> (r: Option<Arc<EvmState>>)
        ensures
            r == lookup(self@.transaction_state, hash),
    {
        match map_get(&self.transaction_state, &hash) {
            Some(state) => Some(state.clone()),
            None => None,
        }
    }

    /// The cache of the database that the transactions were executed on.
    pub fn get_db_cache(&self) -> (r: Arc<Cache>)
        ensures
            r == self@.db_cache,
    {
        self.db_cache.clone()
    }

    /// The transactions of the block with the given number, in order.
    pub fn transactions_for_block(&self, block_number: u64) -> (r: Vec<Arc<Transaction>>)
        ensures
            r@ == self@.transactions_in(block_number),
    {
        let mut r: Vec<Arc<Transaction>> = Vec::new();
        let ghost in_block = |tx: Arc<Transaction>| tx.block_number == Some(block_number);
        let mut i: usize = 0;
        assert(self.transactions@.take(0) =~= Seq::empty());
        reveal(Seq::filter);
        while i < self.transactions.len()
            invariant
                i <= self.transactions.len(),
                in_block == (|tx: Arc<Transaction>| tx.block_number == Some(block_number)),
                r@ == self.transactions@.take(i as int).filter(in_block),
            decreases self.transactions.len() - i,
        {
            let tx = &self.transactions[i];
            proof {
                assert(self.transactions@.take(i + 1) =~= self.transactions@.take(i as int).push(
                    *tx,
                ));
                self.transactions@.take(i as int).lemma_filter_push(*tx, in_block);
            }
            if let Some(number) = tx.block_number {
                if number == block_number {
                    r.push(tx.clone());
                }
            }
            i += 1;
        }
        assert(self.transactions@.take(i as int) =~= self.transactions@);
        r
    }

    /// The latest block, with its transactions in full or by hash.
    pub fn get_latest_block(&self, full: bool) -> (r: RpcBlock)
        ensures
            r.header == self@.headers.last(),
            r.uncles@ == Seq::<B256>::empty(),
            r.withdrawals is None,
            match r.transactions {
                BlockTransactions::Full(transactions) => {
                    &&& full
                    &&& transactions@ == self@.transactions_in(self@.latest_block_number())
                },
                BlockTransactions::Hashes(hashes) => {
                    &&& !full
                    &&& hashes@ == tx_hashes(self@.transactions_in(self@.latest_block_number()))
                },
            },
    {
        let header = self.latest_header();
        let block_transactions = self.transactions_for_block(header.fields.number);
        let transactions = if full {
            BlockTransactions::Full(block_transactions)
        } else {
            BlockTransactions::Hashes(hashes_of(&block_transactions))
        };
        RpcBlock { header, transactions, uncles: Vec::new(), withdrawals: None }
    }

    /// The receipt of the transaction with the given hash.
    pub fn get_receipt(&self, tx_hash: B256) -> (r: Option<Arc<OpTransactionReceipt>>)
        ensures
            r == lookup(self@.transaction_receipts, tx_hash),
    {
        match map_get(&self.transaction_receipts, &tx_hash) {
            Some(receipt) => Some(receipt.clone()),
            None => None,
        }
    }

    /// The transaction with the given hash; the last one, where several have it.
    pub fn get_transaction_by_hash(&self, tx_hash: B256) -> (r: Option<Arc<Transaction>>)
        ensures
            r == self@.transaction_by_hash(tx_hash),
    {
        match map_get(&self.transactions_by_index, &tx_hash) {
            Some(idx) => match self.transactions.get(*idx) {
                Some(tx) => Some(tx.clone()),
                None => None,
            },
            None => None,
        }
    }

    /// The number of pending transactions that an account sent.
    pub fn get_transaction_count(&self, address: Address) -> (r: U256)
        ensures
            r.value() == self@.counted_for(address),
    {
        match map_get(&self.transaction_count, &address) {
            Some(count) => *count,
            None => U256::from_u64(0),
        }
    }

    /// The pending balance of an account that the pending blocks touched.
    pub fn get_balance(&self, address: Address) -> (r: Option<U256>)
        ensures
            r == lookup(self@.account_balances, address),
    {
        match map_get(&self.account_balances, &address) {
            Some(balance) => Some(*balance),
            None => None,
        }
    }

    /// What the executed transactions changed.
    pub fn get_state_overrides(&self) -> (r: Option<StateOverride>)
        ensures
            match r {
                Some(overrides) => self@.state_overrides == Some(overrides@),
                None => self@.state_overrides is None,
            },
    {
        match &self.state_overrides {
            Some(overrides) => Some(overrides.clone()),
            None => None,
        }
    }

    /// The logs of the pending transactions that the filter selects, those of a transaction next
    /// to each other and in order. The transactions come in no particular order.
    pub fn get_pending_logs(&self, filter: &Filter) -> (r: Vec<Arc<RpcLog>>)
        ensures
            exists|order: Seq<B256>| #[trigger]
                lists(order, self@.transaction_receipts.dom()) && r@ == selected_logs(
                    self@.transaction_receipts,
                    order,
                    *filter,
                ),
    {
        let keys = map_keys(&self.transaction_receipts);
        let mut logs: Vec<Arc<RpcLog>> = Vec::new();
        let ghost selects = |log: Arc<RpcLog>| filter.selects_log(*log.inner);
        reveal(Seq::filter);
        let mut i: usize = 0;
        while i < keys.len()
            invariant
                i <= keys.len(),
                keys@.to_set() == self.transaction_receipts@.dom(),
                selects == (|log: Arc<RpcLog>| filter.selects_log(*log.inner)),
                logs@ == selected_logs(
                    self.transaction_receipts@,
                    keys@.take(i as int),
                    *filter,
                ),
            decreases keys.len() - i,
        {
            let key = keys[i];
            assert(keys@.to_set().contains(key));
            let receipt = map_get(&self.transaction_receipts, &key).unwrap();
            let ghost before = logs@;
            let mut k: usize = 0;
            assert(receipt.logs@.take(0).filter(selects) =~= Seq::empty());
            while k < receipt.logs.len()
                invariant
                    k <= receipt.logs.len(),
                    selects == (|log: Arc<RpcLog>| filter.selects_log(*log.inner)),
                    logs@ == before + receipt.logs@.take(k as int).filter(selects),
                decreases receipt.logs.len() - k,
            {
                let log = &receipt.logs[k];
                proof {
                    assert(receipt.logs@.take(k + 1) =~= receipt.logs@.take(k as int).push(*log));
                    receipt.logs@.take(k as int).lemma_filter_push(*log, selects);
                }
                if filter.matches(&log.inner) {
                    logs.push(log.clone());
                }
                k += 1;
            }
            proof {
                assert(receipt.logs@.take(k as int) =~= receipt.logs@);
                assert(keys@.take(i + 1).drop_last() =~= keys@.take(i as int));
                assert(keys@.take(i + 1).last() == key);
            }
            i += 1;
        }
        proof {
            assert(keys@.take(i as int) =~= keys@);
            assert(lists(keys@, self@.transaction_receipts.dom()));
        }
        logs
    }
}

/// The hash of each of the transactions.
pub(crate) fn hashes_of(transactions: &Vec<Arc<Transaction>>) -> (r: Vec<B256>)
    ensures
        r@ == tx_hashes(transactions@),
{
    let mut r: Vec<B256> = Vec::new();
    let mut i: usize = 0;
    while i < transactions.len()
        invariant
            i <= transactions.len(),
            r.len() == i,
            forall|j: int| 0 <= j < i ==> #[trigger] r@[j] == transactions@[j].hash(),
        decreases transactions.len() - i,
    {
        r.push(transactions[i].tx_hash());
        i += 1;
    }
    r
}

/// What is read of the ends of a pending state: the latest header and its number, the number of the
/// first header and the canonical block before it, the index of the last flashblock, and all
/// flashblocks.
pub proof fn law_ends_are_read(
    pending: &PendingBlocks,
    latest: u64,
    earliest: u64,
    canonical: BlockNumberOrTag,
    index: u64,
    header: SealedHeader,
    flashblocks: Vec<Arc<Flashblock>>,
)
    requires
        pending@.headers.len() > 0,
        pending@.flashblocks.len() > 0,
        pending@.headers[0].fields.number > 0,
        call_ensures(PendingBlocks::latest_block_number, (pending,), latest),
        call_ensures(PendingBlocks::earliest_block_number, (pending,), earliest),
        call_ensures(PendingBlocks::canonical_block_number, (pending,), canonical),
        call_ensures(PendingBlocks::latest_flashblock_index, (pending,), index),
        call_ensures(PendingBlocks::latest_header, (pending,), header),
        call_ensures(PendingBlocks::flashblocks, (pending,), flashblocks),
    ensures
        header == pending@.headers[pending@.headers.len() - 1],
        latest == header.fields.number,
        earliest == pending@.headers[0].fields.number,
        canonical matches BlockNumberOrTag::Number(number) && number + 1 == earliest,
        index == pending@.flashblocks[pending@.flashblocks.len() - 1].index,
        flashblocks@ == pending@.flashblocks,
{
}

/// What is read of one account or one transaction is what the pending state has for it, and nothing
/// where it has nothing.
pub proof fn law_entries_are_read(
    pending: &PendingBlocks,
    address: Address,
    hash: B256,
    balance: Option<U256>,
    receipt: Option<Arc<OpTransactionReceipt>>,
    state: Option<Arc<EvmState>>,
    overrides: Option<StateOverride>,
    cache: Arc<Cache>,
)
    requires
        call_ensures(PendingBlocks::get_balance, (pending, address), balance),
        call_ensures(PendingBlocks::get_receipt, (pending, hash), receipt),
        call_ensures(PendingBlocks::get_transaction_state, (pending, hash), state),
        call_ensures(PendingBlocks::get_state_overrides, (pending,), overrides),
        call_ensures(PendingBlocks::get_db_cache, (pending,), cache),
    ensures
        balance is Some <==> pending@.account_balances.contains_key(address),
        balance matches Some(balance) ==> balance == pending@.account_balances[address],
        receipt is Some <==> pending@.transaction_receipts.contains_key(hash),
        receipt matches Some(receipt) ==> receipt == pending@.transaction_receipts[hash],
        state is Some <==> pending@.transaction_state.contains_key(hash),
        state matches Some(state) ==> state == pending@.transaction_state[hash],
        overrides is Some <==> pending@.state_overrides is Some,
        overrides matches Some(overrides) ==> pending@.state_overrides == Some(overrides@),
        cache == pending@.db_cache,
{
}

/// The latest block is read with its own header and with those pending transactions that are
/// reported with its number, in order: in full, or each by its hash.
pub proof fn law_latest_block_is_read(
    pending: &PendingBlocks,
    listed: Vec<Arc<Transaction>>,
    full: bool,
    block: RpcBlock,
)
    requires
        pending@.headers.len() > 0,
        call_ensures(
            PendingBlocks::transactions_for_block,
            (pending, pending@.headers.last().fields.number),
            listed,
        ),
        call_ensures(PendingBlocks::get_latest_block, (pending, full), block),
    ensures
        listed@ == pending@.transactions.filter(
            |tx: Arc<Transaction>|
                tx.block_number == Some(pending@.headers[pending@.headers.len() - 1].fields.number),
        ),
        block.header == pending@.headers[pending@.headers.len() - 1],
        block.uncles@.len() == 0,
        block.withdrawals is None,
        full ==> (block.transactions matches BlockTransactions::Full(transactions)
            && transactions@ == listed@),
        !full ==> (block.transactions matches BlockTransactions::Hashes(hashes) && {
            &&& hashes@.len() == listed@.len()
            &&& forall|i: int|
                0 <= i < listed@.len() ==> #[trigger] hashes@[i] == listed@[i].inner.fields.hash
        }),
{
    let number = pending@.headers[pending@.headers.len() - 1].fields.number;
    let in_block = |tx: Arc<Transaction>| tx.block_number == Some(number);
    assert(in_block =~= |tx: Arc<Transaction>|
        tx.block_number == Some(pending@.headers[pending@.headers.len() - 1].fields.number));
}

/// A pending state is what was collected. It is refused exactly where no header or no flashblock
/// was, and a missing header comes first.
pub proof fn law_built_is_what_was_collected(
    builder: PendingBlocksBuilder,
    built: Result<PendingBlocks, BuildError>,
)
    requires
        call_ensures(PendingBlocksBuilder::build, (builder,), built),
    ensures
        builder@.headers.len() == 0 ==> built == Err::<PendingBlocks, _>(
            BuildError::MissingHeaders,
        ),
        builder@.headers.len() > 0 && builder@.flashblocks.len() == 0 ==> built == Err::<
            PendingBlocks,
            _,
        >(BuildError::NoFlashblocks),
        builder@.headers.len() > 0 && builder@.flashblocks.len() > 0 ==> (built matches Ok(pending)
            && pending@ == builder@),
{
}

} // verus!
