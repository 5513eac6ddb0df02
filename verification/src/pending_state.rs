//! How a pending state is built from flashblocks, one decision at a time.
//!
//! Reading the chain, executing transactions and making receipts is left to whoever runs the
//! build. [`PendingStateBuild`] says what to do next and takes in what came of it.

use std::sync::Arc;

use alloy_primitives::map::foldhash::HashMap;
use revm_database::Cache;
use vstd::prelude::*;

use crate::block::{
    all_balances, all_receipts, all_transactions, assemble_payload, attributes_of, envelopes_of,
    gas_after, is_whole, logs_after, make_receipt_input, make_transaction, merge_receipts,
    payload_of, receipt_input, receipt_of, reported_transaction, reported_transactions,
    require_parts, signer_of, BlockEnvAttributes, ReceiptInput,
};
use crate::error::BuildError;
use crate::flashblock::{share_all, Flashblock};
use crate::grouping::{
    group_by_block, groups_of, is_grouping, law_first_group_is_earliest, number_of,
};
use crate::laws::{law_balance_has_source, law_latest_balance_counts};
use crate::map::{lookup, map_get};
use crate::metrics::{Metrics, MetricsView};
use crate::overrides::{
    law_last_touch_counts, law_unset_word_stays, law_unset_word_stays_over_states,
    law_untouched_account_stays_over_states, overridden_word, sets_word, touches, with_accounts,
    with_states, AccountOverrideView, EvmState, StateOverride,
};
use crate::payload::{decode_transactions, is_block, seal_block, sealed_header, SealedHeader};
use crate::pending_blocks::{
    tx_hashes, with_one_more, PendingBlocks, PendingBlocksBuilder, PendingBlocksView,
};
use crate::primitives::{lemma_modulus_bound, u256_modulus, Address, Bytes, B256};
use crate::receipt::{OpReceipt, OpTransactionReceipt};
use crate::transaction::{
    decoded_transaction, recover_signer, recovered_signer, Transaction, TxEnvelope,
};

verus! {

/// The transactions of several blocks, as the RPC reports them.
pub open spec fn transactions_of(blocks: Seq<Seq<Arc<Flashblock>>>) -> Seq<Transaction> {
    blocks.map_values(|group: Seq<Arc<Flashblock>>| reported_transactions(group)).flatten()
}

/// The transactions among `transactions` that an account sent.
pub open spec fn sent_by(transactions: Seq<Arc<Transaction>>, address: Address) -> Seq<
    Arc<Transaction>,
> {
    transactions.filter(|tx: Arc<Transaction>| tx.signer == address)
}

/// The transactions themselves.
pub open spec fn unshared(transactions: Seq<Arc<Transaction>>) -> Seq<Transaction> {
    transactions.map_values(|tx: Arc<Transaction>| *tx)
}

/// Whether the headers are those of the blocks, each of which is whole.
pub open spec fn head(headers: Seq<SealedHeader>, blocks: Seq<Seq<Arc<Flashblock>>>) -> bool {
    &&& headers.len() == blocks.len()
    &&& forall|i: int|
        0 <= i < blocks.len() ==> {
            &&& is_whole(#[trigger] blocks[i])
            &&& headers[i]@ == sealed_header(payload_of(blocks[i]))
        }
}

/// Whether the first `n` transactions of a block have all that they need: each is validly signed
/// and has a receipt, and each deposit has the receipt of one.
pub open spec fn is_accounted_for(group: Seq<Arc<Flashblock>>, n: int) -> bool {
    forall|i: int|
        0 <= i < n ==> {
            let tx = #[trigger] envelopes_of(group)[i];
            &&& signer_of(tx) is Some
            &&& receipt_of(group, tx) is Some
            &&& tx.fields.is_deposit ==> *receipt_of(group, tx).unwrap() is Deposit
        }
}

/// Whether all transactions of each of the blocks have all that they need.
pub open spec fn are_accounted_for(blocks: Seq<Seq<Arc<Flashblock>>>) -> bool {
    forall|j: int|
        0 <= j < blocks.len() ==> is_accounted_for(
            #[trigger] blocks[j],
            envelopes_of(blocks[j]).len() as int,
        )
}

/// The receipts by transaction hash, once each was handed in with its transaction.
pub open spec fn receipts_by_hash(
    transactions: Seq<Arc<Transaction>>,
    receipts: Seq<Arc<OpTransactionReceipt>>,
) -> Map<B256, Arc<OpTransactionReceipt>>
    decreases transactions.len(),
{
    if transactions.len() == 0 {
        Map::empty()
    } else {
        receipts_by_hash(transactions.drop_last(), receipts.drop_last()).insert(
            transactions.last().hash(),
            receipts.last(),
        )
    }
}

/// Whether each transaction is found with the receipt that was handed in with it; where several
/// have one hash, with that of the last of them.
pub open spec fn receipts_are_found(
    found: Map<B256, Arc<OpTransactionReceipt>>,
    transactions: Seq<Arc<Transaction>>,
    receipts: Seq<Arc<OpTransactionReceipt>>,
) -> bool {
    forall|i: int|
        0 <= i < transactions.len() && (forall|j: int|
            i < j < transactions.len() ==> (#[trigger] transactions[j]).hash()
                != transactions[i].hash()) ==> {
            &&& found.contains_key((#[trigger] transactions[i]).hash())
            &&& found[transactions[i].hash()] == receipts[i]
        }
}

/// A transaction is found with the receipt that was handed in with it, where no later one has its
/// hash.
proof fn lemma_receipt_found(
    transactions: Seq<Arc<Transaction>>,
    receipts: Seq<Arc<OpTransactionReceipt>>,
    i: int,
)
    requires
        transactions.len() == receipts.len(),
        0 <= i < transactions.len(),
        forall|j: int|
            i < j < transactions.len() ==> (#[trigger] transactions[j]).hash()
                != transactions[i].hash(),
    ensures
        receipts_by_hash(transactions, receipts).contains_key(transactions[i].hash()),
        receipts_by_hash(transactions, receipts)[transactions[i].hash()] == receipts[i],
    decreases transactions.len(),
{
    if i < transactions.len() - 1 {
        let fewer = transactions.drop_last();
        assert forall|j: int| i < j < fewer.len() implies (#[trigger] fewer[j]).hash()
            != fewer[i].hash() by {
            assert(fewer[j] == transactions[j]);
        }
        assert(transactions[transactions.len() - 1].hash() != transactions[i].hash());
        lemma_receipt_found(fewer, receipts.drop_last(), i);
    }
}

/// Whether `pending` holds what follows from the flashblocks of `blocks`, and of one more block
/// `started` its header and its first `position` transactions.
pub open spec fn holds(
    pending: PendingBlocksView,
    blocks: Seq<Seq<Arc<Flashblock>>>,
    started: Option<Seq<Arc<Flashblock>>>,
    position: nat,
) -> bool {
    let headed = match started {
        Some(group) => blocks.push(group),
        None => blocks,
    };
    let added = match started {
        Some(group) => reported_transactions(group).take(position as int),
        None => Seq::empty(),
    };
    &&& are_accounted_for(blocks)
    &&& match started {
        Some(group) => is_accounted_for(group, position as int),
        None => true,
    }
    &&& pending.flashblocks == blocks.flatten()
    &&& head(pending.headers, headed)
    &&& unshared(pending.transactions) == transactions_of(blocks) + added
    &&& pending.indexed()
    &&& pending.transaction_receipts.dom() == tx_hashes(pending.transactions).to_set()
    &&& pending.account_balances == all_balances(blocks.flatten())
    &&& forall|address: Address| #[trigger]
        pending.counted_for(address) == sent_by(pending.transactions, address).len()
    &&& pending.transaction_state == Map::<B256, Arc<EvmState>>::empty()
}

/// The block that is being built.
pub struct BlockProgress {
    /// The number of its transactions that were added.
    pub position: nat,
    /// Whether the receipt of the next transaction was asked for.
    pub asked: bool,
    /// The number of its transactions that had to be executed.
    pub executed: nat,
    /// Whether what the last one of them changed is still to come.
    pub awaiting: bool,
}

/// Whether a transaction has to be executed: it has not been on what is built upon.
pub open spec fn is_new_upon(prev: Option<Arc<PendingBlocks>>, hash: B256) -> bool {
    match prev {
        Some(pending) => pending@.transaction_by_hash(hash) is None,
        None => true,
    }
}

/// The transactions among `transactions` that have to be executed.
pub open spec fn executed_upon(
    prev: Option<Arc<PendingBlocks>>,
    transactions: Seq<Arc<Transaction>>,
) -> Seq<Arc<Transaction>> {
    transactions.filter(|tx: Arc<Transaction>| is_new_upon(prev, tx.hash()))
}

/// The overrides of what is built upon.
pub open spec fn overrides_upon(prev: Option<Arc<PendingBlocks>>) -> Map<
    Address,
    AccountOverrideView,
> {
    match prev {
        Some(pending) => match pending@.state_overrides {
            Some(overrides) => overrides,
            None => Map::empty(),
        },
        None => Map::empty(),
    }
}

/// How far a build has come.
#[verifier::ext_equal]
pub struct BuildView {
    /// The pending state that is built upon.
    pub prev: Option<Arc<PendingBlocks>>,
    /// The flashblocks of each block.
    pub blocks: Seq<Seq<Arc<Flashblock>>>,
    /// The number of blocks that are built.
    pub done: nat,
    /// The block that is being built.
    pub block: Option<BlockProgress>,
    /// What was collected.
    pub pending: PendingBlocksView,
    /// The receipt that was handed in with each transaction, in turn.
    pub receipts: Seq<Arc<OpTransactionReceipt>>,
    /// What each executed transaction changed, in turn.
    pub states: Seq<EvmState>,
    /// What is overridden by now.
    pub state_overrides: Map<Address, AccountOverrideView>,
}

impl BuildView {
    /// The flashblocks of the block that is being built, or of the next one.
    pub open spec fn group(self) -> Seq<Arc<Flashblock>> {
        self.blocks[self.done as int]
    }

    /// The transactions of the block that is being built, as far as they were added.
    pub open spec fn added(self) -> Seq<Arc<Transaction>> {
        self.pending.transactions.skip(
            self.pending.transactions.len() - self.block.unwrap().position,
        )
    }

    /// The next transaction of the block that is being built.
    pub open spec fn next(self) -> TxEnvelope {
        envelopes_of(self.group())[self.block.unwrap().position as int]
    }

    /// Whether all transactions of the block that is being built were added.
    pub open spec fn exhausted(self) -> bool {
        self.block.unwrap().position == envelopes_of(self.group()).len()
    }

    /// Whether the gas and the logs of the next transaction can be counted: the cumulative gas of
    /// its receipt is not less than that of the receipt before it, and the number of logs of the
    /// block fits the machine.
    pub open spec fn counters_fit(self) -> bool {
        let position = self.block.unwrap().position as int;
        !self.exhausted() ==> match receipt_of(self.group(), self.next()) {
            Some(receipt) => {
                &&& gas_after(self.group(), position) <= receipt.receipt().cumulative_gas_used
                &&& logs_after(self.group(), position) + receipt.receipt().logs@.len()
                    <= usize::MAX
            },
            None => true,
        }
    }

    /// Whether the next transaction can be asked for: its gas and its logs can be counted, unless
    /// it is not validly signed to begin with.
    pub open spec fn countable(self) -> bool {
        signer_of(self.next()) is Some ==> self.counters_fit()
    }

    /// Whether a transaction has to be executed: it has not been on what is built upon.
    pub open spec fn is_new(self, hash: B256) -> bool {
        is_new_upon(self.prev, hash)
    }

    /// Whether what an executed transaction changed is still to come.
    pub open spec fn awaits_state(self) -> bool {
        self.block is Some && self.block.unwrap().awaiting
    }

    /// Whether each transaction that had to be executed has left a state, but for the one that is
    /// awaited, and the overrides are those of what is built upon with these states applied in
    /// turn.
    pub open spec fn executed_in_turn(self) -> bool {
        &&& self.state_overrides == with_states(overrides_upon(self.prev), self.states)
        &&& executed_upon(self.prev, self.pending.transactions).len() == self.states.len() + (
        if self.awaits_state() {
            1int
        } else {
            0int
        })
    }

    /// Whether each transaction came with a receipt, and the receipts are kept by hash.
    pub open spec fn receipts_in_turn(self) -> bool {
        &&& self.receipts.len() == self.pending.transactions.len()
        &&& self.pending.transaction_receipts == receipts_by_hash(
            self.pending.transactions,
            self.receipts,
        )
    }

    /// What a build keeps at every step.
    pub open spec fn wf(self) -> bool {
        &&& self.done <= self.blocks.len()
        &&& self.blocks.len() > 0
        &&& forall|i: int| 0 <= i < self.blocks.len() ==> (#[trigger] self.blocks[i]).len() > 0
        &&& self.receipts_in_turn()
        &&& self.executed_in_turn()
        &&& match self.block {
            Some(block) => {
                &&& self.done < self.blocks.len()
                &&& block.position <= envelopes_of(self.group()).len()
                &&& block.executed <= block.position
                &&& block.executed == executed_upon(self.prev, self.added()).len()
                &&& block.asked ==> {
                    &&& !block.awaiting
                    &&& block.position < envelopes_of(self.group()).len()
                    &&& signer_of(self.next()) is Some
                    &&& receipt_of(self.group(), self.next()) is Some
                    &&& self.counters_fit()
                }
                &&& holds(
                    self.pending,
                    self.blocks.take(self.done as int),
                    Some(self.group()),
                    block.position,
                )
            },
            None => holds(self.pending, self.blocks.take(self.done as int), None, 0),
        }
    }
}

/// What is needed to start the execution of a block.
#[derive(Debug)]
pub struct BlockStart {
    /// The header of the block before, where it is a pending one.
    pub parent: Option<SealedHeader>,
    pub attributes: BlockEnvAttributes,
    /// The encoded transactions of the block.
    pub transactions: Vec<Bytes>,
}

/// A block that is being built.
struct BlockBuild {
    header: SealedHeader,
    transactions: Vec<TxEnvelope>,
    receipt_by_hash: HashMap<B256, Arc<OpReceipt>>,
    position: usize,
    gas_used: u64,
    next_log_index: usize,
    executed: usize,
    awaiting: bool,
    waiting: Option<(Address, Arc<OpReceipt>)>,
}

/// A pending state that is being built.
pub struct PendingStateBuild {
    prev_pending_blocks: Option<Arc<PendingBlocks>>,
    blocks: Vec<Vec<Arc<Flashblock>>>,
    done: usize,
    block: Option<BlockBuild>,
    builder: PendingBlocksBuilder,
    receipts: Ghost<Seq<Arc<OpTransactionReceipt>>>,
    states: Ghost<Seq<EvmState>>,
    state_overrides: StateOverride,
}

impl PendingStateBuild {
    /// How far the build has come.
    pub closed spec fn view(&self) -> BuildView {
        BuildView {
            prev: self.prev_pending_blocks,
            blocks: groups_of(self.blocks@),
            done: self.done as nat,
            block: match self.block {
                Some(block) => Some(
                    BlockProgress {
                        position: block.position as nat,
                        asked: block.waiting is Some,
                        executed: block.executed as nat,
                        awaiting: block.awaiting,
                    },
                ),
                None => None,
            },
            pending: self.builder@,
            receipts: self.receipts@,
            states: self.states@,
            state_overrides: self.state_overrides@,
        }
    }

    /// What the build keeps at every step.
    pub closed spec fn inv(&self) -> bool {
        &&& self@.wf()
        &&& match self.block {
            Some(block) => {
                let group = self@.group();
                &&& block.header@ == sealed_header(payload_of(group))
                &&& block.transactions@ == envelopes_of(group)
                &&& block.receipt_by_hash@ == all_receipts(group)
                &&& block.gas_used == gas_after(group, block.position as int)
                &&& block.next_log_index == logs_after(group, block.position as int)
                &&& match block.waiting {
                    Some((signer, receipt)) => {
                        &&& signer_of(self@.next()) == Some(signer)
                        &&& receipt_of(group, self@.next()) == Some(receipt)
                    },
                    None => true,
                }
            },
            None => true,
        }
    }

    /// Starts to build a pending state from flashblocks, upon a previous one where there is one.
    pub fn new(
        prev_pending_blocks: Option<Arc<PendingBlocks>>,
        flashblocks: Vec<Arc<Flashblock>>,
    ) -> (r: Self)
        requires
            flashblocks@.len() > 0,
        ensures
            r.inv(),
            r@.wf(),
            r@.prev == prev_pending_blocks,
            is_grouping(r@.blocks, flashblocks@),
            r@.done == 0,
            r@.block is None,
            r@.receipts == Seq::<Arc<OpTransactionReceipt>>::empty(),
            r@.states == Seq::<EvmState>::empty(),
            r@.state_overrides == overrides_upon(prev_pending_blocks),
    {
        let blocks = group_by_block(&flashblocks);
        let state_overrides = match &prev_pending_blocks {
            Some(pending_blocks) => match pending_blocks.get_state_overrides() {
                Some(overrides) => overrides,
                None => StateOverride::default(),
            },
            None => StateOverride::default(),
        };
        let r = PendingStateBuild {
            prev_pending_blocks,
            blocks,
            done: 0,
            block: None,
            builder: PendingBlocksBuilder::new(),
            receipts: Ghost(Seq::empty()),
            states: Ghost(Seq::empty()),
            state_overrides,
        };
        proof {
            assert(r@.executed_in_turn()) by {
                reveal(Seq::filter);
            }
            assert(crate::grouping::has_group(r@.blocks, flashblocks@[0].metadata.block_number));
            lemma_nothing_held(r@.pending, r@.blocks.take(0));
        }
        r
    }

    /// Starts the next block: adds its header, and says what its execution starts from. There is
    /// nothing to start once all blocks are built.
    pub fn next_block(&mut self) -> (r: Result<Option<BlockStart>, BuildError>)
        requires
            old(self).inv(),
            old(self)@.block is None,
        ensures
            final(self).inv(),
            final(self)@.wf(),
            match r {
                Ok(Some(start)) => {
                    let group = old(self)@.group();
                    let header = final(self)@.pending.headers.last();
                    &&& old(self)@.done < old(self)@.blocks.len()
                    &&& is_whole(group)
                    &&& header@ == sealed_header(payload_of(group))
                    &&& final(self)@ == (BuildView {
                        block: Some(
                            BlockProgress {
                                position: 0,
                                asked: false,
                                executed: 0,
                                awaiting: false,
                            },
                        ),
                        pending: PendingBlocksView {
                            headers: old(self)@.pending.headers.push(header),
                            ..old(self)@.pending
                        },
                        ..old(self)@
                    })
                    &&& start.parent == if old(self)@.done == 0 {
                        None
                    } else {
                        Some(old(self)@.pending.headers.last())
                    }
                    &&& start.attributes == attributes_of(group)
                    &&& start.transactions@ == all_transactions(group)
                },
                Ok(None) => {
                    &&& old(self)@.done == old(self)@.blocks.len()
                    &&& final(self)@ == old(self)@
                },
                Err(BuildError::MissingBase) => {
                    &&& old(self)@.done < old(self)@.blocks.len()
                    &&& old(self)@.group().first().base is None
                    &&& final(self)@ == old(self)@
                },
                Err(BuildError::Payload(_)) => {
                    &&& old(self)@.done < old(self)@.blocks.len()
                    &&& old(self)@.group().first().base is Some
                    &&& !is_block(payload_of(old(self)@.group()))
                    &&& final(self)@ == old(self)@
                },
                Err(_) => false,
            },
    {
        if self.done == self.blocks.len() {
            return Ok(None);
        }
        let flashblocks = &self.blocks[self.done];
        let ghost group = self@.group();
        assert(group == flashblocks@);
        let payload = match assemble_payload(flashblocks) {
            Ok(payload) => payload,
            Err(error) => {
                return Err(error);
            },
        };
        let header = match seal_block(&payload) {
            Ok(header) => header,
            Err(error) => {
                return Err(BuildError::Payload(error));
            },
        };
        proof {
            assert forall|i: int| 0 <= i < payload.transactions@.len() implies (
            #[trigger] crate::transaction::decoded_transaction(
                (*payload.transactions@[i])@,
            )) is Some by {
                assert(payload@.transactions[i] == (*payload.transactions@[i])@);
            }
        }
        let transactions = decode_transactions(&payload.transactions);
        let receipt_by_hash = merge_receipts(flashblocks);
        let parent = self.builder.latest_header();
        let attributes = match &flashblocks[0].base {
            Some(base) => BlockEnvAttributes {
                timestamp: base.timestamp,
                suggested_fee_recipient: base.fee_recipient,
                prev_randao: base.prev_randao,
                gas_limit: base.gas_limit,
                parent_beacon_block_root: Some(base.parent_beacon_block_root),
                extra_data: base.extra_data.clone(),
            },
            None => {
                return Err(BuildError::MissingBase);
            },
        };
        self.builder.with_header(header.clone());
        self.block = Some(
            BlockBuild {
                header,
                transactions,
                receipt_by_hash,
                position: 0,
                gas_used: 0,
                next_log_index: 0,
                executed: 0,
                awaiting: false,
                waiting: None,
            },
        );
        proof {
            lemma_header_held(
                old(self)@.pending,
                self@.pending,
                self@.blocks.take(self@.done as int),
                group,
                header,
            );
            assert(self@.added() =~= Seq::empty());
            assert(executed_upon(self@.prev, self@.added()).len() == 0) by {
                reveal(Seq::filter);
            }
        }
        Ok(Some(BlockStart { parent, attributes, transactions: payload.transactions }))
    }

    /// Whether the gas and the logs of the next transaction can be counted.
    pub fn counters_fit(&self) -> (r: bool)
        requires
            self.inv(),
            self@.block is Some,
        ensures
            r == self@.counters_fit(),
    {
        let block = match &self.block {
            Some(block) => block,
            None => {
                return true;
            },
        };
        if block.position == block.transactions.len() {
            return true;
        }
        match map_get(&block.receipt_by_hash, &block.transactions[block.position].fields.hash) {
            Some(receipt) => {
                block.gas_used <= receipt.cumulative_gas_used()
                    && receipt.as_receipt().logs.len() <= usize::MAX - block.next_log_index
            },
            None => true,
        }
    }

    /// Whether the next transaction is validly signed.
    fn next_is_signed(&self) -> (r: bool)
        requires
            self.inv(),
            self@.block is Some,
            !self@.exhausted(),
        ensures
            r == (signer_of(self@.next()) is Some),
    {
        match &self.block {
            Some(block) => recover_signer(&*block.transactions[block.position].raw).is_some(),
            None => false,
        }
    }

    /// Asks for the receipt of the next transaction. There is none once all transactions of the
    /// block were added.
    pub fn next_transaction(&mut self) -> (r: Result<Option<ReceiptInput>, BuildError>)
        requires
            old(self).inv(),
            old(self)@.block is Some,
            !old(self)@.awaits_state(),
            old(self)@.countable(),
        ensures
            final(self).inv(),
            final(self)@.wf(),
            match r {
                Ok(Some(input)) => {
                    &&& !old(self)@.exhausted()
                    &&& signer_of(old(self)@.next()) is Some
                    &&& receipt_of(old(self)@.group(), old(self)@.next()) is Some
                    &&& input == receipt_input(
                        old(self)@.group(),
                        old(self)@.block.unwrap().position as int,
                    )
                    &&& final(self)@ == (BuildView {
                        block: Some(
                            BlockProgress { asked: true, ..old(self)@.block.unwrap() },
                        ),
                        ..old(self)@
                    })
                },
                Ok(None) => {
                    &&& old(self)@.exhausted()
                    &&& final(self)@ == old(self)@
                },
                Err(BuildError::SignerRecovery(hash)) => {
                    &&& !old(self)@.exhausted()
                    &&& signer_of(old(self)@.next()) is None
                    &&& hash == old(self)@.next().fields.hash
                    &&& final(self)@ == old(self)@
                },
                Err(BuildError::MissingReceipt(hash)) => {
                    &&& !old(self)@.exhausted()
                    &&& signer_of(old(self)@.next()) is Some
                    &&& receipt_of(old(self)@.group(), old(self)@.next()) is None
                    &&& hash == old(self)@.next().fields.hash
                    &&& final(self)@ == old(self)@
                },
                Err(_) => false,
            },
    {
        let mut block = match self.block.take() {
            Some(block) => block,
            None => {
                return Ok(None);
            },
        };
        let idx = block.position;
        if idx == block.transactions.len() {
            self.block = Some(block);
            return Ok(None);
        }
        let transaction = &block.transactions[idx];
        let tx_hash = transaction.fields.hash;
        let parts = require_parts(
            tx_hash,
            recover_signer(&*transaction.raw),
            map_get(&block.receipt_by_hash, &tx_hash),
        );
        let (sender, receipt) = match parts {
            Ok(parts) => parts,
            Err(error) => {
                self.block = Some(block);
                return Err(error);
            },
        };
        let input = make_receipt_input(
            transaction,
            sender,
            &receipt,
            &block.header,
            idx as u64,
            block.gas_used,
            block.next_log_index,
        );
        block.waiting = Some((sender, receipt));
        self.block = Some(block);
        Ok(Some(input))
    }

    /// Asks for the receipt of the next transaction where its gas and its logs can be counted,
    /// and does nothing where they cannot.
    pub fn try_next_transaction(&mut self) -> (r: Option<Result<Option<ReceiptInput>, BuildError>>)
        requires
            old(self).inv(),
            old(self)@.block is Some,
            !old(self)@.awaits_state(),
        ensures
            final(self).inv(),
            final(self)@.wf(),
            match r {
                Some(Ok(Some(input))) => {
                    &&& old(self)@.countable()
                    &&& !old(self)@.exhausted()
                    &&& signer_of(old(self)@.next()) is Some
                    &&& receipt_of(old(self)@.group(), old(self)@.next()) is Some
                    &&& input == receipt_input(
                        old(self)@.group(),
                        old(self)@.block.unwrap().position as int,
                    )
                    &&& final(self)@ == (BuildView {
                        block: Some(
                            BlockProgress { asked: true, ..old(self)@.block.unwrap() },
                        ),
                        ..old(self)@
                    })
                },
                Some(Ok(None)) => {
                    &&& old(self)@.exhausted()
                    &&& final(self)@ == old(self)@
                },
                Some(Err(BuildError::SignerRecovery(hash))) => {
                    &&& !old(self)@.exhausted()
                    &&& signer_of(old(self)@.next()) is None
                    &&& hash == old(self)@.next().fields.hash
                    &&& final(self)@ == old(self)@
                },
                Some(Err(BuildError::MissingReceipt(hash))) => {
                    &&& !old(self)@.exhausted()
                    &&& signer_of(old(self)@.next()) is Some
                    &&& receipt_of(old(self)@.group(), old(self)@.next()) is None
                    &&& hash == old(self)@.next().fields.hash
                    &&& final(self)@ == old(self)@
                },
                Some(Err(_)) => false,
                None => {
                    &&& !old(self)@.countable()
                    &&& final(self)@ == old(self)@
                },
            },
    {
        if self.counters_fit() || !self.next_is_signed() {
            Some(self.next_transaction())
        } else {
            None
        }
    }

    /// Adds the transaction whose receipt was asked for, together with that receipt. Says whether
    /// the transaction has to be executed: only where what is built upon does not hold it.
    pub fn add_transaction(&mut self, op_receipt: Arc<OpTransactionReceipt>) -> (r: Result<
        bool,
        BuildError,
    >)
        requires
            old(self).inv(),
            old(self)@.block is Some,
            old(self)@.block.unwrap().asked,
        ensures
            final(self).inv(),
            final(self)@.wf(),
            match r {
                Ok(execute) => {
                    let before = old(self)@.pending;
                    let after = final(self)@.pending;
                    let block = old(self)@.block.unwrap();
                    let hash = old(self)@.next().fields.hash;
                    let receipt = receipt_of(old(self)@.group(), old(self)@.next()).unwrap();
                    &&& !(old(self)@.next().fields.is_deposit && !(*receipt is Deposit))
                    &&& execute == old(self)@.is_new(hash)
                    &&& *after.transactions.last() == reported_transaction(
                        old(self)@.group(),
                        block.position as int,
                    )
                    &&& final(self)@ == (BuildView {
                        block: Some(
                            BlockProgress {
                                position: block.position + 1,
                                asked: false,
                                executed: block.executed + if execute {
                                    1nat
                                } else {
                                    0nat
                                },
                                awaiting: execute,
                            },
                        ),
                        pending: PendingBlocksView {
                            transaction_receipts: before.transaction_receipts.insert(
                                hash,
                                op_receipt,
                            ),
                            transaction_count: after.transaction_count,
                            ..with_one_more(before, after.transactions.last())
                        },
                        receipts: old(self)@.receipts.push(op_receipt),
                        ..old(self)@
                    })
                },
                Err(BuildError::NotDepositReceipt(hash)) => {
                    let receipt = receipt_of(old(self)@.group(), old(self)@.next()).unwrap();
                    &&& old(self)@.next().fields.is_deposit
                    &&& !(*receipt is Deposit)
                    &&& hash == old(self)@.next().fields.hash
                    &&& final(self)@ == old(self)@
                },
                Err(_) => false,
            },
    {
        let ghost group = self@.group();
        let mut block = match self.block.take() {
            Some(block) => block,
            None => {
                return Ok(false);
            },
        };
        let idx = block.position;
        assert(idx < block.transactions.len());
        let tx_hash = block.transactions[idx].fields.hash;
        let (sender, receipt) = match block.waiting.take() {
            Some(waiting) => waiting,
            None => {
                return Ok(false);
            },
        };
        let rpc_txn = match make_transaction(
            &block.transactions[idx],
            sender,
            &*receipt,
            &block.header,
            idx as u64,
        ) {
            Ok(rpc_txn) => Arc::new(rpc_txn),
            Err(error) => {
                block.waiting = Some((sender, receipt));
                self.block = Some(block);
                return Err(error);
            },
        };
        assert(is_accounted_for(group, idx as int + 1));
        self.builder.increment_nonce(sender);
        self.builder.with_transaction_and_receipt(rpc_txn, op_receipt);
        block.gas_used = receipt.cumulative_gas_used();
        block.next_log_index = block.next_log_index + receipt.as_receipt().logs.len();
        block.position = idx + 1;

        let should_execute_transaction = match &self.prev_pending_blocks {
            Some(pending_blocks) => pending_blocks.get_transaction_by_hash(tx_hash).is_none(),
            None => true,
        };
        if should_execute_transaction {
            block.executed = block.executed + 1;
        }
        block.awaiting = should_execute_transaction;
        self.block = Some(block);
        self.receipts = Ghost(self.receipts@.push(op_receipt));
        proof {
            assert(self@.receipts.drop_last() =~= old(self)@.receipts);
            assert(self@.pending.transactions.drop_last() =~= old(self)@.pending.transactions);
            let prev = self@.prev;
            old(self)@.pending.transactions.lemma_filter_push(
                rpc_txn,
                |tx: Arc<Transaction>| is_new_upon(prev, tx.hash()),
            );
            assert(unshared(old(self)@.pending.transactions).len()
                == old(self)@.pending.transactions.len());
            assert(self@.added() =~= old(self)@.added().push(rpc_txn));
            old(self)@.added().lemma_filter_push(
                rpc_txn,
                |tx: Arc<Transaction>| is_new_upon(prev, tx.hash()),
            );
            lemma_transaction_held(
                old(self)@.pending,
                self@.pending,
                self@.blocks.take(self@.done as int),
                group,
                idx as nat,
                rpc_txn,
            );
        }
        Ok(should_execute_transaction)
    }

    /// Takes in what the transaction that had to be executed changed.
    pub fn apply_state(&mut self, state: &EvmState)
        requires
            old(self).inv(),
            old(self)@.awaits_state(),
        ensures
            final(self).inv(),
            final(self)@.wf(),
            final(self)@ == (BuildView {
                block: Some(BlockProgress { awaiting: false, ..old(self)@.block.unwrap() }),
                states: old(self)@.states.push(*state),
                state_overrides: with_accounts(old(self)@.state_overrides, state.accounts@),
                ..old(self)@
            }),
    {
        let mut block = match self.block.take() {
            Some(block) => block,
            None => {
                return;
            },
        };
        block.awaiting = false;
        self.block = Some(block);
        self.states = Ghost(self.states@.push(*state));
        self.state_overrides.apply_state(state);
        assert(self@.states.drop_last() =~= old(self)@.states);
    }

    /// Ends the block all of whose transactions were added: adds its flashblocks and the balances
    /// that it leaves behind.
    pub fn end_block(&mut self, metrics: &mut Metrics)
        requires
            old(self).inv(),
            old(self)@.block is Some,
            old(self)@.exhausted(),
            !old(self)@.awaits_state(),
        ensures
            final(self).inv(),
            final(self)@.wf(),
            final(self)@ == (BuildView {
                done: old(self)@.done + 1,
                block: None,
                pending: PendingBlocksView {
                    flashblocks: old(self)@.pending.flashblocks + old(self)@.group(),
                    account_balances: old(self)@.pending.account_balances.union_prefer_right(
                        all_balances(old(self)@.group()),
                    ),
                    ..old(self)@.pending
                },
                ..old(self)@
            }),
            final(metrics)@ == (MetricsView {
                total_transactions_processed: old(metrics)@.total_transactions_processed.push(
                    envelopes_of(old(self)@.group()).len() as u64,
                ),
                total_transactions_executed: old(metrics)@.total_transactions_executed.push(
                    old(self)@.block.unwrap().executed as u64,
                ),
                ..old(metrics)@
            }),
    {
        let ghost group = self@.group();
        let block = match self.block.take() {
            Some(block) => block,
            None => {
                return;
            },
        };
        let flashblocks = share_all(&self.blocks[self.done]);
        let mut i: usize = 0;
        let ghost entry = *self;
        let ghost start = self.builder@;
        assert(start.account_balances.union_prefer_right(all_balances(group.take(0)))
            =~= start.account_balances);
        while i < flashblocks.len()
            invariant
                i <= flashblocks.len(),
                flashblocks@ == group,
                *self == (PendingStateBuild { builder: self.builder, ..entry }),
                self.builder@ == (PendingBlocksView {
                    account_balances: start.account_balances.union_prefer_right(
                        all_balances(group.take(i as int)),
                    ),
                    ..start
                }),
            decreases flashblocks.len() - i,
        {
            self.builder.with_account_balances(&flashblocks[i].metadata.new_account_balances);
            proof {
                assert(group.take(i + 1).drop_last() =~= group.take(i as int));
                assert(self.builder@.account_balances
                    =~= start.account_balances.union_prefer_right(all_balances(group.take(i + 1))));
            }
            i += 1;
        }
        assert(group.take(i as int) =~= group);
        self.builder.with_flashblocks(flashblocks);
        assert(self.done < self.blocks.len());
        self.done = self.done + 1;
        metrics.total_transactions_processed.record(block.transactions.len() as u64);
        metrics.total_transactions_executed.record(block.executed as u64);
        proof {
            let blocks = self@.blocks.take(old(self)@.done as int);
            lemma_block_held(old(self)@.pending, self@.pending, blocks, group);
            assert(self@.blocks.take(self@.done as int) =~= blocks.push(group));
        }
    }

    /// The pending state, once all blocks are built, on the cache of the database that the
    /// transactions were executed on. Its overrides are those of what was built upon, with what
    /// each executed transaction changed applied in turn.
    pub fn finish(self, cache: Arc<Cache>) -> (r: Result<Arc<PendingBlocks>, BuildError>)
        requires
            self.inv(),
            self@.block is None,
            self@.done == self@.blocks.len(),
        ensures
            match r {
                Ok(pending) => {
                    &&& pending@ == (PendingBlocksView {
                        state_overrides: Some(
                            with_states(overrides_upon(self@.prev), self@.states),
                        ),
                        db_cache: cache,
                        ..self@.pending
                    })
                    &&& self@.receipts.len() == pending@.transactions.len()
                    &&& receipts_are_found(
                        pending@.transaction_receipts,
                        pending@.transactions,
                        self@.receipts,
                    )
                    &&& self@.states.len() == executed_upon(
                        self@.prev,
                        pending@.transactions,
                    ).len()
                    &&& holds(pending@, self@.blocks, None, 0)
                },
                Err(_) => false,
            },
    {
        let ghost blocks = self@.blocks;
        let mut builder = self.builder;
        proof {
            assert(blocks.take(blocks.len() as int) =~= blocks);
            lemma_some_flashblock(blocks);
        }
        builder.with_db_cache(cache);
        builder.with_state_overrides(self.state_overrides);
        match builder.build() {
            Ok(pending) => {
                proof {
                    lemma_rest_is_free(self@.pending, pending@, blocks);
                    let transactions = pending@.transactions;
                    let receipts = self@.receipts;
                    assert forall|i: int|
                        0 <= i < transactions.len() && (forall|j: int|
                            i < j < transactions.len() ==> (#[trigger] transactions[j]).hash()
                                != transactions[i].hash()) implies {
                        &&& pending@.transaction_receipts.contains_key(
                            (#[trigger] transactions[i]).hash(),
                        )
                        &&& pending@.transaction_receipts[transactions[i].hash()] == receipts[i]
                    } by {
                        lemma_receipt_found(transactions, receipts, i);
                    }
                }
                Ok(Arc::new(pending))
            },
            Err(error) => Err(error),
        }
    }

    /// The number of the first block.
    pub fn earliest_block_number(&self) -> (r: u64)
        requires
            self.inv(),
        ensures
            r == number_of(self@.blocks.first()),
    {
        assert(self@.blocks[0] == self.blocks@[0]@);
        self.blocks[0][0].metadata.block_number
    }

    /// The number of the canonical block that the first block stands on.
    pub fn canonical_block(&self) -> (r: u64)
        requires
            self.inv(),
            number_of(self@.blocks.first()) > 0,
        ensures
            r == number_of(self@.blocks.first()) - 1,
    {
        self.earliest_block_number() - 1
    }
}

/// Blocks of some flashblocks have a flashblock.
proof fn lemma_some_flashblock(blocks: Seq<Seq<Arc<Flashblock>>>)
    requires
        blocks.len() > 0,
        blocks[0].len() > 0,
    ensures
        blocks.flatten().len() > 0,
{
    blocks.lemma_flatten_length_ge_single_element_length(0);
}

/// What is held does not depend on the overrides and the cache.
proof fn lemma_rest_is_free(
    before: PendingBlocksView,
    after: PendingBlocksView,
    blocks: Seq<Seq<Arc<Flashblock>>>,
)
    requires
        holds(before, blocks, None, 0),
        after == (PendingBlocksView {
            state_overrides: after.state_overrides,
            db_cache: after.db_cache,
            ..before
        }),
    ensures
        holds(after, blocks, None, 0),
{
    assert forall|address: Address| #[trigger]
        after.counted_for(address) == sent_by(after.transactions, address).len() by {
        assert(before.counted_for(address) == sent_by(before.transactions, address).len());
    }
}

/// The balances of flashblocks and of more flashblocks after them.
proof fn lemma_balances_join(flashblocks: Seq<Arc<Flashblock>>, more: Seq<Arc<Flashblock>>)
    ensures
        all_balances(flashblocks + more) == all_balances(flashblocks).union_prefer_right(
            all_balances(more),
        ),
    decreases more.len(),
{
    if more.len() == 0 {
        assert(flashblocks + more =~= flashblocks);
        assert(all_balances(flashblocks).union_prefer_right(all_balances(more)) =~= all_balances(
            flashblocks,
        ));
    } else {
        lemma_balances_join(flashblocks, more.drop_last());
        assert((flashblocks + more).drop_last() =~= flashblocks + more.drop_last());
        assert(all_balances(flashblocks + more) =~= all_balances(flashblocks).union_prefer_right(
            all_balances(more),
        ));
    }
}

/// With its flashblocks and balances, a block all of whose transactions were added is built.
proof fn lemma_block_held(
    before: PendingBlocksView,
    after: PendingBlocksView,
    blocks: Seq<Seq<Arc<Flashblock>>>,
    group: Seq<Arc<Flashblock>>,
)
    requires
        holds(before, blocks, Some(group), envelopes_of(group).len()),
        after == (PendingBlocksView {
            flashblocks: before.flashblocks + group,
            account_balances: before.account_balances.union_prefer_right(all_balances(group)),
            ..before
        }),
    ensures
        holds(after, blocks.push(group), None, 0),
{
    blocks.lemma_flatten_push(group);
    lemma_balances_join(blocks.flatten(), group);
    let reported = reported_transactions(group);
    assert(reported.take(envelopes_of(group).len() as int) =~= reported);
    let whole = blocks.push(group);
    assert forall|j: int| 0 <= j < whole.len() implies is_accounted_for(
        #[trigger] whole[j],
        envelopes_of(whole[j]).len() as int,
    ) by {
        if j < blocks.len() {
            assert(whole[j] == blocks[j]);
        }
    }
    let per_block = blocks.map_values(|group: Seq<Arc<Flashblock>>| reported_transactions(group));
    assert(blocks.push(group).map_values(
        |group: Seq<Arc<Flashblock>>| reported_transactions(group),
    ) =~= per_block.push(reported));
    per_block.lemma_flatten_push(reported);
    assert(transactions_of(blocks.push(group)) =~= transactions_of(blocks) + reported);
    assert(unshared(after.transactions) =~= transactions_of(blocks.push(group)) + Seq::empty());
    assert forall|address: Address| #[trigger]
        after.counted_for(address) == sent_by(after.transactions, address).len() by {
        assert(before.counted_for(address) == sent_by(before.transactions, address).len());
    }
}

/// With one more transaction, a block is one transaction further.
proof fn lemma_transaction_held(
    before: PendingBlocksView,
    after: PendingBlocksView,
    blocks: Seq<Seq<Arc<Flashblock>>>,
    group: Seq<Arc<Flashblock>>,
    position: nat,
    tx: Arc<Transaction>,
)
    requires
        holds(before, blocks, Some(group), position),
        position < envelopes_of(group).len(),
        is_accounted_for(group, position as int + 1),
        *tx == reported_transaction(group, position as int),
        before.transactions.len() < usize::MAX,
        after.flashblocks == before.flashblocks,
        after.headers == before.headers,
        after.transactions == before.transactions.push(tx),
        after.indexed(),
        after.transaction_receipts.dom() == before.transaction_receipts.dom().insert(tx.hash()),
        after.account_balances == before.account_balances,
        after.counted_for(tx.signer) == (before.counted_for(tx.signer) + 1) % u256_modulus(),
        forall|address: Address|
            address != tx.signer ==> #[trigger] after.counted_for(address) == before.counted_for(
                address,
            ),
        after.transaction_state == before.transaction_state,
    ensures
        holds(after, blocks, Some(group), position + 1),
{
    let reported = reported_transactions(group);
    let more = reported.take(position as int + 1);
    assert(more =~= reported.take(position as int).push(*tx));
    assert(unshared(after.transactions) =~= unshared(before.transactions).push(*tx));
    assert(unshared(after.transactions) =~= transactions_of(blocks) + more);
    assert(tx_hashes(after.transactions) =~= tx_hashes(before.transactions).push(tx.hash()));
    tx_hashes(before.transactions).lemma_push_to_set_commute(tx.hash());
    assert forall|address: Address| #[trigger]
        after.counted_for(address) == sent_by(after.transactions, address).len() by {
        let sent = |tx: Arc<Transaction>| tx.signer == address;
        assert(before.counted_for(address) == sent_by(before.transactions, address).len());
        before.transactions.lemma_filter_push(tx, sent);
        before.transactions.lemma_filter_len(sent);
        lemma_modulus_bound();
        vstd::arithmetic::div_mod::lemma_small_mod(
            before.counted_for(address) + 1,
            u256_modulus(),
        );
    }
}

/// With its header, a block is started.
proof fn lemma_header_held(
    before: PendingBlocksView,
    after: PendingBlocksView,
    blocks: Seq<Seq<Arc<Flashblock>>>,
    group: Seq<Arc<Flashblock>>,
    header: SealedHeader,
)
    requires
        holds(before, blocks, None, 0),
        after == (PendingBlocksView { headers: before.headers.push(header), ..before }),
        is_whole(group),
        header@ == sealed_header(payload_of(group)),
    ensures
        holds(after, blocks, Some(group), 0),
{
    assert(reported_transactions(group).take(0) =~= Seq::empty());
    let headed = blocks.push(group);
    assert forall|i: int| 0 <= i < headed.len() implies {
        &&& is_whole(#[trigger] headed[i])
        &&& after.headers[i]@ == sealed_header(payload_of(headed[i]))
    } by {
        if i < blocks.len() {
            assert(headed[i] == blocks[i]);
        }
    }
    assert forall|address: Address| #[trigger]
        after.counted_for(address) == sent_by(after.transactions, address).len() by {
        assert(before.counted_for(address) == sent_by(before.transactions, address).len());
    }
}

/// A view of nothing holds what follows from no flashblocks.
proof fn lemma_nothing_held(pending: PendingBlocksView, blocks: Seq<Seq<Arc<Flashblock>>>)
    requires
        blocks.len() == 0,
        pending.flashblocks.len() == 0,
        pending.headers.len() == 0,
        pending.transactions.len() == 0,
        pending.indexed(),
        pending.transaction_receipts.dom() == Set::<B256>::empty(),
        pending.account_balances.dom() == Set::<Address>::empty(),
        pending.transaction_count.dom() == Set::<Address>::empty(),
        pending.transaction_state == Map::<B256, Arc<EvmState>>::empty(),
    ensures
        holds(pending, blocks, None, 0),
{
    reveal(Seq::filter);
    assert(pending.flashblocks =~= blocks.flatten());
    assert(transactions_of(blocks) =~= Seq::empty());
    assert(unshared(pending.transactions) =~= transactions_of(blocks) + Seq::empty());
    assert(tx_hashes(pending.transactions).to_set() =~= Set::empty());
    assert(pending.account_balances =~= all_balances(blocks.flatten()));
}

/// A build starts with nothing collected, from the flashblocks of each block in a group of their
/// own, and with the overrides of what it builds upon.
pub proof fn law_build_starts_empty(
    prev: Option<Arc<PendingBlocks>>,
    flashblocks: Vec<Arc<Flashblock>>,
    build: PendingStateBuild,
    address: Address,
)
    requires
        call_ensures(PendingStateBuild::new, (prev, flashblocks), build),
    ensures
        is_grouping(build@.blocks, flashblocks@),
        build@.prev == prev,
        build@.done == 0,
        build@.block is None,
        build@.pending.headers.len() == 0,
        build@.pending.flashblocks.len() == 0,
        build@.pending.transactions.len() == 0,
        lookup(build@.state_overrides, address) == match prev {
            Some(state) => match state@.state_overrides {
                Some(overrides) => lookup(overrides, address),
                None => None,
            },
            None => None,
        },
{
    let none = build@.blocks.take(0);
    assert(holds(build@.pending, none, None, 0));
    assert(none.flatten() =~= Seq::empty());
    assert(transactions_of(none) =~= Seq::empty());
    assert(unshared(build@.pending.transactions).len() == build@.pending.transactions.len());
}

/// A block is started as the base of its first flashblock says: with its timestamp, fee recipient,
/// randomness, gas limit, parent beacon block root and extra data, and with the transactions of all
/// of its flashblocks in order. The parent of a block is the pending block before it; the first one
/// has none that is pending. The header that is added has the number, timestamp and base fee of the
/// base.
pub proof fn law_block_starts_from_its_base(
    build: &mut PendingStateBuild,
    started: Result<Option<BlockStart>, BuildError>,
)
    requires
        old(build)@.wf(),
        old(build)@.block is None,
        call_ensures(PendingStateBuild::next_block, (build,), started),
    ensures
        started matches Ok(None) <==> old(build)@.done == old(build)@.blocks.len(),
        started matches Err(_) ==> final(build)@ == old(build)@,
        started matches Ok(Some(start)) ==> {
            let done = old(build)@.done as int;
            let group = old(build)@.blocks[done];
            let base = group[0].base.unwrap();
            let headers = final(build)@.pending.headers;
            &&& done < old(build)@.blocks.len()
            &&& group[0].base is Some
            &&& start.attributes.timestamp == base.timestamp
            &&& start.attributes.suggested_fee_recipient == base.fee_recipient
            &&& start.attributes.prev_randao == base.prev_randao
            &&& start.attributes.gas_limit == base.gas_limit
            &&& start.attributes.parent_beacon_block_root == Some(base.parent_beacon_block_root)
            &&& start.attributes.extra_data == base.extra_data
            &&& start.transactions@ == group.map_values(
                |flashblock: Arc<Flashblock>| flashblock.diff.transactions@,
            ).flatten()
            &&& done == 0 ==> start.parent is None
            &&& done > 0 ==> start.parent == Some(headers[done - 1])
            &&& headers.len() == done + 1
            &&& headers.drop_last() == old(build)@.pending.headers
            &&& headers[done].fields.number == base.block_number
            &&& headers[done].fields.timestamp == base.timestamp
            &&& headers[done].fields.base_fee_per_gas is Some
            &&& headers[done].fields.base_fee_per_gas.unwrap() == base.base_fee_per_gas.value()
            &&& final(build)@.pending.transactions == old(build)@.pending.transactions
        },
{
    if let Ok(Some(start)) = started {
        let done = old(build)@.done as int;
        assert(old(build)@.blocks.take(done).len() == done);
        assert(old(build)@.pending.headers.len() == done);
        let headers = final(build)@.pending.headers;
        assert(headers.drop_last() =~= old(build)@.pending.headers);
        assert(headers[done]@ == sealed_header(payload_of(old(build)@.group())));
    }
}

/// Whether a receipt is made from what the flashblocks of a block say of the transaction at the
/// place that the build has come to: the encoded transaction at that place, the account that signed
/// it, the receipt for its hash, its place, and what the header of its block says. The gas is what
/// the receipt has more than the one before it, and the logs are numbered on.
pub open spec fn is_made_from_next(build: BuildView, input: ReceiptInput) -> bool {
    let group = build.blocks[build.done as int];
    let place = build.block.unwrap().position as int;
    let raw = all_transactions(group)[place];
    let header = build.pending.headers.last();
    let cumulative = input.receipt.receipt().cumulative_gas_used;
    &&& 0 <= place < all_transactions(group).len()
    &&& input.tx.raw == raw
    &&& decoded_transaction((*raw)@) == Some(input.tx.fields)
    &&& recovered_signer((*raw)@) == Some(input.signer)
    &&& lookup(all_receipts(group), input.tx.fields.hash) == Some(input.receipt)
    &&& input.meta.tx_hash == input.tx.fields.hash
    &&& input.meta.index == place
    &&& input.meta.block_hash == header.hash
    &&& input.meta.block_number == header.fields.number
    &&& input.meta.timestamp == header.fields.timestamp
    &&& input.meta.base_fee == header.fields.base_fee_per_gas
    &&& input.meta.excess_blob_gas == header.fields.excess_blob_gas
    &&& place == 0 ==> input.gas_used == cumulative && input.next_log_index == 0
    &&& place > 0 ==> {
        let earlier = decoded_transaction((*all_transactions(group)[place - 1])@).unwrap();
        let receipt = all_receipts(group)[earlier.hash].receipt();
        &&& receipt.cumulative_gas_used + input.gas_used == cumulative
        &&& input.next_log_index == logs_after(group, place - 1) + receipt.logs@.len()
    }
}

/// The receipt that is asked for next is made from the next transaction.
pub proof fn law_next_receipt_is_of_the_next_transaction(
    build: &mut PendingStateBuild,
    input: ReceiptInput,
)
    requires
        old(build)@.wf(),
        old(build)@.block is Some,
        old(build)@.countable(),
        call_ensures(PendingStateBuild::next_transaction, (build,), Ok(Some(input))),
    ensures
        is_made_from_next(old(build)@, input),
        final(build)@.pending == old(build)@.pending,
{
    lemma_input_of_next(old(build)@, input);
}

/// What the receipt of the next transaction is made from.
proof fn lemma_input_of_next(build: BuildView, input: ReceiptInput)
    requires
        build.wf(),
        build.block is Some,
        build.countable(),
        !build.exhausted(),
        build.block.unwrap().position <= usize::MAX,
        signer_of(build.next()) is Some,
        receipt_of(build.group(), build.next()) is Some,
        input == receipt_input(build.group(), build.block.unwrap().position as int),
    ensures
        is_made_from_next(build, input),
{
    let group = build.group();
    let place = build.block.unwrap().position as int;
    let headed = build.blocks.take(build.done as int).push(group);
    assert(head(build.pending.headers, headed));
    assert(is_whole(headed[headed.len() - 1]));
    assert(signer_of(envelopes_of(group)[place]) is Some);
    assert(payload_of(group).transactions[place] == (*all_transactions(group)[place])@);
    assert(decoded_transaction(payload_of(group).transactions[place]) is Some);
    if place > 0 {
        assert(is_accounted_for(group, place));
        assert(receipt_of(group, envelopes_of(group)[place - 1]) is Some);
    }
}

/// A transaction that is added comes after those before it, with the receipt that was handed in,
/// and is counted for its sender. It has to be executed exactly where what is built upon, if
/// anything, has no transaction with its hash.
pub proof fn law_added_transaction_comes_last(
    build: &mut PendingStateBuild,
    op_receipt: Arc<OpTransactionReceipt>,
    execute: bool,
    prev_blocks: Seq<Seq<Arc<Flashblock>>>,
    address: Address,
    other: B256,
)
    requires
        old(build)@.wf(),
        old(build)@.block is Some,
        old(build)@.block.unwrap().asked,
        old(build)@.prev matches Some(prev) ==> holds(prev@, prev_blocks, None, 0),
        call_ensures(PendingStateBuild::add_transaction, (build, op_receipt), Ok(execute)),
    ensures
        ({
            let before = old(build)@.pending;
            let after = final(build)@.pending;
            let place = old(build)@.block.unwrap().position;
            let group = old(build)@.blocks[old(build)@.done as int];
            let tx = after.transactions.last();
            let hash = tx.inner.fields.hash;
            &&& after.transactions == before.transactions.push(tx)
            &&& tx.inner.raw == all_transactions(group)[place as int]
            &&& tx.transaction_index is Some
            &&& tx.transaction_index.unwrap() == place
            &&& tx.block_hash == Some(after.headers.last().hash)
            &&& tx.block_number == Some(after.headers.last().fields.number)
            &&& recovered_signer((*tx.inner.raw)@) == Some(tx.signer)
            &&& after.transaction_by_hash(hash) == Some(tx)
            &&& lookup(after.transaction_receipts, hash) == Some(op_receipt)
            &&& other != hash ==> lookup(after.transaction_receipts, other) == lookup(
                before.transaction_receipts,
                other,
            )
            &&& after.counted_for(address) == before.counted_for(address) + if address
                == tx.signer {
                1nat
            } else {
                0nat
            }
            &&& execute <==> match old(build)@.prev {
                Some(prev) => forall|i: int|
                    0 <= i < prev@.transactions.len() ==> (
                    #[trigger] prev@.transactions[i]).inner.fields.hash != hash,
                None => true,
            }
            &&& final(build)@.block.unwrap().position == place + 1
            &&& final(build)@.awaits_state() == execute
            &&& final(build)@.block.unwrap().executed == old(build)@.block.unwrap().executed + if
                execute {
                1nat
            } else {
                0nat
            }
            &&& final(build)@.state_overrides == old(build)@.state_overrides
        }),
{
    let before = old(build)@.pending;
    let after = final(build)@.pending;
    let group = old(build)@.group();
    let place = old(build)@.block.unwrap().position as int;
    let tx = after.transactions.last();
    let hash = tx.hash();
    let headed = old(build)@.blocks.take(old(build)@.done as int).push(group);
    assert(head(before.headers, headed));
    assert(is_whole(headed[headed.len() - 1]));
    assert(signer_of(envelopes_of(group)[place]) is Some);
    assert(before.transactions.push(tx).last() == tx);
    let last = after.transactions.len() - 1;
    assert(after.transactions[last].hash() == hash);
    assert(last <= after.transactions_by_index[hash]);
    assert(after.counted_for(address) == sent_by(after.transactions, address).len());
    assert(before.counted_for(address) == sent_by(before.transactions, address).len());
    before.transactions.lemma_filter_push(tx, |tx: Arc<Transaction>| tx.signer == address);
    if let Some(prev) = old(build)@.prev {
        if let Some(found) = prev@.transaction_by_hash(hash) {
            assert(prev@.transactions_by_index.contains_key(hash));
            assert(prev@.transactions[prev@.transactions_by_index[hash] as int].hash() == hash);
        } else {
            assert forall|i: int| 0 <= i < prev@.transactions.len() implies (
            #[trigger] prev@.transactions[i]).inner.fields.hash != hash by {
                assert(prev@.transactions_by_index.contains_key(prev@.transactions[i].hash()));
            }
        }
    }
}

/// What an executed transaction changed is applied to what is overridden by now: a storage word
/// that it did not set stays, and each account that it touched is overridden with what it was left
/// with.
pub proof fn law_executed_state_is_applied(
    build: &mut PendingStateBuild,
    state: &EvmState,
    address: Address,
    key: B256,
    k: int,
)
    requires
        call_ensures(PendingStateBuild::apply_state, (build, state), ()),
    ensures
        !final(build)@.awaits_state(),
        final(build)@.pending == old(build)@.pending,
        !sets_word(state.accounts@, address, key) ==> overridden_word(
            final(build)@.state_overrides,
            address,
            key,
        ) == overridden_word(old(build)@.state_overrides, address, key),
        0 <= k < state.accounts@.len() && state.accounts@[k].0 == address && !touches(
            state.accounts@.skip(k + 1),
            address,
        ) ==> {
            let after = final(build)@.state_overrides;
            &&& after.contains_key(address)
            &&& after[address].balance == Some(state.accounts@[k].1.info.balance)
            &&& after[address].nonce == Some(state.accounts@[k].1.info.nonce)
            &&& after[address].code == state.accounts@[k].1.info.code
        },
{
    let overrides = old(build)@.state_overrides;
    if !sets_word(state.accounts@, address, key) {
        law_unset_word_stays(overrides, state.accounts@, address, key);
    }
    if 0 <= k < state.accounts@.len() && state.accounts@[k].0 == address && !touches(
        state.accounts@.skip(k + 1),
        address,
    ) {
        law_last_touch_counts(overrides, state.accounts@, k);
    }
}

/// A block that ends adds its flashblocks behind those before it, and the balances that it leaves
/// behind: that of each account is the one in its last flashblock which has one, and the balances
/// of other accounts stay. The number of its transactions is reported, and how many of them had to
/// be executed.
pub proof fn law_ended_block_is_added(
    build: &mut PendingStateBuild,
    metrics: &mut Metrics,
    address: Address,
    k: int,
)
    requires
        old(build)@.wf(),
        old(build)@.block is Some,
        old(build)@.exhausted(),
        call_ensures(PendingStateBuild::end_block, (build, metrics), ()),
    ensures
        ({
            let before = old(build)@.pending;
            let after = final(build)@.pending;
            let group = old(build)@.blocks[old(build)@.done as int];
            &&& final(build)@.done == old(build)@.done + 1
            &&& after.flashblocks == before.flashblocks + group
            &&& after.headers == before.headers
            &&& after.transactions == before.transactions
            &&& 0 <= k < group.len() && group[k].metadata.new_account_balances@.contains_key(
                address,
            ) && (forall|j: int|
                k < j < group.len() ==> !(
                #[trigger] group[j]).metadata.new_account_balances@.contains_key(address))
                ==> lookup(after.account_balances, address) == Some(
                group[k].metadata.new_account_balances@[address],
            )
            &&& (forall|j: int|
                0 <= j < group.len() ==> !(
                #[trigger] group[j]).metadata.new_account_balances@.contains_key(address))
                ==> lookup(after.account_balances, address) == lookup(
                before.account_balances,
                address,
            )
            &&& final(metrics)@.total_transactions_processed
                == old(metrics)@.total_transactions_processed.push(
                all_transactions(group).len() as u64,
            )
            &&& final(metrics)@.total_transactions_executed
                == old(metrics)@.total_transactions_executed.push(
                executed_upon(
                    old(build)@.prev,
                    after.transactions.skip(
                        after.transactions.len() - all_transactions(group).len(),
                    ),
                ).len() as u64,
            )
            &&& final(metrics)@ == (MetricsView {
                total_transactions_processed: final(metrics)@.total_transactions_processed,
                total_transactions_executed: final(metrics)@.total_transactions_executed,
                ..old(metrics)@
            })
        }),
{
    let group = old(build)@.group();
    if 0 <= k < group.len() && group[k].metadata.new_account_balances@.contains_key(address) && (
    forall|j: int|
        k < j < group.len() ==> !(
        #[trigger] group[j]).metadata.new_account_balances@.contains_key(address)) {
        law_latest_balance_counts(group, address, k);
    }
    if forall|j: int|
        0 <= j < group.len() ==> !(
        #[trigger] group[j]).metadata.new_account_balances@.contains_key(address) {
        law_balance_has_source(group, address);
    }
}

/// A build that is finished is the pending state of all that was collected, on the given cache,
/// with what is overridden by now: a storage word that no executed transaction set is overridden as
/// in what was built upon, and an account that none touched too.
pub proof fn law_finished_state_is_what_was_built(
    build: PendingStateBuild,
    cache: Arc<Cache>,
    finished: Result<Arc<PendingBlocks>, BuildError>,
    address: Address,
    key: B256,
)
    requires
        build@.wf(),
        build@.block is None,
        build@.done == build@.blocks.len(),
        call_ensures(PendingStateBuild::finish, (build, cache), finished),
    ensures
        finished is Ok,
        ({
            let pending = finished.unwrap()@;
            let overrides = pending.state_overrides.unwrap();
            &&& pending.db_cache == cache
            &&& pending.flashblocks == build@.pending.flashblocks
            &&& pending.headers == build@.pending.headers
            &&& pending.transactions == build@.pending.transactions
            &&& pending.transaction_receipts == build@.pending.transaction_receipts
            &&& pending.account_balances == build@.pending.account_balances
            &&& pending.transaction_count == build@.pending.transaction_count
            &&& holds(pending, build@.blocks, None, 0)
            &&& pending.state_overrides is Some
            &&& overrides == build@.state_overrides
            &&& (forall|m: int|
                0 <= m < build@.states.len() ==> !sets_word(
                    (#[trigger] build@.states[m]).accounts@,
                    address,
                    key,
                )) ==> overridden_word(overrides, address, key) == match build@.prev {
                Some(prev) => match prev@.state_overrides {
                    Some(earlier) => overridden_word(earlier, address, key),
                    None => None,
                },
                None => None,
            }
            &&& (forall|m: int|
                0 <= m < build@.states.len() ==> !touches(
                    (#[trigger] build@.states[m]).accounts@,
                    address,
                )) ==> lookup(overrides, address) == match build@.prev {
                Some(prev) => match prev@.state_overrides {
                    Some(earlier) => lookup(earlier, address),
                    None => None,
                },
                None => None,
            }
        }),
{
    let upon = overrides_upon(build@.prev);
    if forall|m: int|
        0 <= m < build@.states.len() ==> !sets_word(
            (#[trigger] build@.states[m]).accounts@,
            address,
            key,
        ) {
        law_unset_word_stays_over_states(upon, build@.states, address, key);
    }
    if forall|m: int|
        0 <= m < build@.states.len() ==> !touches(
            (#[trigger] build@.states[m]).accounts@,
            address,
        ) {
        law_untouched_account_stays_over_states(upon, build@.states, address);
    }
}

/// The canonical block that a build stands on is the one before the earliest block that it has a
/// flashblock of.
pub proof fn law_build_stands_on_block_before(
    build: &PendingStateBuild,
    flashblocks: Seq<Arc<Flashblock>>,
    canonical: u64,
)
    requires
        is_grouping(build@.blocks, flashblocks),
        build@.blocks.len() > 0,
        number_of(build@.blocks.first()) > 0,
        call_ensures(PendingStateBuild::canonical_block, (build,), canonical),
    ensures
        forall|k: int|
            0 <= k < flashblocks.len() ==> (#[trigger] flashblocks[k]).metadata.block_number
                > canonical,
        exists|k: int|
            0 <= k < flashblocks.len() && (#[trigger] flashblocks[k]).metadata.block_number
                == canonical + 1,
{
    let k = law_first_group_is_earliest(build@.blocks, flashblocks);
    assert(flashblocks[k].metadata.block_number == canonical + 1);
}

/// The receipt of the next transaction is asked for until all transactions of the block were added.
/// A transaction whose signature is not valid is refused, and one that its block has no receipt
/// for; nothing changes then. It is not asked for where its gas or its logs cannot be counted: the
/// cumulative gas decreases, or the number of logs does not fit the machine.
pub proof fn law_transactions_are_asked_for_in_turn(
    build: &mut PendingStateBuild,
    asked: Option<Result<Option<ReceiptInput>, BuildError>>,
)
    requires
        old(build)@.wf(),
        old(build)@.block is Some,
        !old(build)@.awaits_state(),
        call_ensures(PendingStateBuild::try_next_transaction, (build,), asked),
    ensures
        ({
            let group = old(build)@.blocks[old(build)@.done as int];
            let place = old(build)@.block.unwrap().position as int;
            let raw = all_transactions(group)[place];
            let hash = decoded_transaction((*raw)@).unwrap().hash;
            let receipts = all_receipts(group);
            let gas = receipts[hash].receipt().cumulative_gas_used;
            let logs = receipts[hash].receipt().logs@.len();
            let earlier = receipts[decoded_transaction(
                (*all_transactions(group)[place - 1])@,
            ).unwrap().hash].receipt().cumulative_gas_used;
            let fits = (place == 0 || earlier <= gas) && logs_after(group, place) + logs
                <= usize::MAX;
            if place == all_transactions(group).len() {
                asked == Some(Ok::<Option<ReceiptInput>, BuildError>(None))
            } else if recovered_signer((*raw)@) is None {
                asked == Some(Err::<Option<ReceiptInput>, _>(BuildError::SignerRecovery(hash)))
            } else if !receipts.contains_key(hash) {
                asked == Some(Err::<Option<ReceiptInput>, _>(BuildError::MissingReceipt(hash)))
            } else if fits {
                asked matches Some(Ok(Some(input))) && is_made_from_next(old(build)@, input)
            } else {
                asked is None
            }
        }),
        !(asked matches Some(Ok(Some(_)))) ==> final(build)@ == old(build)@,
{
    let group = old(build)@.group();
    let place = old(build)@.block.unwrap().position as int;
    if let Some(Ok(Some(input))) = asked {
        lemma_input_of_next(old(build)@, input);
    }
    if place > 0 {
        assert(is_accounted_for(group, place));
        assert(receipt_of(group, envelopes_of(group)[place - 1]) is Some);
    }
}

/// A transaction whose receipt was handed in is added, unless it is a deposit whose block has not
/// the receipt of one for it; nothing changes then.
pub proof fn law_only_deposits_are_refused(
    build: &mut PendingStateBuild,
    op_receipt: Arc<OpTransactionReceipt>,
    added: Result<bool, BuildError>,
)
    requires
        old(build)@.wf(),
        old(build)@.block is Some,
        old(build)@.block.unwrap().asked,
        call_ensures(PendingStateBuild::add_transaction, (build, op_receipt), added),
    ensures
        ({
            let group = old(build)@.blocks[old(build)@.done as int];
            let place = old(build)@.block.unwrap().position as int;
            let fields = decoded_transaction((*all_transactions(group)[place])@).unwrap();
            let receipt = *all_receipts(group)[fields.hash];
            if fields.is_deposit && !(receipt is Deposit) {
                &&& added == Err::<bool, _>(BuildError::NotDepositReceipt(fields.hash))
                &&& final(build)@ == old(build)@
            } else {
                added is Ok
            }
        }),
{
}

/// A block is started exactly where its first flashblock has a base, its extra data has at most 32
/// bytes, its base fee fits 64 bits, and each of its transactions decodes. A missing base comes
/// first. Nothing changes where it is not started.
pub proof fn law_whole_blocks_are_started(
    build: &mut PendingStateBuild,
    started: Result<Option<BlockStart>, BuildError>,
)
    requires
        old(build)@.wf(),
        old(build)@.block is None,
        old(build)@.done < old(build)@.blocks.len(),
        call_ensures(PendingStateBuild::next_block, (build,), started),
    ensures
        ({
            let group = old(build)@.blocks[old(build)@.done as int];
            let listed = all_transactions(group);
            match group[0].base {
                None => started == Err::<Option<BlockStart>, _>(BuildError::MissingBase),
                Some(base) => if (*base.extra_data)@.len() <= 32 && base.base_fee_per_gas.value()
                    <= u64::MAX && (forall|i: int|
                    0 <= i < listed.len() ==> decoded_transaction(
                        (*#[trigger] listed[i])@,
                    ) is Some) {
                    started matches Ok(Some(_))
                } else {
                    started matches Err(BuildError::Payload(_))
                },
            }
        }),
        started is Err ==> final(build)@ == old(build)@,
{
    let group = old(build)@.group();
    let listed = all_transactions(group);
    let payload = payload_of(group);
    assert(forall|i: int| 0 <= i < listed.len() ==> payload.transactions[i] == (*listed[i])@);
    if is_block(payload) {
        assert forall|i: int| 0 <= i < listed.len() implies decoded_transaction(
            (*#[trigger] listed[i])@,
        ) is Some by {
            assert(decoded_transaction(payload.transactions[i]) is Some);
        }
    } else if forall|i: int|
        0 <= i < listed.len() ==> decoded_transaction((*#[trigger] listed[i])@) is Some {
        assert forall|i: int| 0 <= i < payload.transactions.len() implies (
        #[trigger] decoded_transaction(payload.transactions[i])) is Some by {
            assert(decoded_transaction((*listed[i])@) is Some);
        }
    }
}

} // verus!
