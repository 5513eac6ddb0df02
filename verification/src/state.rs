//! How the pending state follows the updates that come in: flashblocks and canonical blocks.

use std::sync::Arc;

use vstd::prelude::*;

use crate::block::{payload_of, reported_transactions};
use crate::flashblock::{copy_all, flashblocks_of, Flashblock};
use crate::grouping::{
    has_group, in_block_order, is_grouping, law_grouped_is_in_order, law_grouping_keeps_order,
    lemma_filter_twice, lemma_last_of_flatten, lemma_members_of_group, number_of,
};
use crate::laws::{
    law_ends, law_regrouping_is_stable, law_transactions_by_block, law_transactions_in_block,
};
use crate::map::{hash_set, hash_set_eq};
use crate::metrics::{blank_metrics, counted, Metrics, MetricsView};
use crate::pending_blocks::{hashes_of, tx_hashes, PendingBlocks, PendingBlocksView};
use crate::pending_state::{holds, unshared};
use crate::primitives::B256;
use crate::transaction::Transaction;

verus! {

/// A block that became canonical.
#[derive(Debug)]
pub struct CanonicalBlock {
    pub number: u64,
    /// The hashes of its transactions.
    pub transaction_hashes: Vec<B256>,
}

/// What the pending state is updated with.
pub enum StateUpdate {
    Canonical(CanonicalBlock),
    Flashblock(Flashblock),
}

/// What an update makes of the pending state.
pub enum Decision {
    /// It becomes this.
    Replace(Option<Arc<PendingBlocks>>),
    /// It has to be built from these flashblocks, on top of the previous state where one is
    /// given.
    Build { prev_pending_blocks: Option<Arc<PendingBlocks>>, flashblocks: Vec<Arc<Flashblock>> },
}

/// Whether a decision is to build from `flashblocks` on top of `prev`.
pub open spec fn builds(
    decision: Decision,
    prev: Option<Arc<PendingBlocks>>,
    flashblocks: Seq<Arc<Flashblock>>,
) -> bool {
    match decision {
        Decision::Build { prev_pending_blocks, flashblocks: listed } => {
            &&& prev_pending_blocks == prev
            &&& listed@ == flashblocks
        },
        Decision::Replace(_) => false,
    }
}

/// Whether a decision is to build from `earlier` flashblocks and one more on top of `prev`.
pub open spec fn builds_with(
    decision: Decision,
    prev: Option<Arc<PendingBlocks>>,
    earlier: Seq<Arc<Flashblock>>,
    flashblock: Flashblock,
) -> bool {
    match decision {
        Decision::Build { prev_pending_blocks, flashblocks } => {
            &&& prev_pending_blocks == prev
            &&& flashblocks@ == earlier.push(flashblocks@.last())
            &&& *flashblocks@.last() == flashblock
        },
        Decision::Replace(_) => false,
    }
}

/// Whether `flashblock` continues what is pending: it is the next of the latest block, or the
/// first of the block after it.
pub open spec fn is_next(pending: PendingBlocksView, flashblock: Flashblock) -> bool {
    let number = flashblock.metadata.block_number as int;
    let latest = pending.latest_block_number() as int;
    ||| number == latest && flashblock.index == pending.latest_flashblock_index() + 1
    ||| number == latest + 1 && flashblock.index == 0
}

/// Whether `flashblock` has the place of the latest one.
pub open spec fn is_duplicate(pending: PendingBlocksView, flashblock: Flashblock) -> bool {
    &&& flashblock.metadata.block_number == pending.latest_block_number()
    &&& flashblock.index == pending.latest_flashblock_index()
}

/// The flashblocks of blocks beyond the one with the given number.
pub open spec fn flashblocks_after(
    flashblocks: Seq<Arc<Flashblock>>,
    number: u64,
) -> Seq<Arc<Flashblock>> {
    flashblocks.filter(|flashblock: Arc<Flashblock>| flashblock.metadata.block_number > number)
}

/// Whether the canonical block is not the one that was pending under its number: it does not
/// hold the same transactions.
pub open spec fn is_reorg(pending: PendingBlocksView, block: CanonicalBlock) -> bool {
    tx_hashes(pending.transactions_in(block.number)).to_set() != block.transaction_hashes@.to_set()
}

/// What an update makes of the pending state, where that is settled without building anything.
pub open spec fn settled(pending: Option<Arc<PendingBlocks>>, update: StateUpdate) -> Option<
    Option<Arc<PendingBlocks>>,
> {
    match (pending, update) {
        (None, StateUpdate::Canonical(_)) => Some(None),
        (None, StateUpdate::Flashblock(flashblock)) => if flashblock.index == 0 {
            None
        } else {
            Some(None)
        },
        (Some(state), StateUpdate::Canonical(block)) => if state@.latest_block_number()
            <= block.number {
            Some(None)
        } else {
            None
        },
        (Some(state), StateUpdate::Flashblock(flashblock)) => if is_next(state@, flashblock) {
            None
        } else if is_duplicate(state@, flashblock) {
            Some(Some(state))
        } else {
            Some(None)
        },
    }
}

/// Whether a decision is what settles an update, or to build where nothing settles it.
pub open spec fn settles(decision: Decision, settled: Option<Option<Arc<PendingBlocks>>>) -> bool {
    match settled {
        Some(pending) => decision == Decision::Replace(pending),
        None => decision is Build,
    }
}

/// What an update came to, where it did not fail.
pub open spec fn success<E>(outcome: Result<Option<Arc<PendingBlocks>>, E>) -> Option<
    Option<Arc<PendingBlocks>>,
> {
    match outcome {
        Ok(pending) => Some(pending),
        Err(_) => None,
    }
}

/// The pending state once an update came to `result`: that of a success, also where it is nothing.
/// A failure leaves what was pending.
pub open spec fn stored(
    pending: Option<Arc<PendingBlocks>>,
    result: Option<Option<Arc<PendingBlocks>>>,
) -> Option<Arc<PendingBlocks>> {
    match result {
        Some(new) => new,
        None => pending,
    }
}

/// What is announced once a flashblock came to `result`: the pending state of a success, if there
/// is one.
pub open spec fn announced(result: Option<Option<Arc<PendingBlocks>>>) -> Option<
    Arc<PendingBlocks>,
> {
    match result {
        Some(new) => new,
        None => None,
    }
}

/// What is reported once a pending state was stored: the gauges show the current one. Where
/// nothing is pending they keep what they showed last.
pub open spec fn shown(reported: MetricsView, pending: Option<Arc<PendingBlocks>>) -> MetricsView {
    match pending {
        Some(pending) => MetricsView {
            pending_snapshot_height: Some(pending@.latest_block_number()),
            pending_snapshot_fb_index: Some(pending@.latest_flashblock_index()),
            ..reported
        },
        None => reported,
    }
}

/// Keeps the pending state up to date.
pub struct StateProcessor {
    pending_blocks: Option<Arc<PendingBlocks>>,
    metrics: Metrics,
}

impl StateProcessor {
    /// A processor with nothing pending.
    pub fn new() -> (r: Self)
        ensures
            r.pending() is None,
            r.reported() == blank_metrics(),
    {
        StateProcessor { pending_blocks: None, metrics: Metrics::default() }
    }

    /// The pending state.
    pub fn pending_blocks(&self) -> (r: Option<Arc<PendingBlocks>>)
        ensures
            r == self.pending(),
    {
        match &self.pending_blocks {
            Some(pending_blocks) => Some(pending_blocks.clone()),
            None => None,
        }
    }

    /// Takes what was reported since this was called last.
    pub fn take_metrics(&mut self) -> (r: Metrics)
        ensures
            r@ == old(self).reported(),
            final(self).reported() == blank_metrics(),
            final(self).pending() == old(self).pending(),
    {
        let mut metrics = Metrics::default();
        std::mem::swap(&mut metrics, &mut self.metrics);
        metrics
    }

    /// The pending state.
    pub closed spec fn pending(&self) -> Option<Arc<PendingBlocks>> {
        self.pending_blocks
    }

    /// What is reported and was not taken yet.
    pub closed spec fn reported(&self) -> MetricsView {
        self.metrics@
    }

    /// Whether the given flashblock continues what is pending: it is the next of the latest
    /// block, or the first of the block after it.
    pub fn is_next_flashblock(pending_blocks: &PendingBlocks, flashblock: &Flashblock) -> (r: bool)
        ensures
            r == is_next(pending_blocks@, *flashblock),
    {
        let number = flashblock.metadata.block_number;
        let latest = pending_blocks.latest_block_number();
        let is_next_of_block = number == latest && flashblock.index > 0 && flashblock.index - 1
            == pending_blocks.latest_flashblock_index();
        let is_first_of_next_block = number > 0 && number - 1 == latest && flashblock.index == 0;
        is_next_of_block || is_first_of_next_block
    }

    /// Decides what a canonical block makes of the pending state.
    ///
    /// Where nothing is pending, nothing changes. A pending state that the block has caught up
    /// with is dropped. Otherwise the flashblocks beyond the block are kept and the state is
    /// built from them: on top of the previous state, or, where the block is not the one that
    /// was pending, from scratch.
    pub fn process_canonical_block(&mut self, block: &CanonicalBlock) -> (r: Decision)
        ensures
            final(self).pending() == old(self).pending(),
            settles(r, settled(old(self).pending(), StateUpdate::Canonical(*block))),
            match old(self).pending() {
                None => {
                    &&& r == Decision::Replace(None)
                    &&& final(self).reported() == old(self).reported()
                },
                Some(pending) => {
                    let seen = MetricsView {
                        flashblocks_in_block: old(self).reported().flashblocks_in_block.push(
                            flashblocks_of(pending@.flashblocks, block.number).len() as u64,
                        ),
                        ..old(self).reported()
                    };
                    if pending@.latest_block_number() <= block.number {
                        &&& r == Decision::Replace(None)
                        &&& final(self).reported() == (MetricsView {
                            pending_clear_catchup: counted(seen.pending_clear_catchup, 1),
                            pending_snapshot_height: Some(pending@.latest_block_number()),
                            pending_snapshot_fb_index: Some(pending@.latest_flashblock_index()),
                            ..seen
                        })
                    } else if is_reorg(pending@, *block) {
                        &&& builds(r, None, flashblocks_after(pending@.flashblocks, block.number))
                        &&& final(self).reported() == (MetricsView {
                            pending_clear_reorg: counted(seen.pending_clear_reorg, 1),
                            ..seen
                        })
                    } else {
                        &&& builds(
                            r,
                            Some(pending),
                            flashblocks_after(pending@.flashblocks, block.number),
                        )
                        &&& final(self).reported() == seen
                    }
                },
            },
    {
        let pending_blocks = match &self.pending_blocks {
            Some(pending_blocks) => pending_blocks.clone(),
            None => {
                return Decision::Replace(None);
            },
        };
        let flashblocks = pending_blocks.flashblocks();
        let in_block = count_of_block(&flashblocks, block.number);
        self.metrics.flashblocks_in_block.record(in_block);

        if pending_blocks.latest_block_number() <= block.number {
            self.metrics.pending_clear_catchup.increment(1);
            self.metrics.pending_snapshot_height.set(pending_blocks.latest_block_number());
            self.metrics.pending_snapshot_fb_index.set(pending_blocks.latest_flashblock_index());
            return Decision::Replace(None);
        }
        let tracked_txns = pending_blocks.transactions_for_block(block.number);
        let tracked_txn_hashes = hash_set(hashes_of(&tracked_txns));
        let block_txn_hashes = hash_set(copy_all(&block.transaction_hashes));
        let flashblocks = keep_after(flashblocks, block.number);

        if !hash_set_eq(&tracked_txn_hashes, &block_txn_hashes) {
            self.metrics.pending_clear_reorg.increment(1);
            return Decision::Build { prev_pending_blocks: None, flashblocks };
        }
        Decision::Build { prev_pending_blocks: Some(pending_blocks), flashblocks }
    }

    /// Decides what a flashblock makes of the pending state.
    ///
    /// The flashblock that continues what is pending is built upon it. One that was received
    /// before is ignored. Any other drops the pending state. Where nothing is pending, only the
    /// first flashblock of a block is built from.
    pub fn process_flashblock(&mut self, flashblock: Flashblock) -> (r: Decision)
        ensures
            final(self).pending() == old(self).pending(),
            settles(r, settled(old(self).pending(), StateUpdate::Flashblock(flashblock))),
            match old(self).pending() {
                None => {
                    &&& if flashblock.index == 0 {
                        builds_with(r, None, Seq::empty(), flashblock)
                    } else {
                        r == Decision::Replace(None)
                    }
                    &&& final(self).reported() == old(self).reported()
                },
                Some(pending) => {
                    let unexpected = MetricsView {
                        unexpected_block_order: counted(
                            old(self).reported().unexpected_block_order,
                            1,
                        ),
                        ..old(self).reported()
                    };
                    if is_next(pending@, flashblock) {
                        &&& builds_with(r, Some(pending), pending@.flashblocks, flashblock)
                        &&& final(self).reported() == old(self).reported()
                    } else if is_duplicate(pending@, flashblock) {
                        &&& r == Decision::Replace(Some(pending))
                        &&& final(self).reported() == unexpected
                    } else {
                        &&& r == Decision::Replace(None)
                        &&& final(self).reported() == unexpected
                    }
                },
            },
    {
        let pending_blocks = match &self.pending_blocks {
            Some(pending_blocks) => pending_blocks.clone(),
            None => {
                if flashblock.index == 0 {
                    let mut flashblocks: Vec<Arc<Flashblock>> = Vec::new();
                    flashblocks.push(Arc::new(flashblock));
                    return Decision::Build { prev_pending_blocks: None, flashblocks };
                }
                return Decision::Replace(None);
            },
        };
        if Self::is_next_flashblock(&pending_blocks, &flashblock) {
            let mut flashblocks = pending_blocks.flashblocks();
            flashblocks.push(Arc::new(flashblock));
            Decision::Build { prev_pending_blocks: Some(pending_blocks), flashblocks }
        } else if pending_blocks.latest_block_number() != flashblock.metadata.block_number {
            self.metrics.unexpected_block_order.increment(1);
            Decision::Replace(None)
        } else if pending_blocks.latest_flashblock_index() == flashblock.index {
            self.metrics.unexpected_block_order.increment(1);
            Decision::Replace(Some(pending_blocks))
        } else {
            self.metrics.unexpected_block_order.increment(1);
            Decision::Replace(None)
        }
    }

    /// Stores a pending state, and makes the gauges show it.
    fn store(&mut self, pending_blocks: Option<Arc<PendingBlocks>>)
        ensures
            final(self).pending() == pending_blocks,
            final(self).reported() == shown(old(self).reported(), pending_blocks),
    {
        if let Some(pending) = &pending_blocks {
            self.metrics.pending_snapshot_height.set(pending.latest_block_number());
            self.metrics.pending_snapshot_fb_index.set(pending.latest_flashblock_index());
        }
        self.pending_blocks = pending_blocks;
    }

    /// Takes in what came of a canonical block. Where it failed, the pending state stays as it is.
    pub fn finish_canonical_block<E>(&mut self, outcome: Result<Option<Arc<PendingBlocks>>, E>)
        ensures
            final(self).pending() == stored(old(self).pending(), success(outcome)),
            final(self).reported() == match outcome {
                Ok(pending) => shown(old(self).reported(), pending),
                Err(_) => old(self).reported(),
            },
    {
        if let Ok(pending_blocks) = outcome {
            self.store(pending_blocks);
        }
    }

    /// Takes in what came of a flashblock, and returns the pending state to announce, if any.
    /// Where it failed, the pending state stays as it is and nothing is announced.
    pub fn finish_flashblock<E>(&mut self, outcome: Result<Option<Arc<PendingBlocks>>, E>) -> (r:
        Option<Arc<PendingBlocks>>)
        ensures
            final(self).pending() == stored(old(self).pending(), success(outcome)),
            r == announced(success(outcome)),
            final(self).reported() == match outcome {
                Ok(pending) => shown(old(self).reported(), pending),
                Err(_) => MetricsView {
                    block_processing_error: counted(
                        old(self).reported().block_processing_error,
                        1,
                    ),
                    ..old(self).reported()
                },
            },
    {
        match outcome {
            Ok(pending_blocks) => {
                self.store(pending_blocks);
                self.pending_blocks()
            },
            Err(_) => {
                self.metrics.block_processing_error.increment(1);
                None
            },
        }
    }
}

/// The number of flashblocks of the block with the given number.
fn count_of_block(flashblocks: &Vec<Arc<Flashblock>>, number: u64) -> (r: u64)
    ensures
        r == flashblocks_of(flashblocks@, number).len(),
{
    let ghost of_block = |flashblock: Arc<Flashblock>| flashblock.metadata.block_number == number;
    let mut count: u64 = 0;
    let mut i: usize = 0;
    reveal(Seq::filter);
    while i < flashblocks.len()
        invariant
            i <= flashblocks.len(),
            count <= i,
            of_block == (|flashblock: Arc<Flashblock>| flashblock.metadata.block_number == number),
            count == flashblocks@.take(i as int).filter(of_block).len(),
        decreases flashblocks.len() - i,
    {
        let flashblock = &flashblocks[i];
        proof {
            assert(flashblocks@.take(i + 1) =~= flashblocks@.take(i as int).push(*flashblock));
            flashblocks@.take(i as int).lemma_filter_push(*flashblock, of_block);
        }
        if flashblock.metadata.block_number == number {
            count += 1;
        }
        i += 1;
    }
    assert(flashblocks@.take(i as int) =~= flashblocks@);
    count
}

/// Keeps the flashblocks of blocks beyond the one with the given number.
fn keep_after(flashblocks: Vec<Arc<Flashblock>>, number: u64) -> (r: Vec<Arc<Flashblock>>)
    ensures
        r@ == flashblocks_after(flashblocks@, number),
{
    let ghost after = |flashblock: Arc<Flashblock>| flashblock.metadata.block_number > number;
    let mut r: Vec<Arc<Flashblock>> = Vec::new();
    let mut i: usize = 0;
    reveal(Seq::filter);
    while i < flashblocks.len()
        invariant
            i <= flashblocks.len(),
            after == (|flashblock: Arc<Flashblock>| flashblock.metadata.block_number > number),
            r@ == flashblocks@.take(i as int).filter(after),
        decreases flashblocks.len() - i,
    {
        let flashblock = &flashblocks[i];
        proof {
            assert(flashblocks@.take(i + 1) =~= flashblocks@.take(i as int).push(*flashblock));
            flashblocks@.take(i as int).lemma_filter_push(*flashblock, after);
        }
        if flashblock.metadata.block_number > number {
            r.push(flashblock.clone());
        }
        i += 1;
    }
    assert(flashblocks@.take(i as int) =~= flashblocks@);
    r
}

/// A flashblock that was received before does not continue what is pending.
pub proof fn law_duplicate_is_not_next(pending: PendingBlocksView, flashblock: Flashblock)
    requires
        is_duplicate(pending, flashblock),
    ensures
        !is_next(pending, flashblock),
{
}

/// What stays pending after a canonical block are the flashblocks of later blocks, all of them.
pub proof fn law_only_later_blocks_stay(
    flashblocks: Seq<Arc<Flashblock>>,
    number: u64,
    flashblock: Arc<Flashblock>,
)
    ensures
        flashblocks_after(flashblocks, number).contains(flashblock) <==> {
            &&& flashblocks.contains(flashblock)
            &&& flashblock.metadata.block_number > number
        },
{
    let after = |flashblock: Arc<Flashblock>| flashblock.metadata.block_number > number;
    let kept = flashblocks.filter(after);
    if kept.contains(flashblock) {
        let i = choose|i: int| 0 <= i < kept.len() && kept[i] == flashblock;
        flashblocks.lemma_filter_pred(after, i);
        flashblocks.lemma_filter_contains_rev(after, flashblock);
    }
    if flashblocks.contains(flashblock) && after(flashblock) {
        let i = choose|i: int| 0 <= i < flashblocks.len() && flashblocks[i] == flashblock;
        flashblocks.lemma_filter_contains(after, i);
    }
}

/// A canonical block does not disturb the order of the flashblocks that stay pending.
pub proof fn law_later_blocks_keep_order(flashblocks: Seq<Arc<Flashblock>>, number: u64)
    requires
        in_block_order(flashblocks),
    ensures
        in_block_order(flashblocks_after(flashblocks, number)),
    decreases flashblocks.len(),
{
    reveal(Seq::filter);
    if flashblocks.len() > 0 {
        let fewer = flashblocks.drop_last();
        let last = flashblocks.last();
        assert forall|i: int, j: int| 0 <= i <= j < fewer.len() implies (
        #[trigger] fewer[i]).metadata.block_number <= (
        #[trigger] fewer[j]).metadata.block_number by {
            assert(fewer[i] == flashblocks[i] && fewer[j] == flashblocks[j]);
        }
        law_later_blocks_keep_order(fewer, number);
        let kept = flashblocks_after(fewer, number);
        if last.metadata.block_number > number {
            let more = kept.push(last);
            assert(flashblocks_after(flashblocks, number) == more);
            assert forall|i: int, j: int| 0 <= i <= j < more.len() implies (
            #[trigger] more[i]).metadata.block_number <= (
            #[trigger] more[j]).metadata.block_number by {
                if j < kept.len() {
                    assert(more[i] == kept[i] && more[j] == kept[j]);
                } else if i < kept.len() {
                    assert(kept.contains(kept[i]));
                    law_only_later_blocks_stay(fewer, number, kept[i]);
                    let m = choose|m: int| 0 <= m < fewer.len() && fewer[m] == kept[i];
                    assert(flashblocks[m] == kept[i]);
                    assert(flashblocks[m].metadata.block_number <= flashblocks[flashblocks.len()
                        - 1].metadata.block_number);
                }
            }
        }
    }
}

/// Where the last pending flashblock is of the latest block, a canonical block that has not caught
/// up leaves something to build from, and nothing of block 0.
pub proof fn law_something_stays_pending(pending: PendingBlocksView, number: u64)
    requires
        pending.complete(),
        pending.flashblocks.last().metadata.block_number == pending.latest_block_number(),
        number < pending.latest_block_number(),
    ensures
        flashblocks_after(pending.flashblocks, number).len() > 0,
        forall|k: int|
            0 <= k < flashblocks_after(pending.flashblocks, number).len() ==> (
            #[trigger] flashblocks_after(pending.flashblocks, number)[k]).metadata.block_number > 0,
{
    let kept = flashblocks_after(pending.flashblocks, number);
    assert(pending.flashblocks.contains(pending.flashblocks.last()));
    law_only_later_blocks_stay(pending.flashblocks, number, pending.flashblocks.last());
    assert forall|k: int| 0 <= k < kept.len() implies (
    #[trigger] kept[k]).metadata.block_number > 0 by {
        assert(kept.contains(kept[k]));
        law_only_later_blocks_stay(pending.flashblocks, number, kept[k]);
    }
}

/// Where the groups up to `m` are of blocks that a canonical block has caught up with, how many of
/// them are.
proof fn lemma_caught_up(
    groups: Seq<Seq<Arc<Flashblock>>>,
    flashblocks: Seq<Arc<Flashblock>>,
    number: u64,
    m: int,
) -> (n: int)
    requires
        is_grouping(groups, flashblocks),
        0 <= m <= groups.len(),
        forall|i: int| 0 <= i < m ==> number_of(#[trigger] groups[i]) <= number,
    ensures
        0 <= n <= groups.len(),
        forall|i: int| 0 <= i < n ==> number_of(#[trigger] groups[i]) <= number,
        forall|i: int| n <= i < groups.len() ==> number_of(#[trigger] groups[i]) > number,
    decreases groups.len() - m,
{
    if m == groups.len() || number_of(groups[m]) > number {
        assert forall|i: int| m <= i < groups.len() implies number_of(#[trigger] groups[i])
            > number by {
            if m < i {
                assert(number_of(groups[m]) < number_of(groups[i]));
            }
        }
        m
    } else {
        lemma_caught_up(groups, flashblocks, number, m + 1)
    }
}

/// A canonical block takes whole blocks away: what stays pending is grouped as it was, without the
/// first groups, those of blocks that are not later.
pub proof fn law_later_groups_stay(
    groups: Seq<Seq<Arc<Flashblock>>>,
    flashblocks: Seq<Arc<Flashblock>>,
    number: u64,
) -> (n: int)
    requires
        is_grouping(groups, flashblocks),
    ensures
        0 <= n <= groups.len(),
        forall|i: int| 0 <= i < n ==> number_of(#[trigger] groups[i]) <= number,
        is_grouping(groups.skip(n), flashblocks_after(flashblocks, number)),
{
    let n = lemma_caught_up(groups, flashblocks, number, 0);
    let later = groups.skip(n);
    let kept = flashblocks_after(flashblocks, number);
    assert forall|i: int| 0 <= i < later.len() implies {
        &&& (#[trigger] later[i]).len() > 0
        &&& later[i] == flashblocks_of(kept, number_of(later[i]))
    } by {
        assert(later[i] == groups[n + i]);
        let of = number_of(groups[n + i]);
        lemma_filter_twice(
            flashblocks,
            |flashblock: Arc<Flashblock>| flashblock.metadata.block_number > number,
            |flashblock: Arc<Flashblock>| flashblock.metadata.block_number == of,
        );
    }
    assert forall|i: int, j: int| 0 <= i < j < later.len() implies number_of(#[trigger] later[i])
        < number_of(#[trigger] later[j]) by {
        assert(number_of(groups[n + i]) < number_of(groups[n + j]));
    }
    assert forall|k: int| 0 <= k < kept.len() implies has_group(
        later,
        (#[trigger] kept[k]).metadata.block_number,
    ) by {
        assert(kept.contains(kept[k]));
        law_only_later_blocks_stay(flashblocks, number, kept[k]);
        let m = choose|m: int| 0 <= m < flashblocks.len() && flashblocks[m] == kept[k];
        assert(has_group(groups, flashblocks[m].metadata.block_number));
        let i = choose|i: int|
            0 <= i < groups.len() && number_of(#[trigger] groups[i])
                == flashblocks[m].metadata.block_number;
        assert(later[i - n] == groups[i]);
    }
    n
}

/// The flashblock that continues what is pending comes last: nothing that is pending is of a
/// later block, and among the groups it is the last flashblock of the last one. This is so where
/// the pending flashblocks are in block order and the last one is of the latest block.
pub proof fn law_next_comes_last(
    pending: PendingBlocksView,
    flashblock: Arc<Flashblock>,
    groups: Seq<Seq<Arc<Flashblock>>>,
)
    requires
        pending.complete(),
        in_block_order(pending.flashblocks),
        pending.flashblocks.last().metadata.block_number == pending.latest_block_number(),
        is_next(pending, *flashblock),
        is_grouping(groups, pending.flashblocks.push(flashblock)),
    ensures
        in_block_order(pending.flashblocks.push(flashblock)),
        groups.flatten() == pending.flashblocks.push(flashblock),
        groups.len() > 0,
        groups.last().last() == flashblock,
{
    let earlier = pending.flashblocks;
    let all = earlier.push(flashblock);
    assert forall|i: int, j: int| 0 <= i <= j < all.len() implies (
    #[trigger] all[i]).metadata.block_number <= (#[trigger] all[j]).metadata.block_number by {
        if j < earlier.len() {
            assert(all[i] == earlier[i] && all[j] == earlier[j]);
        } else if i < earlier.len() {
            assert(all[i] == earlier[i]);
            assert(earlier[i].metadata.block_number <= earlier[earlier.len()
                - 1].metadata.block_number);
        }
    }
    law_grouping_keeps_order(groups, all);
    assert(has_group(groups, all[0].metadata.block_number));
    assert(groups[groups.len() - 1].len() > 0);
    lemma_last_of_flatten(groups);
}

/// A pending state that was built is ready for [`law_next_comes_last`]: its flashblocks are in
/// block order, and the last one is of the latest block, where the base of that block and its
/// flashblocks agree on its number.
pub proof fn law_built_state_is_ready(
    pending: PendingBlocksView,
    blocks: Seq<Seq<Arc<Flashblock>>>,
    flashblocks: Seq<Arc<Flashblock>>,
)
    requires
        is_grouping(blocks, flashblocks),
        blocks.len() > 0,
        holds(pending, blocks, None, 0),
        payload_of(blocks.last()).block_number == number_of(blocks.last()),
    ensures
        pending.complete(),
        in_block_order(pending.flashblocks),
        pending.flashblocks.last().metadata.block_number == pending.latest_block_number(),
{
    law_grouped_is_in_order(blocks, flashblocks);
    law_ends(pending, blocks);
    let last = blocks.len() - 1;
    assert(blocks[last].len() > 0);
    lemma_members_of_group(blocks, flashblocks, last);
    assert(blocks[last][blocks[last].len() - 1].metadata.block_number == number_of(blocks[last]));
    blocks.lemma_flatten_length_ge_single_element_length(last);
}

/// Whether a canonical block is taken for the pending one depends on which transactions it holds,
/// not on their order or on how often they are listed.
pub proof fn law_reorg_by_transaction_set(
    pending: PendingBlocksView,
    a: CanonicalBlock,
    b: CanonicalBlock,
)
    requires
        a.number == b.number,
        a.transaction_hashes@.to_set() == b.transaction_hashes@.to_set(),
    ensures
        is_reorg(pending, a) == is_reorg(pending, b),
{
}

/// A canonical block that holds the transactions of the pending block with its number is taken
/// for it, where no other pending block has that number.
pub proof fn law_same_block_is_no_reorg(
    pending: PendingBlocksView,
    blocks: Seq<Seq<Arc<Flashblock>>>,
    i: int,
    block: CanonicalBlock,
)
    requires
        holds(pending, blocks, None, 0),
        0 <= i < blocks.len(),
        forall|j: int|
            0 <= j < blocks.len() && j != i ==> payload_of(#[trigger] blocks[j]).block_number
                != payload_of(blocks[i]).block_number,
        block.number == payload_of(blocks[i]).block_number,
        block.transaction_hashes@ == reported_transactions(blocks[i]).map_values(
            |tx: Transaction| tx.hash(),
        ),
    ensures
        !is_reorg(pending, block),
{
    law_transactions_by_block(pending, blocks, i);
    let seen = pending.transactions_in(block.number);
    assert forall|k: int| 0 <= k < seen.len() implies #[trigger] tx_hashes(seen)[k]
        == block.transaction_hashes@[k] by {
        assert(unshared(seen)[k] == *seen[k]);
    }
    assert(seen.len() == unshared(seen).len());
    assert(tx_hashes(seen) =~= block.transaction_hashes@);
}

/// What a flashblock does depends on its place alone, seen from the latest header and the last
/// flashblock of what is pending. The next flashblock of the latest block, and the first one of the
/// block after it, are built upon what is pending, from all of its flashblocks and the new one. A
/// flashblock at the place of the last one changes nothing. Any other clears what is pending. All
/// but those that are built are reported as unexpected.
pub proof fn law_place_decides(
    pending: Arc<PendingBlocks>,
    processor: &mut StateProcessor,
    flashblock: Arc<Flashblock>,
    decision: Decision,
)
    requires
        old(processor).pending() == Some(pending),
        call_ensures(StateProcessor::process_flashblock, (processor, *flashblock), decision),
        pending@.headers.len() > 0,
        pending@.flashblocks.len() > 0,
    ensures
        final(processor).pending() == old(processor).pending(),
        ({
            let latest = pending@.headers[pending@.headers.len() - 1].fields.number as int;
            let last_index = pending@.flashblocks[pending@.flashblocks.len() - 1].index as int;
            let number = flashblock.metadata.block_number as int;
            let index = flashblock.index as int;
            let before = old(processor).reported();
            let unexpected = final(processor).reported().unexpected_block_order;
            if (number == latest && index == last_index + 1) || (number == latest + 1 && index
                == 0) {
                &&& decision matches Decision::Build { prev_pending_blocks, flashblocks } && {
                    &&& prev_pending_blocks == Some(pending)
                    &&& flashblocks@ == pending@.flashblocks.push(flashblock)
                }
                &&& final(processor).reported() == old(processor).reported()
            } else {
                &&& if number == latest && index == last_index {
                    decision == Decision::Replace(Some(pending))
                } else {
                    decision == Decision::Replace(None)
                }
                &&& before.unexpected_block_order < u64::MAX ==> unexpected
                    == before.unexpected_block_order + 1
                &&& final(processor).reported() == (MetricsView {
                    unexpected_block_order: unexpected,
                    ..before
                })
            }
        }),
{
}

/// Seen from a pending state that was built, the next flashblock is the one that goes on where the
/// last pending flashblock ends, however many blocks and flashblocks are pending: the same block
/// and the index after it, or the block after it and index 0. It is built upon what is pending. The
/// same place again changes nothing, and every other place clears what is pending. This is so
/// where the base of the latest block and its flashblocks agree on its number.
pub proof fn law_next_goes_on_from_the_last(
    pending: Arc<PendingBlocks>,
    blocks: Seq<Seq<Arc<Flashblock>>>,
    received: Seq<Arc<Flashblock>>,
    processor: &mut StateProcessor,
    flashblock: Arc<Flashblock>,
    decision: Decision,
)
    requires
        is_grouping(blocks, received),
        blocks.len() > 0,
        holds(pending@, blocks, None, 0),
        blocks.last()[0].base.unwrap().block_number == blocks.last()[0].metadata.block_number,
        old(processor).pending() == Some(pending),
        call_ensures(StateProcessor::process_flashblock, (processor, *flashblock), decision),
    ensures
        pending@.flashblocks.len() > 0,
        ({
            let last = pending@.flashblocks[pending@.flashblocks.len() - 1];
            let same_block = flashblock.metadata.block_number == last.metadata.block_number;
            let next_block = flashblock.metadata.block_number == last.metadata.block_number + 1;
            if same_block && flashblock.index == last.index + 1 || next_block && flashblock.index
                == 0 {
                &&& decision matches Decision::Build { prev_pending_blocks, flashblocks } && {
                    &&& prev_pending_blocks == Some(pending)
                    &&& flashblocks@ == pending@.flashblocks.push(flashblock)
                }
                &&& final(processor).reported() == old(processor).reported()
            } else if same_block && flashblock.index == last.index {
                decision == Decision::Replace(Some(pending))
            } else {
                decision == Decision::Replace(None)
            }
        }),
{
    law_built_state_is_ready(pending@, blocks, received);
    law_place_decides(pending, processor, flashblock, decision);
}

/// Whether flashblocks come one after the other without a gap: the first one with index 0, and each
/// with the index after that of the one before it, in the same block, or with index 0 in the block
/// after.
pub open spec fn is_orderly(stream: Seq<Arc<Flashblock>>) -> bool {
    &&& stream.len() > 0 ==> stream[0].index == 0
    &&& forall|i: int|
        0 < i < stream.len() ==> {
            let earlier = stream[i - 1];
            let flashblock = #[trigger] stream[i];
            ||| {
                &&& flashblock.metadata.block_number == earlier.metadata.block_number
                &&& flashblock.index == earlier.index + 1
            }
            ||| {
                &&& flashblock.metadata.block_number == earlier.metadata.block_number + 1
                &&& flashblock.index == 0
            }
        }
}

/// Flashblocks that come without a gap are in block order.
proof fn lemma_orderly_is_in_order(stream: Seq<Arc<Flashblock>>, i: int, j: int)
    requires
        is_orderly(stream),
        0 <= i <= j < stream.len(),
    ensures
        stream[i].metadata.block_number <= stream[j].metadata.block_number,
    decreases j,
{
    if i < j {
        lemma_orderly_is_in_order(stream, i, j - 1);
    }
}

/// A stream without a gap is followed: where what was built from its first `n` flashblocks is
/// pending, the one after them is built upon it, from the first `n + 1` of the stream. Nothing is
/// dropped and nothing reported as unexpected, however many blocks the stream spans. With nothing
/// pending, the build starts with the first one.
pub proof fn law_orderly_stream_is_followed(
    stream: Seq<Arc<Flashblock>>,
    n: int,
    pending: Option<Arc<PendingBlocks>>,
    blocks: Seq<Seq<Arc<Flashblock>>>,
    processor: &mut StateProcessor,
    decision: Decision,
)
    requires
        is_orderly(stream),
        0 <= n < stream.len(),
        pending is None <==> n == 0,
        pending matches Some(state) ==> {
            &&& is_grouping(blocks, stream.take(n))
            &&& holds(state@, blocks, None, 0)
            &&& blocks.last()[0].base.unwrap().block_number
                == blocks.last()[0].metadata.block_number
        },
        old(processor).pending() == pending,
        call_ensures(StateProcessor::process_flashblock, (processor, *stream[n]), decision),
    ensures
        decision matches Decision::Build { prev_pending_blocks, flashblocks } && {
            &&& prev_pending_blocks == pending
            &&& flashblocks@ == stream.take(n + 1)
        },
        final(processor).reported() == old(processor).reported(),
{
    let earlier = stream.take(n);
    assert(stream.take(n + 1) =~= earlier.push(stream[n]));
    match pending {
        None => {
            assert(earlier =~= Seq::empty());
        },
        Some(state) => {
            assert forall|i: int, j: int| 0 <= i <= j < earlier.len() implies (
            #[trigger] earlier[i]).metadata.block_number <= (
            #[trigger] earlier[j]).metadata.block_number by {
                lemma_orderly_is_in_order(stream, i, j);
            }
            assert(has_group(blocks, earlier[0].metadata.block_number));
            law_grouping_keeps_order(blocks, earlier);
            assert(state@.flashblocks[n - 1] == stream[n - 1]);
            law_next_goes_on_from_the_last(
                state,
                blocks,
                earlier,
                processor,
                stream[n],
                decision,
            );
        },
    }
}

/// Where nothing is pending, a flashblock of index 0 is built from, alone and upon nothing, and any
/// other is let pass. None is reported as unexpected.
pub proof fn law_first_flashblock_starts(
    processor: &mut StateProcessor,
    flashblock: Flashblock,
    decision: Decision,
)
    requires
        old(processor).pending() is None,
        call_ensures(StateProcessor::process_flashblock, (processor, flashblock), decision),
    ensures
        flashblock.index == 0 ==> (decision matches Decision::Build {
            prev_pending_blocks,
            flashblocks,
        } && prev_pending_blocks is None && flashblocks@ == seq![Arc::new(flashblock)]),
        flashblock.index != 0 ==> decision == Decision::Replace(None),
        final(processor).reported() == old(processor).reported(),
{
    if let Decision::Build { prev_pending_blocks, flashblocks } = decision {
        assert(flashblocks@ =~= seq![Arc::new(flashblock)]);
    }
}

/// Whether a transaction with the given hash is pending in the block with the given number.
pub open spec fn is_pending_in(pending: PendingBlocksView, number: u64, hash: B256) -> bool {
    exists|i: int|
        0 <= i < pending.transactions.len() && (#[trigger] pending.transactions[i]).block_number
            == Some(number) && pending.transactions[i].inner.fields.hash == hash
}

/// The hashes of the transactions of a pending block are those that are pending in it.
proof fn lemma_hashes_in_block(pending: PendingBlocksView, number: u64, hash: B256)
    ensures
        tx_hashes(pending.transactions_in(number)).to_set().contains(hash) <==> is_pending_in(
            pending,
            number,
            hash,
        ),
{
    let seen = pending.transactions_in(number);
    let hashes = tx_hashes(seen);
    if hashes.contains(hash) {
        let i = choose|i: int| 0 <= i < hashes.len() && hashes[i] == hash;
        assert(seen.contains(seen[i]));
        law_transactions_in_block(pending, number, seen[i]);
        let k = choose|k: int|
            0 <= k < pending.transactions.len() && pending.transactions[k] == seen[i];
        assert(pending.transactions[k].block_number == Some(number));
    }
    if is_pending_in(pending, number, hash) {
        let k = choose|k: int|
            0 <= k < pending.transactions.len() && (
            #[trigger] pending.transactions[k]).block_number == Some(number)
                && pending.transactions[k].inner.fields.hash == hash;
        assert(pending.transactions.contains(pending.transactions[k]));
        law_transactions_in_block(pending, number, pending.transactions[k]);
        let i = choose|i: int| 0 <= i < seen.len() && seen[i] == pending.transactions[k];
        assert(hashes[i] == hash);
    }
    assert(hashes.to_set().contains(hash) <==> hashes.contains(hash));
}

/// A canonical block below the latest pending one that has a transaction which was not pending in
/// its block, or lacks one that was, is a reorg: what lies beyond it is built from scratch, however
/// many blocks that are, and the reorg is reported.
pub proof fn law_other_transactions_are_a_reorg(
    pending: Arc<PendingBlocks>,
    processor: &mut StateProcessor,
    block: &CanonicalBlock,
    decision: Decision,
    hash: B256,
)
    requires
        old(processor).pending() == Some(pending),
        call_ensures(StateProcessor::process_canonical_block, (processor, block), decision),
        pending@.headers.len() > 0,
        block.number < pending@.headers[pending@.headers.len() - 1].fields.number,
        block.transaction_hashes@.contains(hash) != is_pending_in(pending@, block.number, hash),
    ensures
        decision matches Decision::Build { prev_pending_blocks, flashblocks } && {
            &&& prev_pending_blocks is None
            &&& flashblocks@ == flashblocks_after(pending@.flashblocks, block.number)
        },
        ({
            let before = old(processor).reported();
            let after = final(processor).reported();
            &&& before.pending_clear_reorg < u64::MAX ==> after.pending_clear_reorg
                == before.pending_clear_reorg + 1
            &&& after.pending_clear_catchup == before.pending_clear_catchup
        }),
{
    lemma_hashes_in_block(pending@, block.number, hash);
    assert(block.transaction_hashes@.to_set().contains(hash)
        <==> block.transaction_hashes@.contains(hash));
}

/// A canonical block below the latest pending one that has exactly the transactions that were
/// pending in its block is no reorg: what lies beyond it is built upon what is pending.
pub proof fn law_same_transactions_are_no_reorg(
    pending: Arc<PendingBlocks>,
    processor: &mut StateProcessor,
    block: &CanonicalBlock,
    decision: Decision,
)
    requires
        old(processor).pending() == Some(pending),
        call_ensures(StateProcessor::process_canonical_block, (processor, block), decision),
        pending@.headers.len() > 0,
        block.number < pending@.headers[pending@.headers.len() - 1].fields.number,
        forall|hash: B256| #[trigger]
            block.transaction_hashes@.contains(hash) == is_pending_in(
                pending@,
                block.number,
                hash,
            ),
    ensures
        decision matches Decision::Build { prev_pending_blocks, flashblocks } && {
            &&& prev_pending_blocks == Some(pending)
            &&& flashblocks@ == flashblocks_after(pending@.flashblocks, block.number)
        },
        ({
            let before = old(processor).reported();
            let after = final(processor).reported();
            &&& after.pending_clear_reorg == before.pending_clear_reorg
            &&& after.pending_clear_catchup == before.pending_clear_catchup
        }),
{
    let seen = tx_hashes(pending@.transactions_in(block.number)).to_set();
    let held = block.transaction_hashes@.to_set();
    assert forall|hash: B256| seen.contains(hash) == held.contains(hash) by {
        lemma_hashes_in_block(pending@, block.number, hash);
        assert(held.contains(hash) <==> block.transaction_hashes@.contains(hash));
    }
    assert(seen =~= held);
}

/// A canonical block that is not below the latest pending one clears what is pending, whatever
/// either of them holds, and is reported as one that caught up.
pub proof fn law_caught_up_clears(
    pending: Arc<PendingBlocks>,
    processor: &mut StateProcessor,
    block: &CanonicalBlock,
    decision: Decision,
)
    requires
        old(processor).pending() == Some(pending),
        call_ensures(StateProcessor::process_canonical_block, (processor, block), decision),
        pending@.headers.len() > 0,
        pending@.flashblocks.len() > 0,
        block.number >= pending@.headers[pending@.headers.len() - 1].fields.number,
    ensures
        decision == Decision::Replace(None),
        ({
            let before = old(processor).reported();
            let after = final(processor).reported();
            &&& before.pending_clear_catchup < u64::MAX ==> after.pending_clear_catchup
                == before.pending_clear_catchup + 1
            &&& after.pending_clear_reorg == before.pending_clear_reorg
            &&& after.pending_snapshot_height == Some(
                pending@.headers[pending@.headers.len() - 1].fields.number,
            )
            &&& after.pending_snapshot_fb_index == Some(
                pending@.flashblocks[pending@.flashblocks.len() - 1].index,
            )
        }),
{
}

/// A canonical block changes nothing and is not reported where nothing is pending.
pub proof fn law_nothing_pending_nothing_to_reconcile(
    processor: &mut StateProcessor,
    block: &CanonicalBlock,
    decision: Decision,
)
    requires
        old(processor).pending() is None,
        call_ensures(StateProcessor::process_canonical_block, (processor, block), decision),
    ensures
        decision == Decision::Replace(None),
        final(processor).reported() == old(processor).reported(),
{
}

/// The flashblocks of a pending block are those that it was built from.
pub proof fn law_flashblocks_of_block(
    pending: PendingBlocksView,
    blocks: Seq<Seq<Arc<Flashblock>>>,
    received: Seq<Arc<Flashblock>>,
    number: u64,
    i: int,
)
    requires
        is_grouping(blocks, received),
        holds(pending, blocks, None, 0),
    ensures
        0 <= i < blocks.len() && blocks[i][0].metadata.block_number == number ==> flashblocks_of(
            pending.flashblocks,
            number,
        ) == blocks[i],
        !has_group(blocks, number) ==> flashblocks_of(pending.flashblocks, number) == Seq::<
            Arc<Flashblock>,
        >::empty(),
{
    let all = pending.flashblocks;
    assert(is_grouping(blocks, all)) by {
        law_regrouping_is_stable(blocks, received);
    }
    let of = |flashblock: Arc<Flashblock>| flashblock.metadata.block_number == number;
    if 0 <= i < blocks.len() && number_of(blocks[i]) == number {
        assert(blocks[i] == flashblocks_of(all, number_of(blocks[i])));
    }
    if !has_group(blocks, number) {
        if all.filter(of).len() > 0 {
            let found = all.filter(of)[0];
            all.lemma_filter_pred(of, 0);
            all.lemma_filter_contains_rev(of, found);
            let k = choose|k: int| 0 <= k < all.len() && all[k] == found;
            assert(has_group(blocks, all[k].metadata.block_number));
        }
        assert(all.filter(of) =~= Seq::empty());
    }
}

/// Whatever is decided on a canonical block, the number of its flashblocks that were pending is
/// reported, and nothing besides what the laws above name.
pub proof fn law_flashblocks_of_block_are_reported(
    pending: Arc<PendingBlocks>,
    blocks: Seq<Seq<Arc<Flashblock>>>,
    received: Seq<Arc<Flashblock>>,
    processor: &mut StateProcessor,
    block: &CanonicalBlock,
    decision: Decision,
    i: int,
)
    requires
        old(processor).pending() == Some(pending),
        call_ensures(StateProcessor::process_canonical_block, (processor, block), decision),
        is_grouping(blocks, received),
        holds(pending@, blocks, None, 0),
    ensures
        final(processor).pending() == old(processor).pending(),
        ({
            let before = old(processor).reported();
            let after = final(processor).reported();
            &&& 0 <= i < blocks.len() && blocks[i][0].metadata.block_number == block.number
                ==> after.flashblocks_in_block == before.flashblocks_in_block.push(
                blocks[i].len() as u64,
            )
            &&& !has_group(blocks, block.number) ==> after.flashblocks_in_block
                == before.flashblocks_in_block.push(0)
            &&& after == (MetricsView {
                flashblocks_in_block: after.flashblocks_in_block,
                pending_clear_catchup: after.pending_clear_catchup,
                pending_clear_reorg: after.pending_clear_reorg,
                pending_snapshot_height: after.pending_snapshot_height,
                pending_snapshot_fb_index: after.pending_snapshot_fb_index,
                ..before
            })
        }),
{
    law_flashblocks_of_block(pending@, blocks, received, block.number, i);
}

/// What a canonical block below the latest pending one leaves are the last flashblocks of a state
/// that was built: those of the later blocks, in order. The ones before them are all of blocks that
/// are not later.
pub proof fn law_what_stays_is_the_end(
    pending: PendingBlocksView,
    blocks: Seq<Seq<Arc<Flashblock>>>,
    received: Seq<Arc<Flashblock>>,
    number: u64,
) -> (n: int)
    requires
        is_grouping(blocks, received),
        holds(pending, blocks, None, 0),
    ensures
        0 <= n <= pending.flashblocks.len(),
        flashblocks_after(pending.flashblocks, number) == pending.flashblocks.skip(n),
        forall|i: int|
            0 <= i < n ==> (#[trigger] pending.flashblocks[i]).metadata.block_number <= number,
        forall|i: int|
            n <= i < pending.flashblocks.len() ==> (
            #[trigger] pending.flashblocks[i]).metadata.block_number > number,
{
    law_grouped_is_in_order(blocks, received);
    lemma_after_in_order(pending.flashblocks, number)
}

/// In block order, the flashblocks of later blocks are the last ones.
proof fn lemma_after_in_order(flashblocks: Seq<Arc<Flashblock>>, number: u64) -> (n: int)
    requires
        in_block_order(flashblocks),
    ensures
        0 <= n <= flashblocks.len(),
        flashblocks_after(flashblocks, number) == flashblocks.skip(n),
        forall|i: int|
            0 <= i < n ==> (#[trigger] flashblocks[i]).metadata.block_number <= number,
        forall|i: int|
            n <= i < flashblocks.len() ==> (#[trigger] flashblocks[i]).metadata.block_number
                > number,
    decreases flashblocks.len(),
{
    reveal(Seq::filter);
    if flashblocks.len() == 0 {
        assert(flashblocks_after(flashblocks, number) =~= flashblocks.skip(0));
        0
    } else {
        let fewer = flashblocks.drop_last();
        let last = flashblocks.last();
        assert forall|i: int, j: int| 0 <= i <= j < fewer.len() implies (
        #[trigger] fewer[i]).metadata.block_number <= (
        #[trigger] fewer[j]).metadata.block_number by {
            assert(fewer[i] == flashblocks[i] && fewer[j] == flashblocks[j]);
        }
        let n = lemma_after_in_order(fewer, number);
        assert forall|i: int| 0 <= i < fewer.len() implies #[trigger] flashblocks[i]
            == fewer[i] by {}
        if last.metadata.block_number > number {
            assert(flashblocks.skip(n) =~= fewer.skip(n).push(last));
            n
        } else {
            if n < fewer.len() {
                assert(fewer[n].metadata.block_number > number);
                assert(flashblocks[n].metadata.block_number <= flashblocks[flashblocks.len()
                    - 1].metadata.block_number);
            }
            assert(fewer.skip(n) =~= Seq::empty());
            assert(flashblocks.skip(flashblocks.len() as int) =~= Seq::empty());
            flashblocks.len() as int
        }
    }
}

/// Whether a flashblock is the next one is seen from the latest header and the last flashblock of
/// what is pending.
pub proof fn law_next_by_place(pending: &PendingBlocks, flashblock: &Flashblock, next: bool)
    requires
        call_ensures(StateProcessor::is_next_flashblock, (pending, flashblock), next),
        pending@.headers.len() > 0,
        pending@.flashblocks.len() > 0,
    ensures
        ({
            let latest = pending@.headers[pending@.headers.len() - 1].fields.number as int;
            let last_index = pending@.flashblocks[pending@.flashblocks.len() - 1].index as int;
            let number = flashblock.metadata.block_number as int;
            next <==> {
                ||| number == latest && flashblock.index == last_index + 1
                ||| number == latest + 1 && flashblock.index == 0
            }
        }),
{
}

/// What a flashblock came to is pending and is announced where it succeeded, and the gauges show
/// the number in its latest header and the index of its last flashblock. Where it failed, what was
/// pending stays, nothing is announced and the failure is counted.
pub proof fn law_flashblock_outcome_decides<E>(
    processor: &mut StateProcessor,
    outcome: Result<Option<Arc<PendingBlocks>>, E>,
    announced: Option<Arc<PendingBlocks>>,
)
    requires
        call_ensures(StateProcessor::finish_flashblock::<E>, (processor, outcome), announced),
    ensures
        outcome matches Ok(new) ==> {
            &&& final(processor).pending() == new
            &&& announced == new
            &&& gauges_show(new, old(processor).reported(), final(processor).reported())
        },
        outcome is Err ==> {
            let reported = old(processor).reported();
            let errors = final(processor).reported().block_processing_error;
            &&& final(processor).pending() == old(processor).pending()
            &&& announced is None
            &&& reported.block_processing_error < u64::MAX ==> errors
                == reported.block_processing_error + 1
            &&& final(processor).reported() == (MetricsView {
                block_processing_error: errors,
                ..reported
            })
        },
{
}

/// What a canonical block came to is pending where it succeeded, and the gauges show it. Where it
/// failed, what was pending stays and nothing is reported.
pub proof fn law_canonical_outcome_decides<E>(
    processor: &mut StateProcessor,
    outcome: Result<Option<Arc<PendingBlocks>>, E>,
)
    requires
        call_ensures(StateProcessor::finish_canonical_block::<E>, (processor, outcome), ()),
    ensures
        outcome matches Ok(new) ==> {
            &&& final(processor).pending() == new
            &&& gauges_show(new, old(processor).reported(), final(processor).reported())
        },
        outcome is Err ==> {
            &&& final(processor).pending() == old(processor).pending()
            &&& final(processor).reported() == old(processor).reported()
        },
{
}

/// Whether, between `before` and `after`, the gauges were set to what is pending, where something
/// is, and nothing else was reported.
pub open spec fn gauges_show(
    pending: Option<Arc<PendingBlocks>>,
    before: MetricsView,
    after: MetricsView,
) -> bool {
    &&& pending matches Some(state) ==> {
        &&& after.pending_snapshot_height == Some(state@.headers.last().fields.number)
        &&& after.pending_snapshot_fb_index == Some(state@.flashblocks.last().index)
    }
    &&& pending is None ==> after == before
    &&& after == (MetricsView {
        pending_snapshot_height: after.pending_snapshot_height,
        pending_snapshot_fb_index: after.pending_snapshot_fb_index,
        ..before
    })
}

/// What was reported is taken once: a second taking finds nothing. What is pending stays.
pub proof fn law_reports_are_taken_once(processor: &mut StateProcessor, taken: Metrics)
    requires
        call_ensures(StateProcessor::take_metrics, (processor,), taken),
    ensures
        taken@ == old(processor).reported(),
        final(processor).reported() == blank_metrics(),
        final(processor).pending() == old(processor).pending(),
{
}

/// A processor starts with nothing pending and nothing reported, and what is read of it is what is
/// pending.
pub proof fn law_processor_starts_empty(
    made: StateProcessor,
    processor: &StateProcessor,
    read: Option<Arc<PendingBlocks>>,
)
    requires
        call_ensures(StateProcessor::new, (), made),
        call_ensures(StateProcessor::pending_blocks, (processor,), read),
    ensures
        made.pending() is None,
        made.reported() == blank_metrics(),
        read == processor.pending(),
{
}

} // verus!
