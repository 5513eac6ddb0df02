//! What holds of every pending state that was built.

use std::sync::Arc;

use vstd::prelude::*;

use crate::block::{
    all_balances, all_receipts, all_transactions, envelopes_of, is_whole, payload_of, receipt_of,
    reported_transaction, reported_transactions, signer_of,
};
use crate::flashblock::{flashblocks_of, Flashblock};
use crate::grouping::{
    has_group, in_block_order, is_grouping, law_grouped_is_in_order, law_grouping_is_unique,
    law_grouping_keeps_all, law_grouping_keeps_order, lemma_members_of_group, number_of,
};
use crate::map::lookup;
use crate::overrides::EvmState;
use crate::payload::{header_rlp, keccak256_of, sealed_header};
use crate::pending_blocks::{
    lists, selected_logs, tx_hashes, PendingBlocks, PendingBlocksView,
};
use crate::pending_state::{
    executed_upon, holds, is_accounted_for, is_new_upon, overrides_upon, receipts_are_found,
    sent_by, transactions_of, unshared, BuildView,
};
use crate::primitives::{Address, B256, U256};
use crate::receipt::{Filter, OpReceipt, OpTransactionReceipt, RpcLog};
use crate::transaction::{decoded_transaction, recovered_signer, Transaction, TxEnvelope};

verus! {

/// Two pending states that were built from the same flashblocks report the same blocks, the same
/// transactions, balances and transaction counts, and have receipts for the same transactions,
/// whatever each of them was built upon.
pub proof fn law_flashblocks_decide(
    a: PendingBlocksView,
    blocks_of_a: Seq<Seq<Arc<Flashblock>>>,
    b: PendingBlocksView,
    blocks_of_b: Seq<Seq<Arc<Flashblock>>>,
    flashblocks: Seq<Arc<Flashblock>>,
)
    requires
        is_grouping(blocks_of_a, flashblocks),
        holds(a, blocks_of_a, None, 0),
        is_grouping(blocks_of_b, flashblocks),
        holds(b, blocks_of_b, None, 0),
    ensures
        a.flashblocks == b.flashblocks,
        a.headers.len() == b.headers.len(),
        forall|i: int| 0 <= i < a.headers.len() ==> (#[trigger] a.headers[i])@ == b.headers[i]@,
        a.transactions == b.transactions,
        a.account_balances == b.account_balances,
        forall|address: Address| #[trigger] a.counted_for(address) == b.counted_for(address),
        a.transaction_receipts.dom() == b.transaction_receipts.dom(),
{
    let blocks = blocks_of_a;
    law_grouping_is_unique(blocks_of_a, blocks_of_b, flashblocks);
    assert forall|i: int| 0 <= i < a.headers.len() implies (#[trigger] a.headers[i])@
        == b.headers[i]@ by {
        assert(is_whole(blocks[i]));
    }
    assert(a.transactions.len() == unshared(a.transactions).len());
    assert forall|i: int| 0 <= i < a.transactions.len() implies a.transactions[i]
        == b.transactions[i] by {
        assert(unshared(a.transactions)[i] == unshared(b.transactions)[i]);
    }
    assert(a.transactions =~= b.transactions);
    assert forall|address: Address| #[trigger] a.counted_for(address) == b.counted_for(address) by {
        assert(b.counted_for(address) == sent_by(b.transactions, address).len());
    }
}

/// Every pending transaction is found by its hash and has a receipt.
pub proof fn law_transactions_are_found(
    pending: PendingBlocksView,
    blocks: Seq<Seq<Arc<Flashblock>>>,
    i: int,
)
    requires
        holds(pending, blocks, None, 0),
        0 <= i < pending.transactions.len(),
    ensures
        pending.transaction_by_hash(pending.transactions[i].hash()) is Some,
        pending.transaction_by_hash(pending.transactions[i].hash()).unwrap().hash()
            == pending.transactions[i].hash(),
        lookup(pending.transaction_receipts, pending.transactions[i].hash()) is Some,
{
    assert(tx_hashes(pending.transactions)[i] == pending.transactions[i].hash());
    assert(tx_hashes(pending.transactions).to_set().contains(pending.transactions[i].hash()));
}

/// What is found by its hash is a pending transaction with that hash, and only pending
/// transactions have receipts.
pub proof fn law_found_is_pending(
    pending: PendingBlocksView,
    blocks: Seq<Seq<Arc<Flashblock>>>,
    hash: B256,
)
    requires
        holds(pending, blocks, None, 0),
    ensures
        pending.transaction_by_hash(hash) is Some <==> tx_hashes(pending.transactions).contains(
            hash,
        ),
        lookup(pending.transaction_receipts, hash) is Some <==> tx_hashes(
            pending.transactions,
        ).contains(hash),
        match pending.transaction_by_hash(hash) {
            Some(tx) => tx.hash() == hash && pending.transactions.contains(tx),
            None => true,
        },
{
    let hashes = tx_hashes(pending.transactions);
    if hashes.contains(hash) {
        let i = choose|i: int| 0 <= i < hashes.len() && hashes[i] == hash;
        assert(pending.transactions[i].hash() == hash);
    }
    if pending.transactions_by_index.contains_key(hash) {
        let i = pending.transactions_by_index[hash] as int;
        assert(pending.transactions[i].hash() == hash);
        assert(hashes[i] == hash);
    }
    assert(hashes.to_set().contains(hash) <==> hashes.contains(hash));
}

/// What holds of the elements of each sequence holds of all of them, joined to one.
proof fn lemma_flatten_all<T>(sequences: Seq<Seq<T>>, p: spec_fn(T) -> bool)
    requires
        forall|j: int, k: int|
            0 <= j < sequences.len() && 0 <= k < sequences[j].len() ==> p(
                #[trigger] sequences[j][k],
            ),
    ensures
        forall|i: int| 0 <= i < sequences.flatten().len() ==> p(#[trigger] sequences.flatten()[i]),
    decreases sequences.len(),
{
    if sequences.len() > 0 {
        let fewer = sequences.drop_last();
        let last = sequences.last();
        assert forall|j: int, k: int| 0 <= j < fewer.len() && 0 <= k < fewer[j].len() implies p(
            #[trigger] fewer[j][k],
        ) by {
            assert(p(sequences[j][k]));
        }
        lemma_flatten_all(fewer, p);
        assert(sequences =~= fewer.push(last));
        fewer.lemma_flatten_push(last);
        let all = fewer.flatten() + last;
        assert forall|i: int| 0 <= i < all.len() implies p(#[trigger] all[i]) by {
            if i < fewer.flatten().len() {
                assert(all[i] == fewer.flatten()[i]);
            } else {
                assert(p(sequences[sequences.len() - 1][i - fewer.flatten().len()]));
            }
        }
    }
}

/// Every pending transaction is validly signed, by the account that is reported as its sender.
pub proof fn law_senders_have_signed(
    pending: PendingBlocksView,
    blocks: Seq<Seq<Arc<Flashblock>>>,
    i: int,
)
    requires
        holds(pending, blocks, None, 0),
        0 <= i < pending.transactions.len(),
    ensures
        signer_of(pending.transactions[i].inner) == Some(pending.transactions[i].signer),
{
    let signed = |tx: Transaction| signer_of(tx.inner) == Some(tx.signer);
    let per_block = blocks.map_values(|group: Seq<Arc<Flashblock>>| reported_transactions(group));
    assert forall|j: int, k: int|
        0 <= j < per_block.len() && 0 <= k < per_block[j].len() implies signed(
        #[trigger] per_block[j][k],
    ) by {
        assert(per_block[j] == reported_transactions(blocks[j]));
        assert(is_accounted_for(blocks[j], envelopes_of(blocks[j]).len() as int));
        assert(signer_of(envelopes_of(blocks[j])[k]) is Some);
    }
    lemma_flatten_all(per_block, signed);
    assert(unshared(pending.transactions) =~= transactions_of(blocks));
    assert(signed(transactions_of(blocks)[i]));
    assert(unshared(pending.transactions)[i] == *pending.transactions[i]);
}

/// The transaction count of an account is the number of pending transactions that it sent.
pub proof fn law_transactions_are_counted(
    pending: PendingBlocksView,
    blocks: Seq<Seq<Arc<Flashblock>>>,
    address: Address,
)
    requires
        holds(pending, blocks, None, 0),
    ensures
        pending.counted_for(address) == pending.transactions.filter(
            |tx: Arc<Transaction>| tx.signer == address,
        ).len(),
{
    assert(pending.counted_for(address) == sent_by(pending.transactions, address).len());
}

/// The latest block is that of the last group of flashblocks, the latest flashblock is the last
/// one of it, and the earliest block is that of the first group.
pub proof fn law_ends(pending: PendingBlocksView, blocks: Seq<Seq<Arc<Flashblock>>>)
    requires
        holds(pending, blocks, None, 0),
        blocks.len() > 0,
    ensures
        pending.latest_block_number() == payload_of(blocks.last()).block_number,
        pending.earliest_block_number() == payload_of(blocks.first()).block_number,
        pending.flashblocks.last() == blocks.last().last(),
        pending.latest_flashblock_index() == blocks.last().last().index,
{
    assert(is_whole(blocks[blocks.len() - 1]));
    assert(is_whole(blocks[0]));
    assert(pending.headers[blocks.len() - 1]@.fields.number == payload_of(
        blocks.last(),
    ).block_number);
    assert(pending.headers[0]@.fields.number == payload_of(blocks.first()).block_number);
    assert(blocks =~= blocks.drop_last().push(blocks.last()));
    blocks.drop_last().lemma_flatten_push(blocks.last());
}

/// Selecting from a sequence all of whose elements, or none of whose elements, are selected.
proof fn lemma_filter_all_or_none<T>(s: Seq<T>, p: spec_fn(T) -> bool)
    ensures
        (forall|k: int| 0 <= k < s.len() ==> p(#[trigger] s[k])) ==> s.filter(p) == s,
        (forall|k: int| 0 <= k < s.len() ==> !p(#[trigger] s[k])) ==> s.filter(p) == Seq::<
            T,
        >::empty(),
    decreases s.len(),
{
    reveal(Seq::filter);
    if s.len() > 0 {
        let fewer = s.drop_last();
        lemma_filter_all_or_none(fewer, p);
        assert(forall|k: int| 0 <= k < fewer.len() ==> #[trigger] fewer[k] == s[k]);
        assert(s =~= fewer.push(s.last()));
        if forall|k: int| 0 <= k < s.len() ==> p(#[trigger] s[k]) {
            assert(p(s[s.len() - 1]));
            assert forall|k: int| 0 <= k < fewer.len() implies p(#[trigger] fewer[k]) by {
                assert(p(s[k]));
            }
        }
        if forall|k: int| 0 <= k < s.len() ==> !p(#[trigger] s[k]) {
            assert(!p(s[s.len() - 1]));
            assert forall|k: int| 0 <= k < fewer.len() implies !p(#[trigger] fewer[k]) by {
                assert(!p(s[k]));
            }
        }
    }
}

/// Selecting from sequences joined to one: where the elements of one of them are selected and
/// no others, that one is left.
proof fn lemma_filter_flatten<T>(sequences: Seq<Seq<T>>, p: spec_fn(T) -> bool, i: int)
    requires
        forall|j: int, k: int|
            0 <= j < sequences.len() && 0 <= k < sequences[j].len() ==> p(
                #[trigger] sequences[j][k],
            ) == (j == i),
    ensures
        sequences.flatten().filter(p) == if 0 <= i < sequences.len() {
            sequences[i]
        } else {
            Seq::empty()
        },
    decreases sequences.len(),
{
    if sequences.len() == 0 {
        assert(sequences.flatten() =~= Seq::empty());
        lemma_filter_all_or_none(sequences.flatten(), p);
    } else {
        let fewer = sequences.drop_last();
        let last = sequences.last();
        assert(sequences =~= fewer.push(last));
        fewer.lemma_flatten_push(last);
        assert forall|j: int, k: int| 0 <= j < fewer.len() && 0 <= k < fewer[j].len() implies p(
            #[trigger] fewer[j][k],
        ) == (j == i) by {
            assert(p(sequences[j][k]) == (j == i));
        }
        lemma_filter_flatten(fewer, p, i);
        Seq::filter_distributes_over_add(fewer.flatten(), last, p);
        assert forall|k: int| 0 <= k < last.len() implies p(#[trigger] last[k]) == (i
            == sequences.len() - 1) by {
            assert(p(sequences[sequences.len() - 1][k]) == (sequences.len() - 1 == i));
        }
        lemma_filter_all_or_none(last, p);
        assert(fewer.flatten().filter(p) + last.filter(p) =~= if 0 <= i < sequences.len() {
            sequences[i]
        } else {
            Seq::empty()
        });
    }
}

/// The flashblocks of a pending state group as those that it was built from did: building from
/// them again builds the same blocks.
pub proof fn law_regrouping_is_stable(
    groups: Seq<Seq<Arc<Flashblock>>>,
    flashblocks: Seq<Arc<Flashblock>>,
)
    requires
        is_grouping(groups, flashblocks),
    ensures
        is_grouping(groups, groups.flatten()),
{
    let all = groups.flatten();
    assert forall|j: int, k: int|
        0 <= j < groups.len() && 0 <= k < groups[j].len() implies (
    #[trigger] groups[j][k]).metadata.block_number == number_of(groups[j]) by {
        lemma_members_of_group(groups, flashblocks, j);
    }
    assert forall|i: int| 0 <= i < groups.len() implies {
        &&& (#[trigger] groups[i]).len() > 0
        &&& groups[i] == flashblocks_of(all, number_of(groups[i]))
    } by {
        let number = number_of(groups[i]);
        let of = |flashblock: Arc<Flashblock>| flashblock.metadata.block_number == number;
        assert forall|j: int, k: int|
            0 <= j < groups.len() && 0 <= k < groups[j].len() implies of(
            #[trigger] groups[j][k],
        ) == (j == i) by {
            if j < i {
                assert(number_of(groups[j]) < number_of(groups[i]));
            } else if i < j {
                assert(number_of(groups[i]) < number_of(groups[j]));
            }
        }
        lemma_filter_flatten(groups, of, i);
    }
    assert forall|k: int| 0 <= k < all.len() implies has_group(
        groups,
        (#[trigger] all[k]).metadata.block_number,
    ) by {
        let number = all[k].metadata.block_number;
        let of = |flashblock: Arc<Flashblock>| flashblock.metadata.block_number == number;
        if !has_group(groups, number) {
            assert forall|j: int, m: int|
                0 <= j < groups.len() && 0 <= m < groups[j].len() implies of(
                #[trigger] groups[j][m],
            ) == (j == -1) by {
                assert(number_of(groups[j]) != number);
            }
            lemma_filter_flatten(groups, of, -1);
            all.lemma_filter_contains(of, k);
        }
    }
}

/// Selecting shared transactions is selecting the transactions themselves.
proof fn lemma_filter_unshared(transactions: Seq<Arc<Transaction>>, number: u64)
    ensures
        unshared(
            transactions.filter(|tx: Arc<Transaction>| tx.block_number == Some(number)),
        ) == unshared(transactions).filter(|tx: Transaction| tx.block_number == Some(number)),
    decreases transactions.len(),
{
    reveal(Seq::filter);
    let shared = |tx: Arc<Transaction>| tx.block_number == Some(number);
    let plain = |tx: Transaction| tx.block_number == Some(number);
    if transactions.len() == 0 {
        assert(unshared(transactions) =~= Seq::empty());
        assert(unshared(transactions.filter(shared)) =~= Seq::empty());
    } else {
        let fewer = transactions.drop_last();
        let last = transactions.last();
        lemma_filter_unshared(fewer, number);
        assert(unshared(transactions).drop_last() =~= unshared(fewer));
        assert(unshared(transactions).last() == *last);
        assert(unshared(fewer.filter(shared).push(last)) =~= unshared(fewer.filter(shared)).push(
            *last,
        ));
    }
}

/// The transactions that are reported for a pending block are those of its flashblocks, in
/// order, where no other pending block has its number.
pub proof fn law_transactions_by_block(
    pending: PendingBlocksView,
    blocks: Seq<Seq<Arc<Flashblock>>>,
    i: int,
)
    requires
        holds(pending, blocks, None, 0),
        0 <= i < blocks.len(),
        forall|j: int|
            0 <= j < blocks.len() && j != i ==> payload_of(#[trigger] blocks[j]).block_number
                != payload_of(blocks[i]).block_number,
    ensures
        unshared(pending.transactions_in(payload_of(blocks[i]).block_number))
            == reported_transactions(blocks[i]),
{
    let number = payload_of(blocks[i]).block_number;
    let plain = |tx: Transaction| tx.block_number == Some(number);
    let per_block = blocks.map_values(|group: Seq<Arc<Flashblock>>| reported_transactions(group));
    lemma_filter_unshared(pending.transactions, number);
    assert(unshared(pending.transactions) =~= transactions_of(blocks));
    assert forall|j: int, k: int|
        0 <= j < per_block.len() && 0 <= k < per_block[j].len() implies plain(
        #[trigger] per_block[j][k],
    ) == (j == i) by {
        assert(per_block[j] == reported_transactions(blocks[j]));
        assert(per_block[j][k].block_number == Some(payload_of(blocks[j]).block_number));
    }
    lemma_filter_flatten(per_block, plain, i);
}

/// A transaction has to be executed unless what is built upon holds it. Built from scratch, all
/// of them have to be.
pub proof fn law_only_new_transactions_are_executed(
    build: BuildView,
    prev_blocks: Seq<Seq<Arc<Flashblock>>>,
    hash: B256,
)
    requires
        build.prev matches Some(prev) ==> holds(prev@, prev_blocks, None, 0),
    ensures
        build.is_new(hash) <==> match build.prev {
            Some(prev) => !tx_hashes(prev@.transactions).contains(hash),
            None => true,
        },
{
    if let Some(prev) = build.prev {
        law_found_is_pending(prev@, prev_blocks, hash);
    }
}

/// The transactions of flashblocks, and of more flashblocks after them, one after the other.
pub proof fn law_more_flashblocks_add_transactions(
    flashblocks: Seq<Arc<Flashblock>>,
    more: Seq<Arc<Flashblock>>,
)
    ensures
        envelopes_of(flashblocks + more) == envelopes_of(flashblocks) + envelopes_of(more),
{
    let listed = |flashblock: Arc<Flashblock>| flashblock.diff.transactions@;
    assert((flashblocks + more).map_values(listed) =~= flashblocks.map_values(listed)
        + more.map_values(listed));
    vstd::seq_lib::lemma_flatten_concat(flashblocks.map_values(listed), more.map_values(listed));
    assert(envelopes_of(flashblocks + more) =~= envelopes_of(flashblocks) + envelopes_of(more));
}

/// The transactions that are reported, without what the RPC adds.
pub open spec fn envelopes(transactions: Seq<Transaction>) -> Seq<TxEnvelope> {
    transactions.map_values(|tx: Transaction| tx.inner)
}

/// The transactions of blocks are those of their flashblocks, in order.
proof fn lemma_transactions_of_blocks(blocks: Seq<Seq<Arc<Flashblock>>>)
    ensures
        envelopes(transactions_of(blocks)) == envelopes_of(blocks.flatten()),
    decreases blocks.len(),
{
    let per_block = blocks.map_values(|group: Seq<Arc<Flashblock>>| reported_transactions(group));
    if blocks.len() == 0 {
        assert(per_block.flatten() =~= Seq::empty());
        assert(blocks.flatten() =~= Seq::empty());
        assert(Seq::<Arc<Flashblock>>::empty().map_values(
            |flashblock: Arc<Flashblock>| flashblock.diff.transactions@,
        ) =~= Seq::empty());
        assert(all_transactions(Seq::empty()) =~= Seq::empty());
        assert(envelopes(transactions_of(blocks)) =~= envelopes_of(blocks.flatten()));
    } else {
        let fewer = blocks.drop_last();
        let last = blocks.last();
        lemma_transactions_of_blocks(fewer);
        assert(blocks =~= fewer.push(last));
        fewer.lemma_flatten_push(last);
        let fewer_per_block = fewer.map_values(
            |group: Seq<Arc<Flashblock>>| reported_transactions(group),
        );
        assert(per_block =~= fewer_per_block.push(reported_transactions(last)));
        fewer_per_block.lemma_flatten_push(reported_transactions(last));
        law_more_flashblocks_add_transactions(fewer.flatten(), last);
        assert(envelopes(reported_transactions(last)) =~= envelopes_of(last));
        assert(envelopes(transactions_of(fewer) + reported_transactions(last)) =~= envelopes(
            transactions_of(fewer),
        ) + envelopes(reported_transactions(last)));
    }
}

/// The pending transactions are exactly those of the pending flashblocks, in order.
pub proof fn law_transactions_follow_flashblocks(
    pending: PendingBlocksView,
    blocks: Seq<Seq<Arc<Flashblock>>>,
)
    requires
        holds(pending, blocks, None, 0),
    ensures
        envelopes(unshared(pending.transactions)) == envelopes_of(pending.flashblocks),
{
    lemma_transactions_of_blocks(blocks);
    assert(unshared(pending.transactions) =~= transactions_of(blocks));
}

/// The balance of an account is the one in the last flashblock that has one for it.
pub proof fn law_latest_balance_counts(
    flashblocks: Seq<Arc<Flashblock>>,
    address: Address,
    k: int,
)
    requires
        0 <= k < flashblocks.len(),
        flashblocks[k].metadata.new_account_balances@.contains_key(address),
        forall|j: int|
            k < j < flashblocks.len() ==> !(
            #[trigger] flashblocks[j]).metadata.new_account_balances@.contains_key(address),
    ensures
        lookup(all_balances(flashblocks), address) == Some(
            flashblocks[k].metadata.new_account_balances@[address],
        ),
    decreases flashblocks.len(),
{
    if k < flashblocks.len() - 1 {
        let fewer = flashblocks.drop_last();
        assert forall|j: int| k < j < fewer.len() implies !(
        #[trigger] fewer[j]).metadata.new_account_balances@.contains_key(address) by {
            assert(fewer[j] == flashblocks[j]);
        }
        assert(!flashblocks[flashblocks.len()
            - 1].metadata.new_account_balances@.contains_key(address));
        law_latest_balance_counts(fewer, address, k);
    }
}

/// An account has a balance only where a flashblock has one for it.
pub proof fn law_balance_has_source(flashblocks: Seq<Arc<Flashblock>>, address: Address)
    requires
        forall|j: int|
            0 <= j < flashblocks.len() ==> !(
            #[trigger] flashblocks[j]).metadata.new_account_balances@.contains_key(address),
    ensures
        lookup(all_balances(flashblocks), address) is None,
    decreases flashblocks.len(),
{
    if flashblocks.len() > 0 {
        let fewer = flashblocks.drop_last();
        assert forall|j: int| 0 <= j < fewer.len() implies !(
        #[trigger] fewer[j]).metadata.new_account_balances@.contains_key(address) by {
            assert(fewer[j] == flashblocks[j]);
        }
        assert(!flashblocks[flashblocks.len()
            - 1].metadata.new_account_balances@.contains_key(address));
        law_balance_has_source(fewer, address);
    }
}

/// The receipt of a transaction is the one in the last flashblock of its block that has one for
/// it.
pub proof fn law_latest_receipt_counts(flashblocks: Seq<Arc<Flashblock>>, hash: B256, k: int)
    requires
        0 <= k < flashblocks.len(),
        flashblocks[k].metadata.receipts@.contains_key(hash),
        forall|j: int|
            k < j < flashblocks.len() ==> !(
            #[trigger] flashblocks[j]).metadata.receipts@.contains_key(hash),
    ensures
        lookup(all_receipts(flashblocks), hash) == Some(flashblocks[k].metadata.receipts@[hash]),
    decreases flashblocks.len(),
{
    if k < flashblocks.len() - 1 {
        let fewer = flashblocks.drop_last();
        assert forall|j: int| k < j < fewer.len() implies !(
        #[trigger] fewer[j]).metadata.receipts@.contains_key(hash) by {
            assert(fewer[j] == flashblocks[j]);
        }
        assert(!flashblocks[flashblocks.len() - 1].metadata.receipts@.contains_key(hash));
        law_latest_receipt_counts(fewer, hash, k);
    }
}

/// A block has a receipt for a transaction only where one of its flashblocks has.
pub proof fn law_receipt_has_source(flashblocks: Seq<Arc<Flashblock>>, hash: B256)
    requires
        forall|j: int|
            0 <= j < flashblocks.len() ==> !(
            #[trigger] flashblocks[j]).metadata.receipts@.contains_key(hash),
    ensures
        lookup(all_receipts(flashblocks), hash) is None,
    decreases flashblocks.len(),
{
    if flashblocks.len() > 0 {
        let fewer = flashblocks.drop_last();
        assert forall|j: int| 0 <= j < fewer.len() implies !(
        #[trigger] fewer[j]).metadata.receipts@.contains_key(hash) by {
            assert(fewer[j] == flashblocks[j]);
        }
        assert(!flashblocks[flashblocks.len() - 1].metadata.receipts@.contains_key(hash));
        law_receipt_has_source(fewer, hash);
    }
}

/// The logs of one receipt that the filter selects.
spec fn logs_of(
    receipts: Map<B256, Arc<OpTransactionReceipt>>,
    hash: B256,
    filter: Filter,
) -> Seq<Arc<RpcLog>> {
    receipts[hash].logs@.filter(|log: Arc<RpcLog>| filter.selects_log(*log.inner))
}

/// A transaction may be looked at last: the same logs are selected.
proof fn lemma_take_out(
    receipts: Map<B256, Arc<OpTransactionReceipt>>,
    order: Seq<B256>,
    filter: Filter,
    i: int,
)
    requires
        0 <= i < order.len(),
    ensures
        selected_logs(receipts, order, filter).to_multiset() == selected_logs(
            receipts,
            order.remove(i),
            filter,
        ).to_multiset().add(logs_of(receipts, order[i], filter).to_multiset()),
    decreases order.len(),
{
    broadcast use vstd::seq_lib::lemma_multiset_commutative;

    let fewer = order.drop_last();
    let last = logs_of(receipts, order.last(), filter);
    assert(selected_logs(receipts, order, filter) == selected_logs(receipts, fewer, filter) + last);
    if i == order.len() - 1 {
        assert(order.remove(i) =~= fewer);
    } else {
        lemma_take_out(receipts, fewer, filter, i);
        assert(order.remove(i).drop_last() =~= fewer.remove(i));
        assert(selected_logs(receipts, order.remove(i), filter) == selected_logs(
            receipts,
            fewer.remove(i),
            filter,
        ) + last);
        assert(selected_logs(receipts, order, filter).to_multiset() =~= selected_logs(
            receipts,
            order.remove(i),
            filter,
        ).to_multiset().add(logs_of(receipts, order[i], filter).to_multiset()));
    }
}

/// Without one element, what lists a set lists the set without it.
proof fn lemma_lists_without(order: Seq<B256>, elements: Set<B256>, i: int)
    requires
        lists(order, elements),
        0 <= i < order.len(),
    ensures
        lists(order.remove(i), elements.remove(order[i])),
{
    let rest = order.remove(i);
    assert forall|x: B256| rest.to_set().contains(x) == elements.remove(order[i]).contains(x) by {
        if rest.contains(x) {
            let k = choose|k: int| 0 <= k < rest.len() && rest[k] == x;
            let m = if k < i {
                k
            } else {
                k + 1
            };
            assert(order[m] == x);
            assert(order.to_set().contains(x));
        }
        if elements.contains(x) && x != order[i] {
            assert(order.to_set().contains(x));
            let m = choose|m: int| 0 <= m < order.len() && order[m] == x;
            let k = if m < i {
                m
            } else {
                m - 1
            };
            assert(rest[k] == x);
        }
    }
    assert(rest.to_set() =~= elements.remove(order[i]));
    assert forall|j: int, k: int| 0 <= j < k < rest.len() implies rest[j] != rest[k] by {
        let a = if j < i {
            j
        } else {
            j + 1
        };
        let b = if k < i {
            k
        } else {
            k + 1
        };
        assert(order[a] == rest[j] && order[b] == rest[k]);
    }
}

/// Whatever order the receipts are visited in, the same logs are selected, each as often.
pub proof fn law_logs_in_any_order(
    receipts: Map<B256, Arc<OpTransactionReceipt>>,
    a: Seq<B256>,
    b: Seq<B256>,
    elements: Set<B256>,
    filter: Filter,
)
    requires
        lists(a, elements),
        lists(b, elements),
    ensures
        selected_logs(receipts, a, filter).to_multiset() == selected_logs(
            receipts,
            b,
            filter,
        ).to_multiset(),
    decreases b.len(),
{
    if b.len() == 0 {
        if a.len() > 0 {
            assert(a.to_set().contains(a[0]));
            assert(b.to_set().contains(a[0]));
        }
        assert(a =~= b);
    } else {
        let hash = b.last();
        assert(b[b.len() - 1] == hash);
        assert(b.to_set().contains(hash));
        assert(a.to_set().contains(hash));
        let i = choose|i: int| 0 <= i < a.len() && a[i] == hash;
        lemma_take_out(receipts, a, filter, i);
        lemma_take_out(receipts, b, filter, b.len() - 1);
        lemma_lists_without(a, elements, i);
        lemma_lists_without(b, elements, b.len() - 1);
        law_logs_in_any_order(
            receipts,
            a.remove(i),
            b.remove(b.len() - 1),
            elements.remove(hash),
            filter,
        );
    }
}

/// A log is selected if and only if the receipt of a transaction has it and the filter takes it.
pub proof fn law_logs_are_complete(
    receipts: Map<B256, Arc<OpTransactionReceipt>>,
    order: Seq<B256>,
    filter: Filter,
    log: Arc<RpcLog>,
)
    ensures
        selected_logs(receipts, order, filter).contains(log) <==> {
            &&& filter.selects_log(*log.inner)
            &&& exists|i: int|
                0 <= i < order.len() && receipts[#[trigger] order[i]].logs@.contains(log)
        },
    decreases order.len(),
{
    let selects = |log: Arc<RpcLog>| filter.selects_log(*log.inner);
    if order.len() > 0 {
        let fewer = order.drop_last();
        let earlier = selected_logs(receipts, fewer, filter);
        let last = receipts[order.last()].logs@;
        law_logs_are_complete(receipts, fewer, filter, log);
        let both = earlier + last.filter(selects);
        assert(selected_logs(receipts, order, filter) == both);
        if both.contains(log) {
            let k = choose|k: int| 0 <= k < both.len() && both[k] == log;
            if k < earlier.len() {
                assert(earlier[k] == log);
                let i = choose|i: int|
                    0 <= i < fewer.len() && receipts[#[trigger] fewer[i]].logs@.contains(log);
                assert(order[i] == fewer[i]);
            } else {
                assert(last.filter(selects)[k - earlier.len()] == log);
                last.lemma_filter_pred(selects, k - earlier.len());
                last.lemma_filter_contains_rev(selects, log);
                assert(receipts[order[order.len() - 1]].logs@.contains(log));
            }
        }
        if selects(log) && exists|i: int|
            0 <= i < order.len() && receipts[#[trigger] order[i]].logs@.contains(log) {
            let i = choose|i: int|
                0 <= i < order.len() && receipts[#[trigger] order[i]].logs@.contains(log);
            if i < fewer.len() {
                assert(fewer[i] == order[i]);
                let k = choose|k: int| 0 <= k < earlier.len() && earlier[k] == log;
                assert(both[k] == log);
            } else {
                let m = choose|m: int| 0 <= m < last.len() && last[m] == log;
                last.lemma_filter_contains(selects, m);
                let k = choose|k: int|
                    0 <= k < last.filter(selects).len() && last.filter(selects)[k] == log;
                assert(both[earlier.len() + k] == log);
            }
        }
    }
}

/// Where an element of sequences joined to one comes from: which sequence, and which place in it.
pub(crate) proof fn lemma_flatten_place<T>(sequences: Seq<Seq<T>>, i: int) -> (r: (int, int))
    requires
        0 <= i < sequences.flatten().len(),
    ensures
        0 <= r.0 < sequences.len(),
        0 <= r.1 < sequences[r.0].len(),
        sequences.flatten()[i] == sequences[r.0][r.1],
        i == sequences.take(r.0).flatten().len() + r.1,
    decreases sequences.len(),
{
    if sequences.len() == 0 {
        assert(sequences.flatten() =~= Seq::empty());
        (0, 0)
    } else {
        let fewer = sequences.drop_last();
        let last = sequences.last();
        assert(sequences =~= fewer.push(last));
        fewer.lemma_flatten_push(last);
        if i < fewer.flatten().len() {
            let (j, k) = lemma_flatten_place(fewer, i);
            assert(sequences.take(j) =~= fewer.take(j));
            (j, k)
        } else {
            assert(sequences.take(sequences.len() - 1) =~= fewer);
            (sequences.len() - 1, i - fewer.flatten().len())
        }
    }
}

/// Every pending transaction is the one at some place of some pending block, after all those of the
/// blocks before it, and is reported as that: with the transaction that the flashblocks of the
/// block list at that place, what is read from its encoding, the account that signed it, the hash
/// and the number of the block, and its place.
pub proof fn law_transactions_are_reported(
    pending: PendingBlocksView,
    blocks: Seq<Seq<Arc<Flashblock>>>,
    i: int,
) -> (r: (int, int))
    requires
        holds(pending, blocks, None, 0),
        0 <= i < pending.transactions.len(),
    ensures
        0 <= r.0 < blocks.len() == pending.headers.len(),
        0 <= r.1 < all_transactions(blocks[r.0]).len(),
        i == transactions_of(blocks.take(r.0)).len() + r.1,
        *pending.transactions[i] == reported_transaction(blocks[r.0], r.1),
        ({
            let tx = *pending.transactions[i];
            let raw = (*tx.inner.raw)@;
            let header = pending.headers[r.0];
            let base = blocks[r.0][0].base.unwrap();
            &&& tx.inner.raw == all_transactions(blocks[r.0])[r.1]
            &&& decoded_transaction(raw) == Some(tx.inner.fields)
            &&& recovered_signer(raw) == Some(tx.signer)
            &&& tx.block_hash == Some(header.hash)
            &&& tx.block_number == Some(header.fields.number)
            &&& tx.block_number == Some(base.block_number)
            &&& tx.transaction_index is Some
            &&& tx.transaction_index.unwrap() == r.1
        }),
{
    let per_block = blocks.map_values(|group: Seq<Arc<Flashblock>>| reported_transactions(group));
    assert(unshared(pending.transactions) =~= transactions_of(blocks));
    assert(unshared(pending.transactions)[i] == *pending.transactions[i]);
    let (j, k) = lemma_flatten_place(per_block, i);
    let group = blocks[j];
    assert(per_block.take(j) =~= blocks.take(j).map_values(
        |group: Seq<Arc<Flashblock>>| reported_transactions(group),
    ));
    assert(per_block[j] == reported_transactions(group));
    assert(is_whole(group));
    assert(is_accounted_for(group, envelopes_of(group).len() as int));
    assert(signer_of(envelopes_of(group)[k]) is Some);
    assert(payload_of(group).transactions[k] == (*all_transactions(group)[k])@);
    assert(decoded_transaction(payload_of(group).transactions[k]) is Some);
    assert(i <= pending.transactions_by_index[pending.transactions[i].hash()]);
    (j, k)
}

/// What a pending transaction is charged per gas: a deposit nothing. Any other transaction, in a
/// block with the base fee `b`, the smaller of what its sender is willing to pay and `b` with the
/// priority fee; without a priority fee, what the sender is willing to pay; and `b` where it is
/// more than that.
pub proof fn law_pending_prices(
    pending: PendingBlocksView,
    blocks: Seq<Seq<Arc<Flashblock>>>,
    i: int,
) -> (r: (int, int))
    requires
        holds(pending, blocks, None, 0),
        0 <= i < pending.transactions.len(),
    ensures
        0 <= r.0 < blocks.len(),
        pending.transactions[i].block_hash == Some(pending.headers[r.0].hash),
        pending.transactions[i].inner.raw == all_transactions(blocks[r.0])[r.1],
        pending.transactions[i].effective_gas_price is Some,
        ({
            let fields = pending.transactions[i].inner.fields;
            let price = pending.transactions[i].effective_gas_price.unwrap() as int;
            let b = blocks[r.0][0].base.unwrap().base_fee_per_gas.value() as int;
            let most = fields.max_fee_per_gas as int;
            &&& pending.headers[r.0].fields.base_fee_per_gas is Some
            &&& pending.headers[r.0].fields.base_fee_per_gas.unwrap() == b
            &&& fields.is_deposit ==> price == 0
            &&& !fields.is_deposit && most < b ==> price == b
            &&& !fields.is_deposit && b <= most ==> match fields.max_priority_fee_per_gas {
                Some(priority_fee) => {
                    &&& price <= most && price <= b + priority_fee
                    &&& price == most || price == b + priority_fee
                },
                None => price == most,
            }
        }),
{
    let (j, k) = law_transactions_are_reported(pending, blocks, i);
    assert(is_whole(blocks[j]));
    (j, k)
}

/// What is reported of a pending deposit, besides what is reported of every transaction, is what
/// the receipt says that its block has for it; of any other transaction it is nothing.
pub proof fn law_pending_deposits(
    pending: PendingBlocksView,
    blocks: Seq<Seq<Arc<Flashblock>>>,
    i: int,
) -> (r: (int, int))
    requires
        holds(pending, blocks, None, 0),
        0 <= i < pending.transactions.len(),
    ensures
        0 <= r.0 < blocks.len(),
        pending.transactions[i].block_hash == Some(pending.headers[r.0].hash),
        pending.transactions[i].inner.raw == all_transactions(blocks[r.0])[r.1],
        all_receipts(blocks[r.0]).contains_key(pending.transactions[i].inner.fields.hash),
        ({
            let tx = *pending.transactions[i];
            if tx.inner.fields.is_deposit {
                match *all_receipts(blocks[r.0])[tx.inner.fields.hash] {
                    OpReceipt::Deposit(deposit) => {
                        &&& tx.deposit_nonce == deposit.deposit_nonce
                        &&& tx.deposit_receipt_version == deposit.deposit_receipt_version
                    },
                    _ => false,
                }
            } else {
                &&& tx.deposit_nonce is None
                &&& tx.deposit_receipt_version is None
            }
        }),
{
    let (j, k) = law_transactions_are_reported(pending, blocks, i);
    assert(is_accounted_for(blocks[j], envelopes_of(blocks[j]).len() as int));
    assert(receipt_of(blocks[j], envelopes_of(blocks[j])[k]) is Some);
    (j, k)
}

/// Each pending block has a header with the number, the timestamp and the base fee that the base
/// of its first flashblock fixes, and with the hash of its own encoding, which is that of the
/// block's payload.
pub proof fn law_headers_follow_bases(
    pending: PendingBlocksView,
    blocks: Seq<Seq<Arc<Flashblock>>>,
    i: int,
)
    requires
        holds(pending, blocks, None, 0),
        0 <= i < blocks.len(),
    ensures
        pending.headers.len() == blocks.len(),
        blocks[i].len() > 0,
        blocks[i][0].base is Some,
        ({
            let header = pending.headers[i];
            let base = blocks[i][0].base.unwrap();
            &&& header.fields.number == base.block_number
            &&& header.fields.timestamp == base.timestamp
            &&& header.fields.base_fee_per_gas is Some
            &&& header.fields.base_fee_per_gas.unwrap() == base.base_fee_per_gas.value()
            &&& header.fields.excess_blob_gas == Some(0u64)
            &&& header.hash == keccak256_of((*header.rlp)@)
            &&& (*header.rlp)@ == header_rlp(payload_of(blocks[i]))
        }),
{
    assert(is_whole(blocks[i]));
    assert(pending.headers[i]@ == sealed_header(payload_of(blocks[i])));
}

/// The pending balance of an account is the one in the last pending flashblock that has one for
/// it.
pub proof fn law_pending_balances(
    pending: PendingBlocksView,
    blocks: Seq<Seq<Arc<Flashblock>>>,
    address: Address,
    k: int,
)
    requires
        holds(pending, blocks, None, 0),
        0 <= k < pending.flashblocks.len(),
        pending.flashblocks[k].metadata.new_account_balances@.contains_key(address),
        forall|j: int|
            k < j < pending.flashblocks.len() ==> !(
            #[trigger] pending.flashblocks[j]).metadata.new_account_balances@.contains_key(address),
    ensures
        pending.account_balances.contains_key(address),
        pending.account_balances[address]
            == pending.flashblocks[k].metadata.new_account_balances@[address],
{
    law_latest_balance_counts(pending.flashblocks, address, k);
}

/// An account that no pending flashblock has a balance for has no pending balance.
pub proof fn law_no_other_balances(
    pending: PendingBlocksView,
    blocks: Seq<Seq<Arc<Flashblock>>>,
    address: Address,
)
    requires
        holds(pending, blocks, None, 0),
        forall|j: int|
            0 <= j < pending.flashblocks.len() ==> !(
            #[trigger] pending.flashblocks[j]).metadata.new_account_balances@.contains_key(address),
    ensures
        !pending.account_balances.contains_key(address),
{
    law_balance_has_source(pending.flashblocks, address);
}

/// A pending state holds the flashblocks that it was built from, each as often, and in the order in
/// which they came where they came block by block.
pub proof fn law_flashblocks_are_kept(
    pending: PendingBlocksView,
    blocks: Seq<Seq<Arc<Flashblock>>>,
    flashblocks: Seq<Arc<Flashblock>>,
)
    requires
        is_grouping(blocks, flashblocks),
        holds(pending, blocks, None, 0),
    ensures
        pending.flashblocks.to_multiset() == flashblocks.to_multiset(),
        in_block_order(pending.flashblocks),
        in_block_order(flashblocks) ==> pending.flashblocks == flashblocks,
{
    law_grouping_keeps_all(blocks, flashblocks);
    law_grouped_is_in_order(blocks, flashblocks);
    if in_block_order(flashblocks) {
        law_grouping_keeps_order(blocks, flashblocks);
    }
}

/// Where several pending transactions have one hash, it leads to the last of them.
pub proof fn law_last_transaction_is_found(
    pending: PendingBlocksView,
    blocks: Seq<Seq<Arc<Flashblock>>>,
    i: int,
)
    requires
        holds(pending, blocks, None, 0),
        0 <= i < pending.transactions.len(),
        forall|j: int|
            i < j < pending.transactions.len() ==> (
            #[trigger] pending.transactions[j]).inner.fields.hash
                != pending.transactions[i].inner.fields.hash,
    ensures
        pending.transaction_by_hash(pending.transactions[i].inner.fields.hash) == Some(
            pending.transactions[i],
        ),
{
    let hash = pending.transactions[i].hash();
    let found = pending.transactions_by_index[hash] as int;
    assert(pending.transactions_by_index.contains_key(hash));
    assert(pending.transactions[found].hash() == hash);
}

/// The transactions of a block are those among the pending ones that are reported with its number.
pub proof fn law_transactions_in_block(
    pending: PendingBlocksView,
    number: u64,
    tx: Arc<Transaction>,
)
    ensures
        pending.transactions_in(number).contains(tx) <==> {
            &&& pending.transactions.contains(tx)
            &&& tx.block_number == Some(number)
        },
{
    let all = pending.transactions;
    let selected = |tx: Arc<Transaction>| tx.block_number == Some(number);
    let found = all.filter(selected);
    if found.contains(tx) {
        let i = choose|i: int| 0 <= i < found.len() && found[i] == tx;
        all.lemma_filter_pred(selected, i);
        all.lemma_filter_contains_rev(selected, tx);
    }
    if all.contains(tx) && selected(tx) {
        let i = choose|i: int| 0 <= i < all.len() && all[i] == tx;
        all.lemma_filter_contains(selected, i);
    }
}

/// Of the transactions of a build, those are executed, each and in order, that the pending state
/// it builds upon does not hold.
pub proof fn law_executed_are_the_new(
    prev: Option<Arc<PendingBlocks>>,
    prev_blocks: Seq<Seq<Arc<Flashblock>>>,
    transactions: Seq<Arc<Transaction>>,
    tx: Arc<Transaction>,
)
    requires
        prev matches Some(prev) ==> holds(prev@, prev_blocks, None, 0),
    ensures
        executed_upon(prev, Seq::empty()) == Seq::<Arc<Transaction>>::empty(),
        executed_upon(prev, transactions.push(tx)) == if prev is Some && exists|i: int|
            0 <= i < prev.unwrap()@.transactions.len() && (
            #[trigger] prev.unwrap()@.transactions[i]).inner.fields.hash == tx.inner.fields.hash {
            executed_upon(prev, transactions)
        } else {
            executed_upon(prev, transactions).push(tx)
        },
{
    let new = |tx: Arc<Transaction>| is_new_upon(prev, tx.hash());
    transactions.lemma_filter_push(tx, new);
    assert(Seq::<Arc<Transaction>>::empty().filter(new) =~= Seq::empty()) by {
        reveal(Seq::filter);
    }
    if let Some(state) = prev {
        let hashes = tx_hashes(state@.transactions);
        law_found_is_pending(state@, prev_blocks, tx.hash());
        if hashes.contains(tx.hash()) {
            let i = choose|i: int| 0 <= i < hashes.len() && hashes[i] == tx.hash();
            assert(state@.transactions[i].hash() == tx.hash());
        }
        if exists|i: int|
            0 <= i < state@.transactions.len() && (
            #[trigger] state@.transactions[i]).inner.fields.hash == tx.inner.fields.hash {
            let i = choose|i: int|
                0 <= i < state@.transactions.len() && (
                #[trigger] state@.transactions[i]).inner.fields.hash == tx.inner.fields.hash;
            assert(hashes[i] == tx.hash());
        }
    }
}

/// A build starts with the overrides of the pending state that it builds upon, and from scratch
/// with none.
pub proof fn law_build_starts_from_overrides(prev: Option<Arc<PendingBlocks>>, address: Address)
    ensures
        lookup(overrides_upon(prev), address) == match prev {
            Some(state) => match state@.state_overrides {
                Some(overrides) => lookup(overrides, address),
                None => None,
            },
            None => None,
        },
{
}

/// A transaction is found with the receipt that was handed in with it, where no later one has its
/// hash.
pub proof fn law_receipts_belong_to_transactions(
    found: Map<B256, Arc<OpTransactionReceipt>>,
    transactions: Seq<Arc<Transaction>>,
    receipts: Seq<Arc<OpTransactionReceipt>>,
    i: int,
)
    requires
        receipts_are_found(found, transactions, receipts),
        0 <= i < transactions.len(),
        forall|j: int|
            i < j < transactions.len() ==> (#[trigger] transactions[j]).inner.fields.hash
                != transactions[i].inner.fields.hash,
    ensures
        lookup(found, transactions[i].inner.fields.hash) == Some(receipts[i]),
{
    assert forall|j: int| i < j < transactions.len() implies (#[trigger] transactions[j]).hash()
        != transactions[i].hash() by {}
    assert(found.contains_key(transactions[i].hash()));
}

/// The logs that are selected come receipt by receipt: each adds those of its own that the filter
/// takes, in order and none twice.
pub proof fn law_logs_come_by_receipt(
    receipts: Map<B256, Arc<OpTransactionReceipt>>,
    order: Seq<B256>,
    hash: B256,
    filter: Filter,
)
    ensures
        selected_logs(receipts, Seq::empty(), filter) == Seq::<Arc<RpcLog>>::empty(),
        selected_logs(receipts, order.push(hash), filter) == selected_logs(receipts, order, filter)
            + receipts[hash].logs@.filter(|log: Arc<RpcLog>| filter.selects_log(*log.inner)),
{
    assert(order.push(hash).drop_last() =~= order);
}

/// What is counted for an account is the number of the pending transactions that it signed.
pub proof fn law_count_is_read(
    pending: &PendingBlocks,
    blocks: Seq<Seq<Arc<Flashblock>>>,
    address: Address,
    count: U256,
)
    requires
        holds(pending@, blocks, None, 0),
        call_ensures(PendingBlocks::get_transaction_count, (pending, address), count),
    ensures
        count.value() == pending@.transactions.filter(
            |tx: Arc<Transaction>| recovered_signer((*tx.inner.raw)@) == Some(address),
        ).len(),
{
    let sent = |tx: Arc<Transaction>| tx.signer == address;
    let signed = |tx: Arc<Transaction>| recovered_signer((*tx.inner.raw)@) == Some(address);
    law_transactions_are_counted(pending@, blocks, address);
    assert forall|i: int| 0 <= i < pending@.transactions.len() implies sent(
        #[trigger] pending@.transactions[i],
    ) == signed(pending@.transactions[i]) by {
        law_senders_have_signed(pending@, blocks, i);
    }
    lemma_filter_alike(pending@.transactions, sent, signed);
}

/// Selecting by what is the same for each element selects the same.
proof fn lemma_filter_alike<T>(s: Seq<T>, p: spec_fn(T) -> bool, q: spec_fn(T) -> bool)
    requires
        forall|i: int| 0 <= i < s.len() ==> p(#[trigger] s[i]) == q(s[i]),
    ensures
        s.filter(p) == s.filter(q),
    decreases s.len(),
{
    reveal(Seq::filter);
    if s.len() > 0 {
        let fewer = s.drop_last();
        assert forall|i: int| 0 <= i < fewer.len() implies p(#[trigger] fewer[i]) == q(
            fewer[i],
        ) by {
            assert(fewer[i] == s[i]);
        }
        lemma_filter_alike(fewer, p, q);
        assert(p(s[s.len() - 1]) == q(s[s.len() - 1]));
    }
}

/// A transaction is found by its hash where it is pending, and nothing is found for another hash.
pub proof fn law_transaction_is_read(
    pending: &PendingBlocks,
    blocks: Seq<Seq<Arc<Flashblock>>>,
    hash: B256,
    found: Option<Arc<Transaction>>,
)
    requires
        holds(pending@, blocks, None, 0),
        call_ensures(PendingBlocks::get_transaction_by_hash, (pending, hash), found),
    ensures
        found is Some <==> exists|i: int|
            0 <= i < pending@.transactions.len() && (
            #[trigger] pending@.transactions[i]).inner.fields.hash == hash,
        found matches Some(tx) ==> exists|i: int|
            0 <= i < pending@.transactions.len() && (#[trigger] pending@.transactions[i]) == tx
                && tx.inner.fields.hash == hash && (forall|j: int|
                i < j < pending@.transactions.len() ==> (
                #[trigger] pending@.transactions[j]).inner.fields.hash != hash),
{
    if exists|i: int|
        0 <= i < pending@.transactions.len() && (
        #[trigger] pending@.transactions[i]).inner.fields.hash == hash {
        let i = choose|i: int|
            0 <= i < pending@.transactions.len() && (
            #[trigger] pending@.transactions[i]).inner.fields.hash == hash;
        assert(pending@.transactions_by_index.contains_key(pending@.transactions[i].hash()));
    }
    if pending@.transactions_by_index.contains_key(hash) {
        let i = pending@.transactions_by_index[hash] as int;
        assert(pending@.transactions[i].hash() == hash);
        assert forall|j: int| i < j < pending@.transactions.len() implies (
        #[trigger] pending@.transactions[j]).inner.fields.hash != hash by {
            if pending@.transactions[j].hash() == hash {
                assert(j <= pending@.transactions_by_index[hash]);
            }
        }
        assert(pending@.transactions[i] == pending@.transactions[i]);
    }
}

/// The logs that are read are exactly those that the filter takes among those in the receipts of
/// the pending transactions.
pub proof fn law_logs_are_read(
    pending: &PendingBlocks,
    filter: &Filter,
    logs: Vec<Arc<RpcLog>>,
    log: Arc<RpcLog>,
)
    requires
        call_ensures(PendingBlocks::get_pending_logs, (pending, filter), logs),
    ensures
        logs@.contains(log) <==> {
            &&& filter.selects_log(*log.inner)
            &&& exists|hash: B256| #[trigger]
                pending@.transaction_receipts.contains_key(hash)
                    && pending@.transaction_receipts[hash].logs@.contains(log)
        },
{
    let receipts = pending@.transaction_receipts;
    let order = choose|order: Seq<B256>| #[trigger]
        lists(order, receipts.dom()) && logs@ == selected_logs(receipts, order, *filter);
    lemma_logs_of_listed(receipts, order, *filter, log);
}

/// Where all receipts are visited, a log is selected if and only if one of them has it and the
/// filter takes it.
pub(crate) proof fn lemma_logs_of_listed(
    receipts: Map<B256, Arc<OpTransactionReceipt>>,
    order: Seq<B256>,
    filter: Filter,
    log: Arc<RpcLog>,
)
    requires
        lists(order, receipts.dom()),
    ensures
        selected_logs(receipts, order, filter).contains(log) <==> {
            &&& filter.selects_log(*log.inner)
            &&& exists|hash: B256| #[trigger]
                receipts.contains_key(hash) && receipts[hash].logs@.contains(log)
        },
{
    law_logs_are_complete(receipts, order, filter, log);
    if exists|hash: B256| #[trigger]
        receipts.contains_key(hash) && receipts[hash].logs@.contains(log) {
        let hash = choose|hash: B256| #[trigger]
            receipts.contains_key(hash) && receipts[hash].logs@.contains(log);
        assert(order.to_set().contains(hash));
        let i = choose|i: int| 0 <= i < order.len() && order[i] == hash;
        assert(receipts[order[i]].logs@.contains(log));
    }
    if selected_logs(receipts, order, filter).contains(log) {
        let i = choose|i: int|
            0 <= i < order.len() && receipts[#[trigger] order[i]].logs@.contains(log);
        assert(order.to_set().contains(order[i]));
        assert(receipts.contains_key(order[i]));
    }
}

/// The pending balance that is read is the one in the last pending flashblock that has one for the
/// account, and there is none where no pending flashblock has one.
pub proof fn law_balance_is_read(
    pending: &PendingBlocks,
    blocks: Seq<Seq<Arc<Flashblock>>>,
    address: Address,
    balance: Option<U256>,
    k: int,
)
    requires
        holds(pending@, blocks, None, 0),
        call_ensures(PendingBlocks::get_balance, (pending, address), balance),
    ensures
        0 <= k < pending@.flashblocks.len()
            && pending@.flashblocks[k].metadata.new_account_balances@.contains_key(address) && (
        forall|j: int|
            k < j < pending@.flashblocks.len() ==> !(
            #[trigger] pending@.flashblocks[j]).metadata.new_account_balances@.contains_key(
                address,
            )) ==> balance == Some(
            pending@.flashblocks[k].metadata.new_account_balances@[address],
        ),
        (forall|j: int|
            0 <= j < pending@.flashblocks.len() ==> !(
            #[trigger] pending@.flashblocks[j]).metadata.new_account_balances@.contains_key(
                address,
            )) ==> balance is None,
{
    let flashblocks = pending@.flashblocks;
    if 0 <= k < flashblocks.len() && flashblocks[k].metadata.new_account_balances@.contains_key(
        address,
    ) && (forall|j: int|
        k < j < flashblocks.len() ==> !(
        #[trigger] flashblocks[j]).metadata.new_account_balances@.contains_key(address)) {
        law_latest_balance_counts(flashblocks, address, k);
    }
    if forall|j: int|
        0 <= j < flashblocks.len() ==> !(
        #[trigger] flashblocks[j]).metadata.new_account_balances@.contains_key(address) {
        law_balance_has_source(flashblocks, address);
    }
}

/// The logs that are read come receipt by receipt, each receipt once: of each the logs that the
/// filter takes, in order.
pub proof fn law_logs_are_read_once(
    pending: &PendingBlocks,
    filter: &Filter,
    logs: Vec<Arc<RpcLog>>,
) -> (order: Seq<B256>)
    requires
        call_ensures(PendingBlocks::get_pending_logs, (pending, filter), logs),
    ensures
        order.no_duplicates(),
        order.to_set() == pending@.transaction_receipts.dom(),
        logs@ == order.map_values(
            |hash: B256|
                pending@.transaction_receipts[hash].logs@.filter(
                    |log: Arc<RpcLog>| filter.selects_log(*log.inner),
                ),
        ).flatten(),
{
    let receipts = pending@.transaction_receipts;
    let order = choose|order: Seq<B256>| #[trigger]
        lists(order, receipts.dom()) && logs@ == selected_logs(receipts, order, *filter);
    lemma_logs_flatten(receipts, order, *filter);
    order
}

/// Selected logs are those of each receipt, joined to one.
proof fn lemma_logs_flatten(
    receipts: Map<B256, Arc<OpTransactionReceipt>>,
    order: Seq<B256>,
    filter: Filter,
)
    ensures
        selected_logs(receipts, order, filter) == order.map_values(
            |hash: B256|
                receipts[hash].logs@.filter(|log: Arc<RpcLog>| filter.selects_log(*log.inner)),
        ).flatten(),
    decreases order.len(),
{
    let taken = |hash: B256|
        receipts[hash].logs@.filter(|log: Arc<RpcLog>| filter.selects_log(*log.inner));
    if order.len() == 0 {
        assert(order.map_values(taken).flatten() =~= Seq::empty());
    } else {
        let fewer = order.drop_last();
        lemma_logs_flatten(receipts, fewer, filter);
        assert(order.map_values(taken) =~= fewer.map_values(taken).push(taken(order.last())));
        fewer.map_values(taken).lemma_flatten_push(taken(order.last()));
    }
}

/// A pending state that was built holds no state of a single transaction.
pub proof fn law_no_transaction_state_is_kept(
    pending: &PendingBlocks,
    blocks: Seq<Seq<Arc<Flashblock>>>,
    hash: B256,
    state: Option<Arc<EvmState>>,
)
    requires
        holds(pending@, blocks, None, 0),
        call_ensures(PendingBlocks::get_transaction_state, (pending, hash), state),
    ensures
        state is None,
{
}

} // verus!
