//! A pending block, put together from its flashblocks.

use std::sync::Arc;

use alloy_primitives::map::foldhash::HashMap;
use vstd::prelude::*;

use crate::error::BuildError;
use crate::flashblock::{copy_all, share_all, Flashblock, Withdrawal};
use crate::laws::{law_latest_receipt_counts, law_receipt_has_source};
use crate::map::{lookup, map_get, map_insert, map_keys, map_new};
use crate::payload::{
    envelope_of, is_block, raw_bytes, sealed_header, ExecutionPayload, PayloadView, SealedHeader,
    SealedHeaderView,
};
use crate::primitives::{Address, Bytes, B256, U256};
use crate::receipt::OpReceipt;
use crate::transaction::{
    decoded_transaction, gas_price, recovered_signer, Transaction, TxEnvelope,
};

verus! {

/// The encoded transactions of a block, those of each flashblock in turn.
pub open spec fn all_transactions(group: Seq<Arc<Flashblock>>) -> Seq<Bytes> {
    group.map_values(|flashblock: Arc<Flashblock>| flashblock.diff.transactions@).flatten()
}

/// The withdrawals of a block, those of each flashblock in turn.
pub open spec fn all_withdrawals(group: Seq<Arc<Flashblock>>) -> Seq<Withdrawal> {
    group.map_values(|flashblock: Arc<Flashblock>| flashblock.diff.withdrawals@).flatten()
}

/// The receipts of a block. Where several flashblocks have a receipt for a transaction, the last
/// one counts.
pub open spec fn all_receipts(group: Seq<Arc<Flashblock>>) -> Map<B256, Arc<OpReceipt>>
    decreases group.len(),
{
    if group.len() == 0 {
        Map::empty()
    } else {
        all_receipts(group.drop_last()).union_prefer_right(group.last().metadata.receipts@)
    }
}

/// The balances that a block leaves behind. Where several flashblocks have a balance for an
/// account, the last one counts.
pub open spec fn all_balances(group: Seq<Arc<Flashblock>>) -> Map<Address, U256>
    decreases group.len(),
{
    if group.len() == 0 {
        Map::empty()
    } else {
        all_balances(group.drop_last()).union_prefer_right(
            group.last().metadata.new_account_balances@,
        )
    }
}

/// The payload of a block whose first flashblock has a base: what the base fixes, the roots and
/// totals of the last flashblock, and all transactions and withdrawals.
pub open spec fn payload_of(group: Seq<Arc<Flashblock>>) -> PayloadView {
    let base = group.first().base.unwrap();
    let diff = group.last().diff;
    PayloadView {
        parent_hash: base.parent_hash,
        fee_recipient: base.fee_recipient,
        state_root: diff.state_root,
        receipts_root: diff.receipts_root,
        logs_bloom: diff.logs_bloom,
        prev_randao: base.prev_randao,
        block_number: base.block_number,
        gas_limit: base.gas_limit,
        gas_used: diff.gas_used,
        timestamp: base.timestamp,
        extra_data: (*base.extra_data)@,
        base_fee_per_gas: base.base_fee_per_gas,
        block_hash: diff.block_hash,
        transactions: raw_bytes(all_transactions(group)),
        withdrawals: all_withdrawals(group),
        blob_gas_used: 0,
        excess_blob_gas: 0,
    }
}

/// Puts the payload of a block together from its flashblocks.
pub fn assemble_payload(flashblocks: &Vec<Arc<Flashblock>>) -> (r: Result<
    ExecutionPayload,
    BuildError,
>)
    ensures
        match r {
            Ok(payload) => {
                &&& flashblocks@.len() > 0
                &&& flashblocks@.first().base is Some
                &&& payload@ == payload_of(flashblocks@)
                &&& payload.transactions@ == all_transactions(flashblocks@)
                &&& flashblocks@[0].base matches Some(base) && {
                    &&& payload.parent_hash == base.parent_hash
                    &&& payload.fee_recipient == base.fee_recipient
                    &&& payload.prev_randao == base.prev_randao
                    &&& payload.block_number == base.block_number
                    &&& payload.gas_limit == base.gas_limit
                    &&& payload.timestamp == base.timestamp
                    &&& payload.extra_data == base.extra_data
                    &&& payload.base_fee_per_gas == base.base_fee_per_gas
                }
                &&& ({
                    let diff = flashblocks@[flashblocks@.len() - 1].diff;
                    &&& payload.state_root == diff.state_root
                    &&& payload.receipts_root == diff.receipts_root
                    &&& payload.logs_bloom == diff.logs_bloom
                    &&& payload.gas_used == diff.gas_used
                    &&& payload.block_hash == diff.block_hash
                })
                &&& payload.withdrawals@ == all_withdrawals(flashblocks@)
                &&& payload.blob_gas_used == 0
                &&& payload.excess_blob_gas == 0
            },
            Err(BuildError::EmptyBlock) => flashblocks@.len() == 0,
            Err(BuildError::MissingBase) => {
                &&& flashblocks@.len() > 0
                &&& flashblocks@.first().base is None
            },
            Err(_) => false,
        },
{
    if flashblocks.len() == 0 {
        return Err(BuildError::EmptyBlock);
    }
    let base = match &flashblocks[0].base {
        Some(base) => base,
        None => {
            return Err(BuildError::MissingBase);
        },
    };
    let latest_flashblock = &flashblocks[flashblocks.len() - 1];
    let ghost per_flashblock = flashblocks@.map_values(
        |flashblock: Arc<Flashblock>| flashblock.diff.transactions@,
    );
    let ghost withdrawn = flashblocks@.map_values(
        |flashblock: Arc<Flashblock>| flashblock.diff.withdrawals@,
    );
    let mut transactions: Vec<Bytes> = Vec::new();
    let mut withdrawals: Vec<Withdrawal> = Vec::new();
    let mut i: usize = 0;
    assert(per_flashblock.take(0).flatten() =~= Seq::<Bytes>::empty());
    assert(withdrawn.take(0).flatten() =~= Seq::<Withdrawal>::empty());
    while i < flashblocks.len()
        invariant
            i <= flashblocks.len(),
            per_flashblock == flashblocks@.map_values(
                |flashblock: Arc<Flashblock>| flashblock.diff.transactions@,
            ),
            withdrawn == flashblocks@.map_values(
                |flashblock: Arc<Flashblock>| flashblock.diff.withdrawals@,
            ),
            transactions@ == per_flashblock.take(i as int).flatten(),
            withdrawals@ == withdrawn.take(i as int).flatten(),
        decreases flashblocks.len() - i,
    {
        let diff = &flashblocks[i].diff;
        let mut more = share_all(&diff.transactions);
        transactions.append(&mut more);
        let mut more = copy_all(&diff.withdrawals);
        withdrawals.append(&mut more);
        proof {
            assert(per_flashblock.take(i + 1) =~= per_flashblock.take(i as int).push(
                diff.transactions@,
            ));
            per_flashblock.take(i as int).lemma_flatten_push(diff.transactions@);
            assert(withdrawn.take(i + 1) =~= withdrawn.take(i as int).push(diff.withdrawals@));
            withdrawn.take(i as int).lemma_flatten_push(diff.withdrawals@);
        }
        i += 1;
    }
    proof {
        assert(per_flashblock.take(i as int) =~= per_flashblock);
        assert(withdrawn.take(i as int) =~= withdrawn);
    }
    Ok(
        ExecutionPayload {
            parent_hash: base.parent_hash,
            fee_recipient: base.fee_recipient,
            state_root: latest_flashblock.diff.state_root,
            receipts_root: latest_flashblock.diff.receipts_root,
            logs_bloom: latest_flashblock.diff.logs_bloom,
            prev_randao: base.prev_randao,
            block_number: base.block_number,
            gas_limit: base.gas_limit,
            gas_used: latest_flashblock.diff.gas_used,
            timestamp: base.timestamp,
            extra_data: base.extra_data.clone(),
            base_fee_per_gas: base.base_fee_per_gas,
            block_hash: latest_flashblock.diff.block_hash,
            transactions,
            withdrawals,
            blob_gas_used: 0,
            excess_blob_gas: 0,
        },
    )
}

/// The receipts of a block. Where several flashblocks have a receipt for a transaction, the last
/// one counts.
pub fn merge_receipts(flashblocks: &Vec<Arc<Flashblock>>) -> (r: HashMap<B256, Arc<OpReceipt>>)
    ensures
        r@ == all_receipts(flashblocks@),
{
    let mut r: HashMap<B256, Arc<OpReceipt>> = map_new();
    assert(r@ =~= Map::<B256, Arc<OpReceipt>>::empty());
    let mut i: usize = 0;
    while i < flashblocks.len()
        invariant
            i <= flashblocks.len(),
            r@ == all_receipts(flashblocks@.take(i as int)),
        decreases flashblocks.len() - i,
    {
        let receipts = &flashblocks[i].metadata.receipts;
        let keys = map_keys(receipts);
        let ghost start = r@;
        let mut k: usize = 0;
        assert(start.union_prefer_right(receipts@.restrict(keys@.take(0).to_set())) =~= start);
        while k < keys.len()
            invariant
                k <= keys.len(),
                keys@.to_set() == receipts@.dom(),
                r@ == start.union_prefer_right(
                    receipts@.restrict(keys@.take(k as int).to_set()),
                ),
            decreases keys.len() - k,
        {
            let key = keys[k];
            let ghost before = keys@.take(k as int);
            let ghost after = keys@.take(k + 1);
            proof {
                assert(keys@.to_set().contains(key));
                assert(after =~= before.push(key));
                before.lemma_push_to_set_commute(key);
            }
            let receipt = map_get(receipts, &key).unwrap().clone();
            map_insert(&mut r, key, receipt);
            assert(r@ =~= start.union_prefer_right(receipts@.restrict(after.to_set())));
            k += 1;
        }
        proof {
            assert(keys@.take(keys@.len() as int) =~= keys@);
            assert(receipts@.restrict(receipts@.dom()) =~= receipts@);
            assert(flashblocks@.take(i + 1).drop_last() =~= flashblocks@.take(i as int));
        }
        i += 1;
    }
    assert(flashblocks@.take(i as int) =~= flashblocks@);
    r
}

/// Whether the flashblocks make up a block: the first one has a base, and their payload is that
/// of a block.
pub open spec fn is_whole(group: Seq<Arc<Flashblock>>) -> bool {
    &&& group.len() > 0
    &&& group.first().base is Some
    &&& is_block(payload_of(group))
}

/// The transactions of a block.
pub open spec fn envelopes_of(group: Seq<Arc<Flashblock>>) -> Seq<TxEnvelope> {
    all_transactions(group).map_values(|raw: Bytes| envelope_of(raw))
}

/// The account that sent a transaction; nothing where its signature is not valid.
pub open spec fn signer_of(tx: TxEnvelope) -> Option<Address> {
    recovered_signer((*tx.raw)@)
}

/// The receipt of a transaction of a block, where the block has one for it.
pub open spec fn receipt_of(group: Seq<Arc<Flashblock>>, tx: TxEnvelope) -> Option<Arc<OpReceipt>> {
    lookup(all_receipts(group), tx.fields.hash)
}

/// The gas that a block has used once its first `n` transactions are included: the cumulative gas
/// of the last of them.
pub open spec fn gas_after(group: Seq<Arc<Flashblock>>, n: int) -> u64 {
    if n <= 0 {
        0
    } else {
        receipt_of(group, envelopes_of(group)[n - 1]).unwrap().receipt().cumulative_gas_used
    }
}

/// The number of logs that the first `n` transactions of a block emitted.
pub open spec fn logs_after(group: Seq<Arc<Flashblock>>, n: int) -> nat
    decreases n,
{
    if n <= 0 {
        0
    } else {
        logs_after(group, n - 1) + receipt_of(
            group,
            envelopes_of(group)[n - 1],
        ).unwrap().receipt().logs@.len()
    }
}

/// The place of a transaction, and what its block fixes for it.
#[derive(Clone, Copy, Debug)]
pub struct TransactionMeta {
    pub tx_hash: B256,
    /// The place of the transaction in its block.
    pub index: u64,
    pub block_hash: B256,
    pub block_number: u64,
    pub base_fee: Option<u64>,
    pub excess_blob_gas: Option<u64>,
    pub timestamp: u64,
}

/// What the receipt that the RPC reports is made from.
#[derive(Debug)]
pub struct ReceiptInput {
    pub receipt: Arc<OpReceipt>,
    pub tx: TxEnvelope,
    pub signer: Address,
    /// The gas that the transaction itself used.
    pub gas_used: u64,
    /// The place in the block of the first log of the transaction.
    pub next_log_index: usize,
    pub meta: TransactionMeta,
}

/// What the receipt of a transaction is made from: the transaction, who signed it, its receipt,
/// its place in the block, and the gas and the logs of the block before it.
pub open spec fn input_of(
    tx: TxEnvelope,
    signer: Address,
    receipt: Arc<OpReceipt>,
    header: SealedHeaderView,
    index: u64,
    gas_used: u64,
    next_log_index: usize,
) -> ReceiptInput {
    ReceiptInput {
        receipt,
        tx,
        signer,
        gas_used: (receipt.receipt().cumulative_gas_used - gas_used) as u64,
        next_log_index,
        meta: TransactionMeta {
            tx_hash: tx.fields.hash,
            index,
            block_hash: header.hash,
            block_number: header.fields.number,
            base_fee: header.fields.base_fee_per_gas,
            excess_blob_gas: header.fields.excess_blob_gas,
            timestamp: header.fields.timestamp,
        },
    }
}

/// What the receipt of a transaction is made from. The cumulative gas of its receipt must not be
/// less than the gas that was used before it.
pub fn make_receipt_input(
    tx: &TxEnvelope,
    signer: Address,
    receipt: &Arc<OpReceipt>,
    header: &SealedHeader,
    index: u64,
    gas_used: u64,
    next_log_index: usize,
) -> (r: ReceiptInput)
    requires
        gas_used <= receipt.receipt().cumulative_gas_used,
    ensures
        r == input_of(*tx, signer, *receipt, header@, index, gas_used, next_log_index),
{
    ReceiptInput {
        receipt: receipt.clone(),
        tx: tx.clone(),
        signer,
        gas_used: receipt.cumulative_gas_used() - gas_used,
        next_log_index,
        meta: TransactionMeta {
            tx_hash: tx.fields.hash,
            index,
            block_hash: header.hash,
            block_number: header.fields.number,
            base_fee: header.fields.base_fee_per_gas,
            excess_blob_gas: header.fields.excess_blob_gas,
            timestamp: header.fields.timestamp,
        },
    }
}

/// A transaction as the RPC reports it. What only deposits have comes from the receipt of one.
pub open spec fn report_of(
    tx: TxEnvelope,
    signer: Address,
    receipt: OpReceipt,
    header: SealedHeaderView,
    index: u64,
) -> Transaction {
    let deposit = match receipt {
        OpReceipt::Deposit(deposit) if tx.fields.is_deposit => Some(deposit),
        _ => None,
    };
    Transaction {
        inner: tx,
        signer,
        block_hash: Some(header.hash),
        block_number: Some(header.fields.number),
        transaction_index: Some(index),
        effective_gas_price: Some(gas_price(tx.fields, header.fields.base_fee_per_gas)),
        deposit_nonce: match deposit {
            Some(deposit) => deposit.deposit_nonce,
            None => None,
        },
        deposit_receipt_version: match deposit {
            Some(deposit) => deposit.deposit_receipt_version,
            None => None,
        },
    }
}

/// A transaction as the RPC reports it. A deposit needs the receipt of one.
pub fn make_transaction(
    tx: &TxEnvelope,
    signer: Address,
    receipt: &OpReceipt,
    header: &SealedHeader,
    index: u64,
) -> (r: Result<Transaction, BuildError>)
    ensures
        match r {
            Ok(transaction) => {
                &&& tx.fields.is_deposit ==> *receipt is Deposit
                &&& transaction == report_of(*tx, signer, *receipt, header@, index)
            },
            Err(BuildError::NotDepositReceipt(hash)) => {
                &&& tx.fields.is_deposit
                &&& !(*receipt is Deposit)
                &&& hash == tx.fields.hash
            },
            Err(_) => false,
        },
{
    let (deposit_receipt_version, deposit_nonce) = if tx.fields.is_deposit {
        match receipt.as_deposit_receipt() {
            Some(deposit_receipt) => (
                deposit_receipt.deposit_receipt_version,
                deposit_receipt.deposit_nonce,
            ),
            None => {
                return Err(BuildError::NotDepositReceipt(tx.fields.hash));
            },
        }
    } else {
        (None, None)
    };
    let effective_gas_price = tx.fields.effective_gas_price(header.fields.base_fee_per_gas);
    Ok(
        Transaction {
            inner: tx.clone(),
            signer,
            block_hash: Some(header.hash),
            block_number: Some(header.fields.number),
            transaction_index: Some(index),
            effective_gas_price: Some(effective_gas_price),
            deposit_nonce,
            deposit_receipt_version,
        },
    )
}

/// Whether there is all that a transaction needs to be added: who signed it, and its receipt.
pub fn require_parts(
    tx_hash: B256,
    signer: Option<Address>,
    receipt: Option<&Arc<OpReceipt>>,
) -> (r: Result<(Address, Arc<OpReceipt>), BuildError>)
    ensures
        match r {
            Ok(parts) => signer == Some(parts.0) && receipt == Some(&parts.1),
            Err(BuildError::SignerRecovery(hash)) => signer is None && hash == tx_hash,
            Err(BuildError::MissingReceipt(hash)) => signer is Some && receipt is None && hash
                == tx_hash,
            Err(_) => false,
        },
{
    match signer {
        Some(signer) => match receipt {
            Some(receipt) => Ok((signer, receipt.clone())),
            None => Err(BuildError::MissingReceipt(tx_hash)),
        },
        None => Err(BuildError::SignerRecovery(tx_hash)),
    }
}

/// What the receipt of the transaction at place `i` is made from.
pub open spec fn receipt_input(group: Seq<Arc<Flashblock>>, i: int) -> ReceiptInput {
    let tx = envelopes_of(group)[i];
    input_of(
        tx,
        signer_of(tx).unwrap(),
        receipt_of(group, tx).unwrap(),
        sealed_header(payload_of(group)),
        i as u64,
        gas_after(group, i),
        logs_after(group, i) as usize,
    )
}

/// The transaction at place `i` of a block, as the RPC reports it.
pub open spec fn reported_transaction(group: Seq<Arc<Flashblock>>, i: int) -> Transaction {
    let tx = envelopes_of(group)[i];
    report_of(
        tx,
        signer_of(tx).unwrap(),
        *receipt_of(group, tx).unwrap(),
        sealed_header(payload_of(group)),
        i as u64,
    )
}

/// The transactions of a block, as the RPC reports them.
pub open spec fn reported_transactions(group: Seq<Arc<Flashblock>>) -> Seq<Transaction> {
    Seq::new(envelopes_of(group).len(), |i: int| reported_transaction(group, i))
}

/// What the environment takes from a block that its transactions are executed in.
#[derive(Debug)]
pub struct BlockEnvAttributes {
    pub timestamp: u64,
    pub suggested_fee_recipient: Address,
    pub prev_randao: B256,
    pub gas_limit: u64,
    pub parent_beacon_block_root: Option<B256>,
    pub extra_data: Bytes,
}

/// What the environment takes from a block whose first flashblock has a base.
pub open spec fn attributes_of(group: Seq<Arc<Flashblock>>) -> BlockEnvAttributes {
    let base = group.first().base.unwrap();
    BlockEnvAttributes {
        timestamp: base.timestamp,
        suggested_fee_recipient: base.fee_recipient,
        prev_randao: base.prev_randao,
        gas_limit: base.gas_limit,
        parent_beacon_block_root: Some(base.parent_beacon_block_root),
        extra_data: base.extra_data,
    }
}

/// The header fields of the payload of a block each have one source: what the first flashblock's
/// base fixes, or what the last flashblock's diff says.
pub proof fn law_payload_has_its_sources(group: Seq<Arc<Flashblock>>)
    requires
        group.len() > 0,
        group[0].base is Some,
    ensures
        payload_of(group).parent_hash == group[0].base.unwrap().parent_hash,
        payload_of(group).fee_recipient == group[0].base.unwrap().fee_recipient,
        payload_of(group).prev_randao == group[0].base.unwrap().prev_randao,
        payload_of(group).block_number == group[0].base.unwrap().block_number,
        payload_of(group).gas_limit == group[0].base.unwrap().gas_limit,
        payload_of(group).timestamp == group[0].base.unwrap().timestamp,
        payload_of(group).extra_data == (*group[0].base.unwrap().extra_data)@,
        payload_of(group).base_fee_per_gas == group[0].base.unwrap().base_fee_per_gas,
        payload_of(group).state_root == group[group.len() - 1].diff.state_root,
        payload_of(group).receipts_root == group[group.len() - 1].diff.receipts_root,
        payload_of(group).logs_bloom == group[group.len() - 1].diff.logs_bloom,
        payload_of(group).gas_used == group[group.len() - 1].diff.gas_used,
        payload_of(group).block_hash == group[group.len() - 1].diff.block_hash,
        payload_of(group).blob_gas_used == 0,
        payload_of(group).excess_blob_gas == 0,
{
}

/// One more flashblock leaves what the base fixes as it is, replaces the roots and totals, and adds
/// its transactions and withdrawals behind those of the block so far. Its own base, where it has
/// one, does not count.
pub proof fn law_next_flashblock_extends_payload(
    group: Seq<Arc<Flashblock>>,
    flashblock: Arc<Flashblock>,
)
    requires
        group.len() > 0,
    ensures
        ({
            let before = payload_of(group);
            let after = payload_of(group.push(flashblock));
            &&& after.parent_hash == before.parent_hash
            &&& after.fee_recipient == before.fee_recipient
            &&& after.prev_randao == before.prev_randao
            &&& after.block_number == before.block_number
            &&& after.gas_limit == before.gas_limit
            &&& after.timestamp == before.timestamp
            &&& after.extra_data == before.extra_data
            &&& after.base_fee_per_gas == before.base_fee_per_gas
            &&& after.state_root == flashblock.diff.state_root
            &&& after.receipts_root == flashblock.diff.receipts_root
            &&& after.logs_bloom == flashblock.diff.logs_bloom
            &&& after.gas_used == flashblock.diff.gas_used
            &&& after.block_hash == flashblock.diff.block_hash
            &&& after.transactions == before.transactions + raw_bytes(
                flashblock.diff.transactions@,
            )
            &&& after.withdrawals == before.withdrawals + flashblock.diff.withdrawals@
        }),
{
    law_parts_come_in_order(group, flashblock);
    assert(raw_bytes(all_transactions(group) + flashblock.diff.transactions@) =~= raw_bytes(
        all_transactions(group),
    ) + raw_bytes(flashblock.diff.transactions@));
}

/// The transactions and the withdrawals of a block are those of its flashblocks, in order: each
/// flashblock adds its own behind those before it.
pub proof fn law_parts_come_in_order(group: Seq<Arc<Flashblock>>, flashblock: Arc<Flashblock>)
    ensures
        all_transactions(Seq::empty()) == Seq::<Bytes>::empty(),
        all_transactions(group.push(flashblock)) == all_transactions(group)
            + flashblock.diff.transactions@,
        all_withdrawals(Seq::empty()) == Seq::<Withdrawal>::empty(),
        all_withdrawals(group.push(flashblock)) == all_withdrawals(group)
            + flashblock.diff.withdrawals@,
{
    let listed = |flashblock: Arc<Flashblock>| flashblock.diff.transactions@;
    let withdrawn = |flashblock: Arc<Flashblock>| flashblock.diff.withdrawals@;
    let none = Seq::<Arc<Flashblock>>::empty();
    assert(none.map_values(listed) =~= Seq::empty());
    assert(none.map_values(withdrawn) =~= Seq::empty());
    assert(all_transactions(none) =~= Seq::<Bytes>::empty());
    assert(all_withdrawals(none) =~= Seq::<Withdrawal>::empty());
    assert(group.push(flashblock).map_values(listed) =~= group.map_values(listed).push(
        flashblock.diff.transactions@,
    ));
    group.map_values(listed).lemma_flatten_push(flashblock.diff.transactions@);
    assert(group.push(flashblock).map_values(withdrawn) =~= group.map_values(withdrawn).push(
        flashblock.diff.withdrawals@,
    ));
    group.map_values(withdrawn).lemma_flatten_push(flashblock.diff.withdrawals@);
}

/// What the environment takes from a block is what the base of its first flashblock says.
pub proof fn law_environment_follows_base(group: Seq<Arc<Flashblock>>)
    requires
        group.len() > 0,
        group[0].base is Some,
    ensures
        attributes_of(group).timestamp == group[0].base.unwrap().timestamp,
        attributes_of(group).suggested_fee_recipient == group[0].base.unwrap().fee_recipient,
        attributes_of(group).prev_randao == group[0].base.unwrap().prev_randao,
        attributes_of(group).gas_limit == group[0].base.unwrap().gas_limit,
        attributes_of(group).parent_beacon_block_root == Some(
            group[0].base.unwrap().parent_beacon_block_root,
        ),
        attributes_of(group).extra_data == group[0].base.unwrap().extra_data,
        attributes_of(group).timestamp == payload_of(group).timestamp,
        attributes_of(group).gas_limit == payload_of(group).gas_limit,
{
}

/// The receipt of the transaction at place `i` is made from that transaction, with the account
/// that signed it and the receipt that the block has for its hash. It says that the transaction is
/// at place `i` of its block, and what the block's header says.
pub proof fn law_receipt_is_made_from_its_transaction(group: Seq<Arc<Flashblock>>, i: int)
    requires
        is_whole(group),
        0 <= i < all_transactions(group).len(),
        i <= u64::MAX,
        recovered_signer((*all_transactions(group)[i])@) is Some,
    ensures
        ({
            let input = receipt_input(group, i);
            let raw = all_transactions(group)[i];
            let base = group[0].base.unwrap();
            let header = sealed_header(payload_of(group));
            &&& input.tx.raw == raw
            &&& decoded_transaction((*raw)@) == Some(input.tx.fields)
            &&& recovered_signer((*raw)@) == Some(input.signer)
            &&& all_receipts(group).contains_key(input.tx.fields.hash) ==> input.receipt
                == all_receipts(group)[input.tx.fields.hash]
            &&& input.meta.tx_hash == input.tx.fields.hash
            &&& input.meta.index == i
            &&& input.meta.block_hash == header.hash
            &&& input.meta.block_number == base.block_number
            &&& input.meta.timestamp == base.timestamp
            &&& input.meta.base_fee is Some
            &&& input.meta.base_fee.unwrap() == base.base_fee_per_gas.value()
            &&& input.meta.excess_blob_gas == Some(0u64)
        }),
{
    assert(payload_of(group).transactions[i] == (*all_transactions(group)[i])@);
    assert(decoded_transaction(payload_of(group).transactions[i]) is Some);
}

/// A transaction used the gas by which it raised the cumulative gas: the first one of a block all
/// of its own, each later one what its receipt has more than that of the one before it.
pub proof fn law_gas_is_what_is_added(group: Seq<Arc<Flashblock>>, i: int)
    requires
        0 <= i < envelopes_of(group).len(),
    ensures
        ({
            let earlier = receipt_input(group, i - 1).receipt.receipt().cumulative_gas_used;
            let cumulative = receipt_input(group, i).receipt.receipt().cumulative_gas_used;
            let used = receipt_input(group, i).gas_used;
            &&& i == 0 ==> used == cumulative
            &&& i > 0 && earlier <= cumulative ==> earlier + used == cumulative
        }),
{
}

/// The logs of a block are numbered through from zero: each transaction goes on where the one
/// before it ended.
pub proof fn law_logs_are_numbered_through(group: Seq<Arc<Flashblock>>, i: int)
    requires
        0 <= i < envelopes_of(group).len(),
        logs_after(group, i) <= usize::MAX,
    ensures
        ({
            let earlier = receipt_input(group, i - 1);
            let first = receipt_input(group, i).next_log_index;
            &&& i == 0 ==> first == 0
            &&& i > 0 ==> first == earlier.next_log_index + earlier.receipt.receipt().logs@.len()
        }),
{
}

/// The transaction at place `i` is reported as what its receipt is made from: the same transaction,
/// of the same sender, at the same place of the same block.
pub proof fn law_report_agrees_with_receipt(group: Seq<Arc<Flashblock>>, i: int)
    ensures
        reported_transaction(group, i).inner == receipt_input(group, i).tx,
        reported_transaction(group, i).signer == receipt_input(group, i).signer,
        reported_transaction(group, i).hash() == receipt_input(group, i).meta.tx_hash,
        reported_transaction(group, i).block_hash == Some(receipt_input(group, i).meta.block_hash),
        reported_transaction(group, i).block_number == Some(
            receipt_input(group, i).meta.block_number,
        ),
        reported_transaction(group, i).transaction_index == Some(
            receipt_input(group, i).meta.index,
        ),
{
}

/// What only deposits have is reported of deposits alone, and is what the receipt of the deposit
/// says.
pub proof fn law_deposit_fields_come_from_receipt(
    tx: TxEnvelope,
    signer: Address,
    receipt: OpReceipt,
    header: SealedHeaderView,
    index: u64,
)
    ensures
        ({
            let reported = report_of(tx, signer, receipt, header, index);
            &&& !tx.fields.is_deposit ==> {
                &&& reported.deposit_nonce is None
                &&& reported.deposit_receipt_version is None
            }
            &&& tx.fields.is_deposit ==> match receipt {
                OpReceipt::Deposit(deposit) => {
                    &&& reported.deposit_nonce == deposit.deposit_nonce
                    &&& reported.deposit_receipt_version == deposit.deposit_receipt_version
                },
                _ => true,
            }
        }),
{
}

/// The gas that each transaction used adds up to the cumulative gas of the last one, where the
/// cumulative gas never decreases.
pub proof fn law_gas_adds_up(group: Seq<Arc<Flashblock>>, n: int)
    requires
        0 <= n <= envelopes_of(group).len(),
        forall|i: int|
            0 <= i < n ==> #[trigger] gas_after(group, i) <= gas_after(group, i + 1),
    ensures
        gas_total(group, n) == gas_after(group, n),
    decreases n,
{
    if n > 0 {
        law_gas_adds_up(group, n - 1);
        assert(gas_after(group, n - 1) <= gas_after(group, n - 1 + 1));
    }
}

/// The gas that the first `n` transactions of a block used, one by one.
pub open spec fn gas_total(group: Seq<Arc<Flashblock>>, n: int) -> int
    decreases n,
{
    if n <= 0 {
        0
    } else {
        gas_total(group, n - 1) + receipt_input(group, n - 1).gas_used
    }
}

/// A payload is put together exactly where there is a flashblock and the first one has a base. Each
/// of its fields then has one source: the base of the first flashblock, the diff of the last one,
/// or, for the transactions and the withdrawals, all flashblocks in order.
pub proof fn law_assembled_payload_has_its_sources(
    flashblocks: &Vec<Arc<Flashblock>>,
    assembled: Result<ExecutionPayload, BuildError>,
)
    requires
        call_ensures(assemble_payload, (flashblocks,), assembled),
    ensures
        assembled is Ok <==> flashblocks@.len() > 0 && flashblocks@[0].base is Some,
        flashblocks@.len() == 0 ==> assembled == Err::<ExecutionPayload, _>(BuildError::EmptyBlock),
        flashblocks@.len() > 0 && flashblocks@[0].base is None ==> assembled == Err::<
            ExecutionPayload,
            _,
        >(BuildError::MissingBase),
        assembled matches Ok(payload) ==> {
            let base = flashblocks@[0].base.unwrap();
            let diff = flashblocks@[flashblocks@.len() - 1].diff;
            &&& payload.parent_hash == base.parent_hash
            &&& payload.fee_recipient == base.fee_recipient
            &&& payload.prev_randao == base.prev_randao
            &&& payload.block_number == base.block_number
            &&& payload.gas_limit == base.gas_limit
            &&& payload.timestamp == base.timestamp
            &&& payload.extra_data == base.extra_data
            &&& payload.base_fee_per_gas == base.base_fee_per_gas
            &&& payload.state_root == diff.state_root
            &&& payload.receipts_root == diff.receipts_root
            &&& payload.logs_bloom == diff.logs_bloom
            &&& payload.gas_used == diff.gas_used
            &&& payload.block_hash == diff.block_hash
            &&& payload.blob_gas_used == 0
            &&& payload.excess_blob_gas == 0
            &&& payload.transactions@ == flashblocks@.map_values(
                |flashblock: Arc<Flashblock>| flashblock.diff.transactions@,
            ).flatten()
            &&& payload.withdrawals@ == flashblocks@.map_values(
                |flashblock: Arc<Flashblock>| flashblock.diff.withdrawals@,
            ).flatten()
        },
{
}

/// A transaction is reported as it is, with its sender, the hash and the number in the header, and
/// its place. Its price is nothing for a deposit. For any other transaction, in a block with a base
/// fee, it is the base fee and the priority fee, or all that the sender is willing to pay where
/// that is less or there is no priority fee, and the base fee where the sender is not willing to
/// pay even that. What only deposits have comes from the receipt. A deposit without the receipt of
/// one is refused, and nothing else is.
pub proof fn law_made_transaction_is_reported(
    tx: &TxEnvelope,
    signer: Address,
    receipt: &OpReceipt,
    header: &SealedHeader,
    index: u64,
    made: Result<Transaction, BuildError>,
)
    requires
        call_ensures(make_transaction, (tx, signer, receipt, header, index), made),
    ensures
        made is Ok <==> !(tx.fields.is_deposit && !(*receipt is Deposit)),
        made is Err ==> made == Err::<Transaction, _>(
            BuildError::NotDepositReceipt(tx.fields.hash),
        ),
        made matches Ok(reported) ==> {
            &&& reported.inner == *tx
            &&& reported.signer == signer
            &&& reported.block_hash == Some(header.hash)
            &&& reported.block_number == Some(header.fields.number)
            &&& reported.transaction_index == Some(index)
            &&& reported.effective_gas_price is Some
            &&& ({
                let price = reported.effective_gas_price.unwrap() as int;
                let most = tx.fields.max_fee_per_gas as int;
                match header.fields.base_fee_per_gas {
                    _ if tx.fields.is_deposit => price == 0,
                    None => price == most,
                    Some(base_fee) => if most < base_fee {
                        price == base_fee
                    } else {
                        match tx.fields.max_priority_fee_per_gas {
                            Some(priority_fee) => {
                                &&& price <= most && price <= base_fee + priority_fee
                                &&& price == most || price == base_fee + priority_fee
                            },
                            None => price == most,
                        }
                    },
                }
            })
            &&& match *receipt {
                OpReceipt::Deposit(deposit) if tx.fields.is_deposit => {
                    &&& reported.deposit_nonce == deposit.deposit_nonce
                    &&& reported.deposit_receipt_version == deposit.deposit_receipt_version
                },
                _ => reported.deposit_nonce is None && reported.deposit_receipt_version is None,
            }
        },
{
}

/// The receipt of a transaction is made from the transaction, its sender and its receipt as they
/// are. The transaction used the gas by which its receipt exceeds what was used before it, its logs
/// are numbered on from those before it, and its place is that in the block of the header.
pub proof fn law_made_receipt_input_is_complete(
    tx: &TxEnvelope,
    signer: Address,
    receipt: &Arc<OpReceipt>,
    header: &SealedHeader,
    index: u64,
    gas_used: u64,
    next_log_index: usize,
    made: ReceiptInput,
)
    requires
        call_ensures(
            make_receipt_input,
            (tx, signer, receipt, header, index, gas_used, next_log_index),
            made,
        ),
        gas_used <= receipt.receipt().cumulative_gas_used,
    ensures
        made.receipt == *receipt,
        made.tx == *tx,
        made.signer == signer,
        gas_used + made.gas_used == receipt.receipt().cumulative_gas_used,
        made.next_log_index == next_log_index,
        made.meta.tx_hash == tx.fields.hash,
        made.meta.index == index,
        made.meta.block_hash == header.hash,
        made.meta.block_number == header.fields.number,
        made.meta.base_fee == header.fields.base_fee_per_gas,
        made.meta.excess_blob_gas == header.fields.excess_blob_gas,
        made.meta.timestamp == header.fields.timestamp,
{
}

/// The receipt of a transaction is that of the last flashblock which has one for its hash; there is
/// none where no flashblock has one.
pub proof fn law_merged_receipts_are_the_latest(
    flashblocks: &Vec<Arc<Flashblock>>,
    merged: HashMap<B256, Arc<OpReceipt>>,
    hash: B256,
    k: int,
)
    requires
        call_ensures(merge_receipts, (flashblocks,), merged),
    ensures
        0 <= k < flashblocks@.len() && flashblocks@[k].metadata.receipts@.contains_key(hash) && (
        forall|j: int|
            k < j < flashblocks@.len() ==> !(
            #[trigger] flashblocks@[j]).metadata.receipts@.contains_key(hash)) ==> lookup(
            merged@,
            hash,
        ) == Some(flashblocks@[k].metadata.receipts@[hash]),
        (forall|j: int|
            0 <= j < flashblocks@.len() ==> !(
            #[trigger] flashblocks@[j]).metadata.receipts@.contains_key(hash)) ==> lookup(
            merged@,
            hash,
        ) is None,
{
    if 0 <= k < flashblocks@.len() && flashblocks@[k].metadata.receipts@.contains_key(hash) && (
    forall|j: int|
        k < j < flashblocks@.len() ==> !(
        #[trigger] flashblocks@[j]).metadata.receipts@.contains_key(hash)) {
        law_latest_receipt_counts(flashblocks@, hash, k);
    }
    if forall|j: int|
        0 <= j < flashblocks@.len() ==> !(
        #[trigger] flashblocks@[j]).metadata.receipts@.contains_key(hash) {
        law_receipt_has_source(flashblocks@, hash);
    }
}

/// A transaction can be added exactly where it is validly signed and has a receipt, with that
/// signer and that receipt. A missing signature comes before a missing receipt.
pub proof fn law_parts_are_required(
    tx_hash: B256,
    signer: Option<Address>,
    receipt: Option<&Arc<OpReceipt>>,
    parts: Result<(Address, Arc<OpReceipt>), BuildError>,
)
    requires
        call_ensures(require_parts, (tx_hash, signer, receipt), parts),
    ensures
        parts == match (signer, receipt) {
            (Some(signer), Some(receipt)) => Ok((signer, *receipt)),
            (Some(_), None) => Err(BuildError::MissingReceipt(tx_hash)),
            (None, _) => Err(BuildError::SignerRecovery(tx_hash)),
        },
{
}

} // verus!
