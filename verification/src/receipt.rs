//! Receipts, the logs in them, and the filter that selects logs.

use std::sync::Arc;

use vstd::prelude::*;

use crate::primitives::{Address, Bloom, Bytes, B256};

verus! {

/// The outcome of a transaction: a status flag, or the state root of old receipts.
#[derive(Clone, Copy, Debug, PartialEq, Eq)]
pub enum Eip658Value {
    Eip658(bool),
    PostState(B256),
}

/// A log as a contract emits it.
#[derive(Clone, Debug, PartialEq, Eq)]
pub struct Log {
    pub address: Address,
    pub topics: Vec<B256>,
    pub data: Bytes,
}

/// The part of a receipt that all transaction types have.
#[derive(Clone, Debug, PartialEq, Eq)]
pub struct Receipt {
    pub status: Eip658Value,
    /// The gas that the block had used once the transaction was included.
    pub cumulative_gas_used: u64,
    pub logs: Vec<Arc<Log>>,
}

/// The receipt of a deposit.
#[derive(Clone, Debug, PartialEq, Eq)]
pub struct OpDepositReceipt {
    pub inner: Receipt,
    pub deposit_nonce: Option<u64>,
    pub deposit_receipt_version: Option<u64>,
}

/// A receipt, by transaction type.
#[derive(Clone, Debug, PartialEq, Eq)]
pub enum OpReceipt {
    Legacy(Receipt),
    Eip2930(Receipt),
    Eip1559(Receipt),
    Eip7702(Receipt),
    Deposit(OpDepositReceipt),
}

impl OpReceipt {
    /// The part that all transaction types have.
    pub open spec fn receipt(self) -> Receipt {
        match self {
            OpReceipt::Legacy(receipt) => receipt,
            OpReceipt::Eip2930(receipt) => receipt,
            OpReceipt::Eip1559(receipt) => receipt,
            OpReceipt::Eip7702(receipt) => receipt,
            OpReceipt::Deposit(deposit) => deposit.inner,
        }
    }

    /// The part that all transaction types have.
    pub fn as_receipt(&self) -> (r: &Receipt)
        ensures
            *r == self.receipt(),
    {
        match self {
            OpReceipt::Legacy(receipt) => receipt,
            OpReceipt::Eip2930(receipt) => receipt,
            OpReceipt::Eip1559(receipt) => receipt,
            OpReceipt::Eip7702(receipt) => receipt,
            OpReceipt::Deposit(deposit) => &deposit.inner,
        }
    }

    /// The gas that the block had used once the transaction was included.
    pub fn cumulative_gas_used(&self) -> (r: u64)
        ensures
            r == self.receipt().cumulative_gas_used,
    {
        self.as_receipt().cumulative_gas_used
    }

    /// The receipt of a deposit, where this is one.
    pub fn as_deposit_receipt(&self) -> (r: Option<&OpDepositReceipt>)
        ensures
            match r {
                Some(deposit) => *self == OpReceipt::Deposit(*deposit),
                None => !(self is Deposit),
            },
    {
        match self {
            OpReceipt::Deposit(deposit) => Some(deposit),
            _ => None,
        }
    }
}

/// A log as the RPC reports it, with the place it was emitted at.
#[derive(Debug)]
pub struct RpcLog {
    pub inner: Arc<Log>,
    pub block_hash: Option<B256>,
    pub block_number: Option<u64>,
    pub block_timestamp: Option<u64>,
    pub transaction_hash: Option<B256>,
    pub transaction_index: Option<u64>,
    pub log_index: Option<u64>,
    pub removed: bool,
}

/// What a transaction paid for the chain it settles on. The fee scalar is given by the bits of
/// its floating-point number.
#[derive(Clone, Copy, Debug)]
pub struct L1BlockInfo {
    pub l1_gas_price: Option<u128>,
    pub l1_gas_used: Option<u128>,
    pub l1_fee: Option<u128>,
    pub l1_fee_scalar_bits: Option<u64>,
    pub l1_base_fee_scalar: Option<u128>,
    pub l1_blob_base_fee: Option<u128>,
    pub l1_blob_base_fee_scalar: Option<u128>,
    pub operator_fee_scalar: Option<u128>,
    pub operator_fee_constant: Option<u128>,
}

/// The transaction type that a receipt is tagged with, and what only deposits have.
#[derive(Clone, Copy, Debug)]
pub enum OpReceiptType {
    Legacy,
    Eip2930,
    Eip1559,
    Eip7702,
    Deposit { nonce: Option<u64>, receipt_version: Option<u64> },
}

/// A receipt as the RPC reports it.
#[derive(Debug)]
pub struct OpTransactionReceipt {
    pub receipt_type: OpReceiptType,
    pub status: Eip658Value,
    pub cumulative_gas_used: u64,
    pub logs: Vec<Arc<RpcLog>>,
    pub logs_bloom: Bloom,
    pub transaction_hash: B256,
    pub transaction_index: Option<u64>,
    pub block_hash: Option<B256>,
    pub block_number: Option<u64>,
    pub gas_used: u64,
    pub effective_gas_price: u128,
    pub blob_gas_used: Option<u64>,
    pub blob_gas_price: Option<u128>,
    pub from: Address,
    pub to: Option<Address>,
    pub contract_address: Option<Address>,
    pub l1_block_info: L1BlockInfo,
}

/// Which logs to select: those of certain contracts, with certain topics.
#[derive(Debug)]
pub struct Filter {
    /// The contracts; none stands for any.
    pub address: Vec<Address>,
    /// The topics at each of the four places; none stands for any.
    pub topics: [Vec<B256>; 4],
}

/// Whether a filter that lists `wanted` at some place takes `value` there.
pub open spec fn admits<T>(wanted: Seq<T>, value: T) -> bool {
    wanted.len() == 0 || wanted.contains(value)
}

/// Whether a log with the given address and topics is selected.
///
/// A log with more topics than there are places is not. A place for which the log has no topic
/// must list none.
pub open spec fn selects(
    address: Seq<Address>,
    topics: Seq<Seq<B256>>,
    log_address: Address,
    log_topics: Seq<B256>,
) -> bool {
    &&& admits(address, log_address)
    &&& log_topics.len() <= topics.len()
    &&& forall|i: int|
        0 <= i < topics.len() ==> if i < log_topics.len() {
            admits(#[trigger] topics[i], log_topics[i])
        } else {
            topics[i].len() == 0
        }
}

impl Filter {
    /// Whether the log is selected.
    pub open spec fn selects_log(self, log: Log) -> bool {
        selects(
            self.address@,
            self.topics@.map_values(|topics: Vec<B256>| topics@),
            log.address,
            log.topics@,
        )
    }

    /// Whether the log is selected.
    ///
    /// Trusted: calls `alloy_rpc_types_eth::Filter::matches`, which takes a log when the filter's
    /// address set and each of its four topic sets take what the log has there. An empty set
    /// takes anything, and is the only one that takes a missing topic; a log with a fifth topic
    /// is not taken.
    #[verifier::external_body]
    pub(crate) fn matches(&self, log: &Log) -> (matched: bool)
        ensures
            matched == self.selects_log(*log),
    {
        let mut filter = alloy_rpc_types_eth::Filter::new();
        filter.address = self.address.iter().map(|a| (*a).into()).collect();
        filter.topics = self.topics.clone().map(|set| set.into_iter().map(Into::into).collect());
        let topics = log.topics.iter().map(|t| (*t).into()).collect();
        filter.matches(&alloy_primitives::Log::new_unchecked(log.address.into(), topics, log.data.to_vec().into()))
    }
}

/// Whatever type of transaction a receipt is of, its status, its cumulative gas and its logs are
/// those of the part that all types have, and only that of a deposit is taken for one.
pub proof fn law_receipt_is_read_by_type(
    receipt: &OpReceipt,
    part: &Receipt,
    gas: u64,
    deposit: Option<&OpDepositReceipt>,
)
    requires
        call_ensures(OpReceipt::as_receipt, (receipt,), part),
        call_ensures(OpReceipt::cumulative_gas_used, (receipt,), gas),
        call_ensures(OpReceipt::as_deposit_receipt, (receipt,), deposit),
    ensures
        gas == part.cumulative_gas_used,
        deposit is Some <==> receipt is Deposit,
        deposit matches Some(deposit) ==> *receipt == OpReceipt::Deposit(*deposit) && *part
            == deposit.inner,
        deposit is None ==> {
            ||| *receipt == OpReceipt::Legacy(*part)
            ||| *receipt == OpReceipt::Eip2930(*part)
            ||| *receipt == OpReceipt::Eip1559(*part)
            ||| *receipt == OpReceipt::Eip7702(*part)
        },
{
}

} // verus!
