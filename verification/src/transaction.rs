//! Transactions: as they are encoded in a flashblock, and as the RPC reports them.

use alloy_consensus::transaction::SignerRecoverable;
use alloy_consensus::Transaction as _;
use alloy_eips::eip2718::Decodable2718;
use op_alloy_consensus::OpTxEnvelope;
use vstd::prelude::*;

use crate::primitives::{Address, Bytes, B256};

verus! {

/// What is read from an encoded transaction.
#[derive(Clone, Copy, Debug)]
pub struct TxFields {
    /// The hash that identifies the transaction.
    pub hash: B256,
    /// Whether the transaction is a deposit.
    pub is_deposit: bool,
    /// The most that the sender pays per gas.
    pub max_fee_per_gas: u128,
    /// The most that the sender pays per gas beyond the base fee, where the transaction says so.
    pub max_priority_fee_per_gas: Option<u128>,
}

/// What decoding the encoded transaction `raw` reads from it; nothing where `raw` is not the
/// encoding of exactly one transaction.
pub uninterp spec fn decoded_transaction(raw: Seq<u8>) -> Option<TxFields>;

/// Decodes an EIP-2718 transaction.
///
/// Trusted: calls `decode_2718_exact` of `op_alloy_consensus::OpTxEnvelope` and the getters of
/// what it returns. The result depends on the bytes alone.
#[verifier::external_body]
pub(crate) fn decode_transaction(raw: &Vec<u8>) -> (fields: Option<TxFields>)
    ensures
        fields == decoded_transaction(raw@),
{
    let tx = OpTxEnvelope::decode_2718_exact(raw).ok()?;
    Some(TxFields {
        hash: tx.tx_hash().0,
        is_deposit: tx.is_deposit(),
        max_fee_per_gas: tx.max_fee_per_gas(),
        max_priority_fee_per_gas: tx.max_priority_fee_per_gas(),
    })
}

/// The account that signed the encoded transaction `raw`; nothing where `raw` does not decode or
/// its signature is not valid.
pub uninterp spec fn recovered_signer(raw: Seq<u8>) -> Option<Address>;

/// Recovers who signed an EIP-2718 transaction.
///
/// Trusted: decodes with `decode_2718_exact` of `op_alloy_consensus::OpTxEnvelope` and calls its
/// `recover_signer`. The result depends on the bytes alone.
#[verifier::external_body]
pub(crate) fn recover_signer(raw: &Vec<u8>) -> (signer: Option<Address>)
    ensures
        signer == recovered_signer(raw@),
{
    let tx = OpTxEnvelope::decode_2718_exact(raw).ok()?;
    tx.recover_signer().ok().map(|signer| signer.into_array())
}

/// A transaction of a block: its encoding and what is read from it.
#[derive(Debug)]
pub struct TxEnvelope {
    pub raw: Bytes,
    pub fields: TxFields,
}

impl Clone for TxEnvelope {
    fn clone(&self) -> (r: Self)
        ensures
            r == *self,
    {
        TxEnvelope { raw: self.raw.clone(), fields: self.fields }
    }
}

/// What the sender pays per gas beyond the base fee; nothing where the base fee is more than the
/// sender is willing to pay.
pub open spec fn effective_tip(tx: TxFields, base_fee: u64) -> Option<u128> {
    if tx.max_fee_per_gas < base_fee {
        None
    } else {
        let room = (tx.max_fee_per_gas - base_fee) as u128;
        match tx.max_priority_fee_per_gas {
            Some(priority_fee) if priority_fee < room => Some(priority_fee),
            _ => Some(room),
        }
    }
}

/// The price per gas that the pending block charges for the transaction.
///
/// Deposits are free. Without a base fee the price is what the sender is willing to pay. With
/// one it is the base fee and the tip, the tip being nothing where the base fee is out of the
/// sender's reach.
pub open spec fn gas_price(tx: TxFields, base_fee: Option<u64>) -> u128 {
    if tx.is_deposit {
        0
    } else {
        match base_fee {
            Some(fee) => match effective_tip(tx, fee) {
                Some(tip) => (tip + fee) as u128,
                None => fee as u128,
            },
            None => tx.max_fee_per_gas,
        }
    }
}

impl TxFields {
    /// What the sender pays per gas beyond the base fee; nothing where the base fee is more than
    /// the sender is willing to pay.
    pub fn effective_tip_per_gas(&self, base_fee: u64) -> (r: Option<u128>)
        ensures
            r == effective_tip(*self, base_fee),
    {
        let base_fee: u128 = base_fee as u128;
        if self.max_fee_per_gas < base_fee {
            return None;
        }
        let room: u128 = self.max_fee_per_gas - base_fee;
        match self.max_priority_fee_per_gas {
            Some(priority_fee) => if priority_fee < room {
                Some(priority_fee)
            } else {
                Some(room)
            },
            None => Some(room),
        }
    }

    /// The price per gas that the pending block charges for the transaction.
    pub fn effective_gas_price(&self, base_fee: Option<u64>) -> (r: u128)
        ensures
            r == gas_price(*self, base_fee),
    {
        if self.is_deposit {
            0
        } else {
            match base_fee {
                Some(fee) => match self.effective_tip_per_gas(fee) {
                    Some(tip) => tip + fee as u128,
                    None => fee as u128,
                },
                None => self.max_fee_per_gas,
            }
        }
    }
}

/// With a base fee that the sender can pay, the price per gas is at least the base fee and at
/// most what the sender is willing to pay.
pub proof fn law_gas_price_bounds(tx: TxFields, base_fee: u64)
    requires
        !tx.is_deposit,
        base_fee <= tx.max_fee_per_gas,
    ensures
        base_fee <= gas_price(tx, Some(base_fee)) <= tx.max_fee_per_gas,
{
}

/// The tip is what the sender offers beyond the base fee, as far as what the sender is willing to
/// pay in all leaves room for it. A sender that names no priority fee offers all the room. There is
/// no tip where the base fee alone is out of reach.
pub proof fn law_tip_is_what_is_offered(tx: TxFields, base_fee: u64)
    ensures
        effective_tip(tx, base_fee) is None <==> base_fee > tx.max_fee_per_gas,
        effective_tip(tx, base_fee) matches Some(tip) ==> {
            &&& tip + base_fee <= tx.max_fee_per_gas
            &&& tx.max_priority_fee_per_gas matches Some(priority_fee) ==> {
                &&& tip <= priority_fee
                &&& tip == priority_fee || tip + base_fee == tx.max_fee_per_gas
            }
            &&& tx.max_priority_fee_per_gas is None ==> tip + base_fee == tx.max_fee_per_gas
        },
{
}

/// In a block with a base fee, a transaction that is no deposit is charged the base fee and the
/// priority fee, but not more than the sender is willing to pay; without a priority fee, all that
/// the sender is willing to pay; and the base fee where that is more than the sender is willing to
/// pay.
pub proof fn law_price_follows_fees(tx: TxFields, base_fee: u64)
    requires
        !tx.is_deposit,
    ensures
        base_fee > tx.max_fee_per_gas ==> gas_price(tx, Some(base_fee)) == base_fee,
        base_fee <= tx.max_fee_per_gas ==> match tx.max_priority_fee_per_gas {
            Some(priority_fee) => gas_price(tx, Some(base_fee)) == if base_fee + priority_fee
                < tx.max_fee_per_gas {
                base_fee + priority_fee
            } else {
                tx.max_fee_per_gas as int
            },
            None => gas_price(tx, Some(base_fee)) == tx.max_fee_per_gas,
        },
        gas_price(tx, None) == tx.max_fee_per_gas,
{
}

/// The tip and the price that are computed for a transaction follow its fees. A deposit is free.
/// Any other pays, in a block with a base fee, the base fee and the tip, and the base fee alone
/// where it is out of reach; without a base fee, all that the sender is willing to pay.
pub proof fn law_computed_price_follows_fees(
    tx: &TxFields,
    base_fee: u64,
    tip: Option<u128>,
    price: u128,
    price_without_base_fee: u128,
)
    requires
        call_ensures(TxFields::effective_tip_per_gas, (tx, base_fee), tip),
        call_ensures(TxFields::effective_gas_price, (tx, Some(base_fee)), price),
        call_ensures(TxFields::effective_gas_price, (tx, None), price_without_base_fee),
    ensures
        tip is None <==> base_fee > tx.max_fee_per_gas,
        tip matches Some(tip) ==> {
            &&& base_fee + tip <= tx.max_fee_per_gas
            &&& tx.max_priority_fee_per_gas matches Some(priority_fee) ==> {
                &&& tip <= priority_fee
                &&& tip == priority_fee || base_fee + tip == tx.max_fee_per_gas
            }
            &&& tx.max_priority_fee_per_gas is None ==> base_fee + tip == tx.max_fee_per_gas
        },
        tx.is_deposit ==> price == 0 && price_without_base_fee == 0,
        !tx.is_deposit ==> {
            &&& tip matches Some(tip) ==> price == base_fee + tip
            &&& tip is None ==> price == base_fee
            &&& price_without_base_fee == tx.max_fee_per_gas
        },
{
}

/// A higher base fee never lowers the price of a transaction that is no deposit.
pub proof fn law_price_rises_with_base_fee(tx: TxFields, base_fee: u64, higher: u64)
    requires
        !tx.is_deposit,
        base_fee <= higher,
    ensures
        gas_price(tx, Some(base_fee)) <= gas_price(tx, Some(higher)),
{
}

/// A deposit is free, whatever it offers and whatever the block charges.
pub proof fn law_deposits_are_free(tx: TxFields, base_fee: Option<u64>)
    requires
        tx.is_deposit,
    ensures
        gas_price(tx, base_fee) == 0,
{
}

/// A transaction as the RPC reports it.
#[derive(Debug)]
pub struct Transaction {
    /// The transaction itself.
    pub inner: TxEnvelope,
    /// The account that sent it.
    pub signer: Address,
    pub block_hash: Option<B256>,
    pub block_number: Option<u64>,
    pub transaction_index: Option<u64>,
    pub effective_gas_price: Option<u128>,
    pub deposit_nonce: Option<u64>,
    pub deposit_receipt_version: Option<u64>,
}

impl Transaction {
    /// The hash that identifies the transaction.
    pub open spec fn hash(&self) -> B256 {
        self.inner.fields.hash
    }

    /// The hash that identifies the transaction.
    pub fn tx_hash(&self) -> (r: B256)
        ensures
            r == self.hash(),
    {
        self.inner.fields.hash
    }
}

} // verus!
