//! Execution payloads: a whole block put together from its flashblocks, and the sealed header
//! that follows from it.

use std::sync::Arc;

use alloy_consensus::Header as AlloyHeader;
use alloy_eips::eip4895::Withdrawal as AlloyWithdrawal;
use alloy_primitives::U256 as AlloyU256;
use alloy_rlp::Decodable;
use alloy_rpc_types_engine::{
    ExecutionPayloadV1, ExecutionPayloadV2, ExecutionPayloadV3, PayloadError,
};
use op_alloy_consensus::OpTxEnvelope;
use vstd::prelude::*;

use crate::flashblock::{copy_all, Withdrawal};
use crate::primitives::{Address, Bloom, Bytes, B256, U256};
use crate::transaction::{decode_transaction, decoded_transaction, TxEnvelope};

verus! {

/// Why a payload is not a block. Nothing is known of a value of it.
#[verifier::external_type_specification]
#[verifier::external_body]
pub struct ExPayloadError(PayloadError);

/// A whole block as the engine API describes it.
#[derive(Debug)]
pub struct ExecutionPayload {
    pub parent_hash: B256,
    pub fee_recipient: Address,
    pub state_root: B256,
    pub receipts_root: B256,
    pub logs_bloom: Bloom,
    pub prev_randao: B256,
    pub block_number: u64,
    pub gas_limit: u64,
    pub gas_used: u64,
    pub timestamp: u64,
    pub extra_data: Bytes,
    pub base_fee_per_gas: U256,
    pub block_hash: B256,
    pub transactions: Vec<Bytes>,
    pub withdrawals: Vec<Withdrawal>,
    pub blob_gas_used: u64,
    pub excess_blob_gas: u64,
}

/// What an [`ExecutionPayload`] says.
#[verifier::ext_equal]
pub struct PayloadView {
    pub parent_hash: B256,
    pub fee_recipient: Address,
    pub state_root: B256,
    pub receipts_root: B256,
    pub logs_bloom: Bloom,
    pub prev_randao: B256,
    pub block_number: u64,
    pub gas_limit: u64,
    pub gas_used: u64,
    pub timestamp: u64,
    pub extra_data: Seq<u8>,
    pub base_fee_per_gas: U256,
    pub block_hash: B256,
    pub transactions: Seq<Seq<u8>>,
    pub withdrawals: Seq<Withdrawal>,
    pub blob_gas_used: u64,
    pub excess_blob_gas: u64,
}

impl ExecutionPayload {
    pub open spec fn view(&self) -> PayloadView {
        PayloadView {
            parent_hash: self.parent_hash,
            fee_recipient: self.fee_recipient,
            state_root: self.state_root,
            receipts_root: self.receipts_root,
            logs_bloom: self.logs_bloom,
            prev_randao: self.prev_randao,
            block_number: self.block_number,
            gas_limit: self.gas_limit,
            gas_used: self.gas_used,
            timestamp: self.timestamp,
            extra_data: (*self.extra_data)@,
            base_fee_per_gas: self.base_fee_per_gas,
            block_hash: self.block_hash,
            transactions: raw_bytes(self.transactions@),
            withdrawals: self.withdrawals@,
            blob_gas_used: self.blob_gas_used,
            excess_blob_gas: self.excess_blob_gas,
        }
    }
}

/// The bytes of each of the byte strings.
pub open spec fn raw_bytes(strings: Seq<Bytes>) -> Seq<Seq<u8>> {
    strings.map_values(|s: Bytes| (*s)@)
}

/// Whether a payload describes a block: its extra data is short enough, its base fee fits the
/// header, and each of its transactions decodes.
pub open spec fn is_block(payload: PayloadView) -> bool {
    &&& payload.extra_data.len() <= 32
    &&& payload.base_fee_per_gas.value() <= u64::MAX
    &&& forall|i: int|
        0 <= i < payload.transactions.len() ==> (#[trigger] decoded_transaction(
            payload.transactions[i],
        )) is Some
}

/// The fields of a header that the pending state reads.
#[derive(Clone, Copy, Debug)]
pub struct HeaderFields {
    pub number: u64,
    pub timestamp: u64,
    pub base_fee_per_gas: Option<u64>,
    pub excess_blob_gas: Option<u64>,
}

/// The fields of the header of the block that a payload describes.
pub open spec fn fields_of(payload: PayloadView) -> HeaderFields {
    HeaderFields {
        number: payload.block_number,
        timestamp: payload.timestamp,
        base_fee_per_gas: Some(payload.base_fee_per_gas.value() as u64),
        excess_blob_gas: Some(payload.excess_blob_gas),
    }
}

/// What decoding the RLP encoding of a header reads from it; nothing where `rlp` does not start
/// with one.
pub uninterp spec fn decoded_header(rlp: Seq<u8>) -> Option<HeaderFields>;

/// Decodes the RLP encoding of a header.
///
/// Trusted: calls `decode` of `alloy_consensus::Header` and reads the fields of what it returns.
/// The result depends on the bytes alone.
#[verifier::external_body]
fn decode_header(rlp: &Vec<u8>) -> (fields: Option<HeaderFields>)
    ensures
        fields == decoded_header(rlp@),
{
    let header = AlloyHeader::decode(&mut rlp.as_slice()).ok()?;
    Some(HeaderFields {
        number: header.number,
        timestamp: header.timestamp,
        base_fee_per_gas: header.base_fee_per_gas,
        excess_blob_gas: header.excess_blob_gas,
    })
}

/// The Keccak-256 hash of a byte string.
pub uninterp spec fn keccak256_of(bytes: Seq<u8>) -> B256;

/// Hashes a byte string.
///
/// Trusted: calls `alloy_primitives::keccak256`. The hash of a header is that of its RLP encoding.
#[verifier::external_body]
fn keccak256(bytes: &Vec<u8>) -> (hash: B256)
    ensures
        hash == keccak256_of(bytes@),
{
    alloy_primitives::keccak256(bytes).0
}

/// The RLP encoding of the header of the block that a payload describes.
pub uninterp spec fn header_rlp(payload: PayloadView) -> Seq<u8>;

/// Turns a payload into a block, and returns the RLP encoding of the block's header.
///
/// Trusted: calls `try_into_block` of `alloy_rpc_types_engine::ExecutionPayloadV3`. It fails for
/// extra data of more than 32 bytes, for a base fee of more than 64 bits, and for a transaction
/// that does not decode, and for nothing else. The header it makes takes its number, timestamp,
/// base fee and excess blob gas from the payload, and its encoding decodes to what was encoded.
#[verifier::external_body]
fn try_into_block(
    parent_hash: B256,
    fee_recipient: Address,
    state_root: B256,
    receipts_root: B256,
    logs_bloom: Bloom,
    prev_randao: B256,
    block_number: u64,
    gas_limit: u64,
    gas_used: u64,
    timestamp: u64,
    extra_data: Vec<u8>,
    base_fee_per_gas: U256,
    block_hash: B256,
    transactions: Vec<Vec<u8>>,
    withdrawals: Vec<Withdrawal>,
    blob_gas_used: u64,
    excess_blob_gas: u64,
) -> (header: Result<Vec<u8>, PayloadError>)
    ensures
        ({
            let payload = PayloadView {
                parent_hash,
                fee_recipient,
                state_root,
                receipts_root,
                logs_bloom,
                prev_randao,
                block_number,
                gas_limit,
                gas_used,
                timestamp,
                extra_data: extra_data@,
                base_fee_per_gas,
                block_hash,
                transactions: transactions@.map_values(|t: Vec<u8>| t@),
                withdrawals: withdrawals@,
                blob_gas_used,
                excess_blob_gas,
            };
            match header {
                Ok(rlp) => {
                    &&& is_block(payload)
                    &&& rlp@ == header_rlp(payload)
                    &&& decoded_header(rlp@) == Some(fields_of(payload))
                },
                Err(_) => !is_block(payload),
            }
        }),
{
    let payload_inner = ExecutionPayloadV1 {
        parent_hash: parent_hash.into(), fee_recipient: fee_recipient.into(), state_root: state_root.into(),
        receipts_root: receipts_root.into(), logs_bloom: logs_bloom.into(), prev_randao: prev_randao.into(),
        block_number, gas_limit, gas_used, timestamp, extra_data: extra_data.into(), block_hash: block_hash.into(),
        base_fee_per_gas: AlloyU256::from_limbs(base_fee_per_gas.limbs),
        transactions: transactions.into_iter().map(Into::into).collect(),
    };
    let withdrawals = withdrawals.into_iter().map(|(index, validator_index, address, amount)| AlloyWithdrawal {
        index, validator_index, address: address.into(), amount,
    }).collect();
    let payload_inner = ExecutionPayloadV2 { payload_inner, withdrawals };
    ExecutionPayloadV3 { payload_inner, blob_gas_used, excess_blob_gas }
        .try_into_block::<OpTxEnvelope>().map(|block| alloy_rlp::encode(&block.header))
}

/// A header together with its hash.
#[derive(Debug)]
pub struct SealedHeader {
    pub hash: B256,
    pub fields: HeaderFields,
    /// The RLP encoding of the whole header.
    pub rlp: Bytes,
}

/// What a [`SealedHeader`] holds.
#[verifier::ext_equal]
pub struct SealedHeaderView {
    pub hash: B256,
    pub fields: HeaderFields,
    pub rlp: Seq<u8>,
}

/// The sealed header of the block that a payload describes.
pub open spec fn sealed_header(payload: PayloadView) -> SealedHeaderView {
    SealedHeaderView {
        hash: keccak256_of(header_rlp(payload)),
        fields: fields_of(payload),
        rlp: header_rlp(payload),
    }
}

impl SealedHeader {
    pub open spec fn view(&self) -> SealedHeaderView {
        SealedHeaderView { hash: self.hash, fields: self.fields, rlp: (*self.rlp)@ }
    }
}

impl Clone for SealedHeader {
    fn clone(&self) -> (r: Self)
        ensures
            r == *self,
    {
        SealedHeader { hash: self.hash, fields: self.fields, rlp: self.rlp.clone() }
    }
}

/// Copies the bytes of each of the byte strings.
fn copy_bytes(strings: &Vec<Bytes>) -> (r: Vec<Vec<u8>>)
    ensures
        r@.map_values(|t: Vec<u8>| t@) == raw_bytes(strings@),
{
    let mut r: Vec<Vec<u8>> = Vec::new();
    let mut i: usize = 0;
    while i < strings.len()
        invariant
            i <= strings.len(),
            r.len() == i,
            forall|j: int| 0 <= j < i ==> (#[trigger] r@[j])@ == (*strings@[j])@,
        decreases strings.len() - i,
    {
        let bytes: Vec<u8> = (*strings[i]).clone();
        assert(bytes@ =~= (*strings@[i as int])@);
        r.push(bytes);
        i += 1;
    }
    r
}

/// The sealed header of the block that a payload describes.
pub fn seal_block(payload: &ExecutionPayload) -> (r: Result<SealedHeader, PayloadError>)
    ensures
        match r {
            Ok(header) => is_block(payload@) && header@ == sealed_header(payload@),
            Err(_) => !is_block(payload@),
        },
        r matches Ok(header) ==> {
            &&& header.hash == keccak256_of((*header.rlp)@)
            &&& decoded_header((*header.rlp)@) == Some(header.fields)
            &&& header.fields.number == payload.block_number
            &&& header.fields.timestamp == payload.timestamp
            &&& header.fields.base_fee_per_gas is Some
            &&& header.fields.base_fee_per_gas.unwrap() == payload.base_fee_per_gas.value()
            &&& header.fields.excess_blob_gas == Some(payload.excess_blob_gas)
        },
{
    let extra_data: Vec<u8> = (*payload.extra_data).clone();
    assert(extra_data@ =~= (*payload.extra_data)@);
    let transactions = copy_bytes(&payload.transactions);
    let withdrawals = copy_all(&payload.withdrawals);
    let rlp = try_into_block(
        payload.parent_hash,
        payload.fee_recipient,
        payload.state_root,
        payload.receipts_root,
        payload.logs_bloom,
        payload.prev_randao,
        payload.block_number,
        payload.gas_limit,
        payload.gas_used,
        payload.timestamp,
        extra_data,
        payload.base_fee_per_gas,
        payload.block_hash,
        transactions,
        withdrawals,
        payload.blob_gas_used,
        payload.excess_blob_gas,
    )?;
    let fields = decode_header(&rlp).unwrap();
    let hash = keccak256(&rlp);
    Ok(SealedHeader { hash, fields, rlp: Arc::new(rlp) })
}

/// The sealed header of a block has the number, the timestamp and the base fee of its payload, and
/// the hash of its own encoding.
pub proof fn law_header_follows_payload(payload: PayloadView)
    requires
        is_block(payload),
    ensures
        ({
            let header = sealed_header(payload);
            &&& header.hash == keccak256_of(header.rlp)
            &&& header.rlp == header_rlp(payload)
            &&& header.fields.number == payload.block_number
            &&& header.fields.timestamp == payload.timestamp
            &&& header.fields.base_fee_per_gas is Some
            &&& header.fields.base_fee_per_gas.unwrap() == payload.base_fee_per_gas.value()
            &&& header.fields.excess_blob_gas == Some(payload.excess_blob_gas)
        }),
{
}

/// A payload is read field by field, and each of its transactions byte by byte.
pub proof fn law_payload_is_read_as_it_is(payload: ExecutionPayload, i: int)
    ensures
        payload@.parent_hash == payload.parent_hash,
        payload@.fee_recipient == payload.fee_recipient,
        payload@.state_root == payload.state_root,
        payload@.receipts_root == payload.receipts_root,
        payload@.logs_bloom == payload.logs_bloom,
        payload@.prev_randao == payload.prev_randao,
        payload@.block_number == payload.block_number,
        payload@.gas_limit == payload.gas_limit,
        payload@.gas_used == payload.gas_used,
        payload@.timestamp == payload.timestamp,
        payload@.extra_data == (*payload.extra_data)@,
        payload@.base_fee_per_gas == payload.base_fee_per_gas,
        payload@.block_hash == payload.block_hash,
        payload@.withdrawals == payload.withdrawals@,
        payload@.blob_gas_used == payload.blob_gas_used,
        payload@.excess_blob_gas == payload.excess_blob_gas,
        payload@.transactions.len() == payload.transactions@.len(),
        0 <= i < payload.transactions@.len() ==> payload@.transactions[i] == (
        *payload.transactions@[i])@,
{
}

/// The transaction with the encoding `raw`.
pub open spec fn envelope_of(raw: Bytes) -> TxEnvelope {
    TxEnvelope { raw, fields: decoded_transaction((*raw)@).unwrap() }
}

/// Decodes encoded transactions, all of which decode.
pub(crate) fn decode_transactions(raws: &Vec<Bytes>) -> (r: Vec<TxEnvelope>)
    requires
        forall|i: int|
            0 <= i < raws@.len() ==> (#[trigger] decoded_transaction((*raws@[i])@)) is Some,
    ensures
        r@ == raws@.map_values(|raw: Bytes| envelope_of(raw)),
{
    let mut r: Vec<TxEnvelope> = Vec::new();
    let mut i: usize = 0;
    while i < raws.len()
        invariant
            i <= raws.len(),
            forall|i: int|
                0 <= i < raws@.len() ==> (#[trigger] decoded_transaction((*raws@[i])@)) is Some,
            r.len() == i,
            forall|j: int| 0 <= j < i ==> #[trigger] r@[j] == envelope_of(raws@[j]),
        decreases raws.len() - i,
    {
        let raw = raws[i].clone();
        let fields = decode_transaction(&*raw).unwrap();
        r.push(TxEnvelope { raw, fields });
        i += 1;
    }
    r
}

/// A payload is sealed exactly where it describes a block. The header then has the number, the
/// timestamp and the base fee of the payload, its encoding is that of the block's header and
/// decodes to it, and its hash is that of the encoding.
pub proof fn law_sealed_header_follows_payload(
    payload: &ExecutionPayload,
    sealed: Result<SealedHeader, PayloadError>,
)
    requires
        call_ensures(seal_block, (payload,), sealed),
    ensures
        sealed is Ok <==> is_block(payload@),
        sealed matches Ok(header) ==> {
            &&& (*header.rlp)@ == header_rlp(payload@)
            &&& decoded_header((*header.rlp)@) == Some(header.fields)
            &&& header.hash == keccak256_of((*header.rlp)@)
            &&& header.fields.number == payload.block_number
            &&& header.fields.timestamp == payload.timestamp
            &&& header.fields.base_fee_per_gas is Some
            &&& header.fields.base_fee_per_gas.unwrap() == payload.base_fee_per_gas.value()
            &&& header.fields.excess_blob_gas == Some(payload.excess_blob_gas)
        },
{
}

} // verus!
