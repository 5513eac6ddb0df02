//! Why a pending state could not be built.

use alloy_rpc_types_engine::PayloadError;
use vstd::prelude::*;

use crate::primitives::B256;

verus! {

/// Why a pending state could not be built.
#[derive(Debug)]
pub enum BuildError {
    /// No header was collected.
    MissingHeaders,
    /// No flashblock was collected.
    NoFlashblocks,
    /// A pending block cannot be built from no flashblocks.
    EmptyBlock,
    /// The first flashblock of a block does not contain a base.
    MissingBase,
    /// The flashblocks of a block do not make up a block.
    Payload(PayloadError),
    /// The signer of the transaction with this hash cannot be recovered.
    SignerRecovery(B256),
    /// There is no receipt for the transaction with this hash.
    MissingReceipt(B256),
    /// The receipt of the deposit with this hash is not one of a deposit.
    NotDepositReceipt(B256),
}

} // verus!
