//! Fixed gas costs of each delivery path and of the claim protocol itself.
use vstd::prelude::*;

use crate::Gas;

verus! {

/// One tera-gas.
pub const TGAS: Gas = 1_000_000_000_000;

/// Smallest budget that one cross-contract call is given.
pub const MIN_BASE_GAS_FOR_ONE_CCC: Gas = 5 * TGAS;

/// Overhead of dispatching a claim and its bookkeeping, shared by all assets.
pub const BASE_GAS_FOR_CLAIM: Gas = 20 * TGAS;

/// Overhead of a claim that first creates the receiving account.
pub const BASE_GAS_FOR_CREATE_ACC_AND_CLAIM: Gas = 60 * TGAS;

/// Budget of the account-creation call.
pub const GAS_FOR_CREATE_ACCOUNT: Gas = 28 * TGAS;

/// Budget of the continuation that runs once the account has been created.
pub const BASE_GAS_FOR_RESOLVE_ACCOUNT_CREATION: Gas = 30 * TGAS;

/// Logic of the fungible-token claim: 2 TGas and three cross-contract calls.
pub const GAS_FOR_CLAIM_LOGIC: Gas = 2 * TGAS + 3 * MIN_BASE_GAS_FOR_ONE_CCC;

/// Transfer of fungible tokens.
pub const MIN_GAS_FOR_FT_TRANSFER: Gas = 5 * TGAS;

/// Registration of the receiver on the fungible-token contract.
pub const MIN_GAS_FOR_STORAGE_DEPOSIT: Gas = 5 * TGAS;

/// Resolution of the registration and transfer batch.
pub const MIN_GAS_FOR_RESOLVE_BATCH: Gas = 5 * TGAS;

/// Logic of the non-fungible-token claim.
pub const GAS_FOR_NFT_CLAIM_LOGIC: Gas = 5 * TGAS;

/// Transfer of one non-fungible token.
pub const MIN_GAS_FOR_NFT_TRANSFER: Gas = 10 * TGAS;

/// Continuation that resolves a non-fungible-token transfer.
pub const MIN_GAS_FOR_NFT_CALLBACK_LOGIC: Gas = 5 * TGAS;

/// Logic of the function-call claim, before its methods.
pub const GAS_FOR_FC_CLAIM_LOGIC: Gas = 5 * TGAS;

/// Transfer of the native currency.
pub const GAS_FOR_NEAR_TRANSFER: Gas = 5 * TGAS;

/// The empty asset delivers nothing and costs nothing.
pub const GAS_FOR_NONE_ASSET: Gas = 0;

} // verus!
