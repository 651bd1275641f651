//! Settlement engine of a key-based asset distribution service: drops are
//! funded with assets, and the holder of a key claims them. Every claim either
//! delivers what it owes or, once its delivery is known to have failed, puts
//! the asset back and tells the funder what is owed to them.
use vstd::prelude::*;

pub mod claims;
pub mod delivery;
pub mod drop;
pub mod events;
pub mod external;
pub mod fc_asset;
pub mod ft_asset;
pub mod gas;
pub mod internal_asset;
pub mod laws;
pub mod nft_asset;
pub mod table;
pub mod text;
pub mod views;

verus! {

/// An amount of the native currency, in its smallest unit.
pub type Balance = u128;

/// Compute budget, in gas units.
pub type Gas = u64;

/// An account name on the ledger.
pub type AccountId = String;

/// Identifier of a non-fungible token within its contract.
pub type TokenId = String;

/// Identifier of an asset within a drop.
pub type AssetId = String;

/// Identifier of a drop.
pub type DropId = String;

/// A public key, in its textual form.
pub type PublicKey = String;

} // verus!
