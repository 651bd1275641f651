//! Data that describes assets in the contract's event records.
use vstd::prelude::*;

use crate::external::{ExtFTData, ExtNEARData, ExtNFTData};
use crate::{Balance, Gas, PublicKey};

verus! {

/// An asset, as an event records it.
#[derive(Debug, Clone)]
pub enum ExtAssetForEvents {
    FTAsset(ExtFTData),
    NearAsset(ExtNEARData),
    NFTAsset(ExtNFTData),
    FCAsset(Vec<ExtFCDataForEvents>),
}

/// A method call of a function-call asset, as an event records it.
#[derive(Debug, Clone)]
pub struct ExtFCDataForEvents {
    /// Contract that is called.
    pub receiver_id: String,
    pub method_name: String,
    /// Value attached to the call.
    pub attached_deposit: Balance,
    /// Gas attached to the call.
    pub attached_gas: Gas,
}

/// What accompanies the transfer of a key that is a non-fungible token: the
/// key that signs it, its signature, and the key that replaces it.
#[derive(Debug, Clone)]
pub struct NftTransferMemo {
    pub linkdrop_pk: PublicKey,
    pub signature: Option<Vec<u8>>,
    pub new_public_key: PublicKey,
}

} // verus!
