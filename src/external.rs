//! How assets and drops are shown to the outside: what each use of a key
//! hands out, without the internal balances.
use vstd::prelude::*;

use crate::fc_asset::{copy_methods, MethodData};
use crate::internal_asset::InternalAsset;
use crate::{AccountId, Balance};

verus! {

/// Fungible tokens owed on one use.
#[derive(Debug, Clone)]
pub struct ExtFTData {
    pub ft_contract_id: AccountId,
    pub registration_cost: Balance,
    /// Tokens handed out per use.
    pub ft_amount: Balance,
}

/// A non-fungible token owed on one use.
#[derive(Debug, Clone)]
pub struct ExtNFTData {
    pub nft_contract_id: AccountId,
}

/// Native currency owed on one use.
#[derive(Debug, Clone)]
pub struct ExtNEARData {
    pub yoctonear: Balance,
}

/// One asset of one use, as shown to the outside.
#[derive(Debug, Clone)]
pub enum ExtAsset {
    FTAsset(ExtFTData),
    NFTAsset(ExtNFTData),
    FCAsset(Vec<MethodData>),
    NearAsset(ExtNEARData),
}

/// `r` shows the asset `a` with `q` owed per use: the empty asset shows as nothing.
pub open spec fn ext_asset_matches(r: Option<ExtAsset>, a: InternalAsset, q: Option<u128>) -> bool {
    match a {
        InternalAsset::Ft(f) => r matches Some(ExtAsset::FTAsset(e)) && e.ft_contract_id == f.contract_id
            && e.registration_cost == f.registration_cost && e.ft_amount == q->Some_0,
        InternalAsset::Nft(n) => r matches Some(ExtAsset::NFTAsset(e)) && e.nft_contract_id == n.contract_id,
        InternalAsset::Fc(f) => r matches Some(ExtAsset::FCAsset(ms)) && ms@ == f.methods@,
        InternalAsset::Near => r == Some(ExtAsset::NearAsset(ExtNEARData { yoctonear: q->Some_0 })),
        InternalAsset::Empty => r is None,
    }
}

impl InternalAsset {
    /// This asset as the outside sees it, with `tokens_per_use` owed on each use.
    pub fn to_external_asset(&self, tokens_per_use: &Option<Balance>) -> (r: Option<ExtAsset>)
        requires
            (*self is Ft || *self is Near) ==> (*tokens_per_use) is Some,
        ensures
            ext_asset_matches(r, *self, *tokens_per_use),
    {
        match self {
            InternalAsset::Ft(ft_data) => Some(
                ExtAsset::FTAsset(
                    ExtFTData {
                        ft_contract_id: ft_data.contract_id.clone(),
                        registration_cost: ft_data.registration_cost,
                        ft_amount: tokens_per_use.unwrap(),
                    },
                ),
            ),
            InternalAsset::Nft(nft_data) => Some(
                ExtAsset::NFTAsset(ExtNFTData { nft_contract_id: nft_data.contract_id.clone() }),
            ),
            InternalAsset::Fc(fc_data) => Some(ExtAsset::FCAsset(copy_methods(&fc_data.methods))),
            InternalAsset::Near => Some(ExtAsset::NearAsset(ExtNEARData { yoctonear: tokens_per_use.unwrap() })),
            InternalAsset::Empty => None,
        }
    }
}

} // verus!
