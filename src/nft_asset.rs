//! A non-fungible asset: a contract and the tokens of it that can be claimed.
use vstd::prelude::*;

use crate::delivery::{call_step, Action, CallView, Delivery, FunctionCall, StepView};
use crate::gas::{GAS_FOR_NFT_CLAIM_LOGIC, MIN_GAS_FOR_NFT_CALLBACK_LOGIC, MIN_GAS_FOR_NFT_TRANSFER};
use crate::text::{nft_transfer_args, nft_transfer_args_of};
use crate::{AccountId, AssetId, Gas, TokenId};

verus! {

/// Gas of one non-fungible claim without its resolution.
pub open spec fn nft_asset_gas() -> int {
    GAS_FOR_NFT_CLAIM_LOGIC + MIN_GAS_FOR_NFT_TRANSFER
}

/// Gas of one non-fungible claim, its resolution included.
pub open spec fn nft_claim_gas() -> int {
    nft_asset_gas() + MIN_GAS_FOR_NFT_CALLBACK_LOGIC
}

/// The transfer of `token` from `contract` to `receiver`.
pub open spec fn nft_delivery(contract: Seq<char>, receiver: Seq<char>, token: Seq<char>) -> Seq<StepView> {
    seq![
        call_step(
            contract,
            CallView {
                method_name: "nft_transfer"@,
                args: nft_transfer_args_of(receiver, token),
                deposit: 1,
                static_gas: MIN_GAS_FOR_NFT_TRANSFER,
                gas_weight: 1,
            },
        ),
    ]
}

#[derive(Debug, Clone)]
pub struct InternalNFTData {
    /// Account of the token contract.
    pub contract_id: AccountId,
    /// Tokens that have been deposited and can be claimed, the next one last.
    pub token_ids: Vec<TokenId>,
}

impl InternalNFTData {
    /// A copy of this asset, with the same contract and tokens.
    pub fn copy(&self) -> (r: Self)
        ensures
            r.same_as(*self),
    {
        let mut token_ids: Vec<TokenId> = Vec::new();
        let mut i: usize = 0;
        while i < self.token_ids.len()
            invariant
                i <= self.token_ids@.len(),
                token_ids@ == self.token_ids@.take(i as int),
            decreases self.token_ids@.len() - i,
        {
            token_ids.push(self.token_ids[i].clone());
            i = i + 1;
            assert(token_ids@ =~= self.token_ids@.take(i as int));
        }
        assert(self.token_ids@.take(i as int) =~= self.token_ids@);
        InternalNFTData { contract_id: self.contract_id.clone(), token_ids }
    }

    /// Same contract, same tokens in the same order.
    pub open spec fn same_as(&self, o: Self) -> bool {
        self.contract_id == o.contract_id && self.token_ids@ == o.token_ids@
    }

    /// A new asset of the given contract, with no tokens yet.
    pub fn new(contract_id: AccountId) -> (r: Self)
        ensures
            r.contract_id@ == contract_id@,
            r.token_ids@.len() == 0,
    {
        Self { contract_id, token_ids: Vec::new() }
    }

    /// Whether no token is left to claim.
    pub fn is_empty(&self) -> (r: bool)
        ensures
            r == (self.token_ids@.len() == 0),
    {
        self.token_ids.len() == 0
    }

    /// The asset of a non-fungible token is identified by its contract.
    pub fn get_asset_id(&self) -> (r: AssetId)
        ensures
            r@ == self.contract_id@,
    {
        self.contract_id.clone()
    }

    /// The token that the next claim hands out, if any.
    pub fn get_next_token_id(&self) -> (r: Option<TokenId>)
        ensures
            self.token_ids@.len() == 0 ==> r is None,
            self.token_ids@.len() > 0 ==> r == Some(self.token_ids@.last()),
    {
        if self.token_ids.len() == 0 {
            None
        } else {
            Some(self.token_ids[self.token_ids.len() - 1].clone())
        }
    }

    /// Gas of the claim itself.
    pub fn get_required_asset_gas(&self) -> (r: Gas)
        ensures
            r == nft_asset_gas(),
    {
        GAS_FOR_NFT_CLAIM_LOGIC + MIN_GAS_FOR_NFT_TRANSFER
    }

    /// Gas of the claim and of its resolution.
    pub fn get_total_required_gas(&self) -> (r: Gas)
        ensures
            r == nft_claim_gas(),
    {
        GAS_FOR_NFT_CLAIM_LOGIC + MIN_GAS_FOR_NFT_TRANSFER + MIN_GAS_FOR_NFT_CALLBACK_LOGIC
    }

    /// Hands the last token to `receiver_id`: it leaves the inventory and its
    /// transfer is asked for. With no token left, nothing is delivered.
    pub fn claim_nft_asset(&mut self, receiver_id: &AccountId) -> (r: Delivery)
        ensures
            final(self).contract_id == old(self).contract_id,
            old(self).token_ids@.len() == 0 ==> final(self).token_ids@ == old(self).token_ids@ && r@ == Seq::<
                StepView,
            >::empty(),
            old(self).token_ids@.len() > 0 ==> final(self).token_ids@ == old(self).token_ids@.drop_last() && r@
                == nft_delivery(old(self).contract_id@, receiver_id@, old(self).token_ids@.last()@),
    {
        match self.token_ids.pop() {
            None => Delivery::nothing(),
            Some(token_id) => {
                let call = FunctionCall {
                    method_name: String::from_str("nft_transfer"),
                    args: nft_transfer_args(receiver_id, &token_id),
                    deposit: 1,
                    static_gas: MIN_GAS_FOR_NFT_TRANSFER,
                    gas_weight: 1,
                };
                let actions = vec![Action::FunctionCall(call)];
                assert(actions@.map_values(|a: Action| a@) =~= nft_delivery(
                    self.contract_id@,
                    receiver_id@,
                    token_id@,
                )[0].actions);
                Delivery::one_step(self.contract_id.clone(), actions)
            },
        }
    }

    /// Puts a token back at the end of the inventory.
    pub fn add_to_token_ids(&mut self, token_id: &TokenId)
        ensures
            final(self).contract_id == old(self).contract_id,
            final(self).token_ids@ == old(self).token_ids@.push(*token_id),
    {
        self.token_ids.push(token_id.clone());
    }
}

} // verus!
