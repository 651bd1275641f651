//! A fungible asset: a token contract, the cost of registering a receiver on
//! it, and the balance that is left to claim.
use vstd::prelude::*;

use crate::delivery::{Action, ActionView, CallView, Delivery, FunctionCall, StepView};
use crate::gas::{
    GAS_FOR_CLAIM_LOGIC, MIN_GAS_FOR_FT_TRANSFER, MIN_GAS_FOR_RESOLVE_BATCH, MIN_GAS_FOR_STORAGE_DEPOSIT,
};
use crate::text::{ft_transfer_args, ft_transfer_args_of, storage_deposit_args, storage_deposit_args_of};
use crate::{AccountId, AssetId, Balance, Gas};

verus! {

/// Gas of one fungible claim: its logic, the registration, the transfer and
/// the resolution of the batch.
pub open spec fn ft_claim_gas() -> int {
    GAS_FOR_CLAIM_LOGIC + MIN_GAS_FOR_STORAGE_DEPOSIT + MIN_GAS_FOR_FT_TRANSFER + MIN_GAS_FOR_RESOLVE_BATCH
}

/// The batch that registers `receiver` on `contract` and then sends it `amount`.
pub open spec fn ft_delivery(contract: Seq<char>, registration_cost: Balance, receiver: Seq<char>, amount: u128) -> Seq<StepView> {
    seq![StepView {
        receiver_id: contract,
        actions: seq![
            ActionView::FunctionCall(CallView {
                method_name: "storage_deposit"@,
                args: storage_deposit_args_of(receiver),
                deposit: registration_cost,
                static_gas: MIN_GAS_FOR_STORAGE_DEPOSIT,
                gas_weight: 1,
            }),
            ActionView::FunctionCall(CallView {
                method_name: "ft_transfer"@,
                args: ft_transfer_args_of(receiver, amount),
                deposit: 1,
                static_gas: MIN_GAS_FOR_FT_TRANSFER,
                gas_weight: 1,
            }),
        ],
    }]
}

#[derive(Debug, Clone)]
pub struct InternalFTData {
    /// Account of the token contract.
    pub contract_id: AccountId,
    /// Value attached to register a receiver on the contract.
    pub registration_cost: Balance,
    /// Tokens that are left to claim.
    pub balance_avail: Balance,
}

impl InternalFTData {
    /// An equal copy of this asset.
    pub fn copy(&self) -> (r: Self)
        ensures
            r == *self,
    {
        InternalFTData {
            contract_id: self.contract_id.clone(),
            registration_cost: self.registration_cost,
            balance_avail: self.balance_avail,
        }
    }

    /// A new asset of the given contract, with nothing to claim yet.
    pub fn new(contract_id: AccountId, registration_cost: Balance) -> (r: Self)
        ensures
            r.contract_id@ == contract_id@,
            r.registration_cost == registration_cost,
            r.balance_avail == 0,
    {
        Self { contract_id, registration_cost, balance_avail: 0 }
    }

    /// The asset of a fungible token is identified by its contract.
    pub fn get_asset_id(&self) -> (r: AssetId)
        ensures
            r@ == self.contract_id@,
    {
        self.contract_id.clone()
    }

    /// Whether at least `amount` is left.
    pub fn enough_balance(&self, amount: &Balance) -> (r: bool)
        ensures
            r == (self.balance_avail >= *amount),
    {
        self.balance_avail >= *amount
    }

    /// Puts `amount` back into the balance left to claim.
    pub fn add_to_balance_avail(&mut self, amount: &Balance)
        requires
            old(self).balance_avail + *amount <= u128::MAX,
        ensures
            final(self).balance_avail == old(self).balance_avail + *amount,
            final(self).contract_id == old(self).contract_id,
            final(self).registration_cost == old(self).registration_cost,
    {
        self.balance_avail = self.balance_avail + *amount;
    }

    /// Gas of one claim of this asset.
    pub fn get_required_gas_for_claim(&self) -> (r: Gas)
        ensures
            r == ft_claim_gas(),
    {
        GAS_FOR_CLAIM_LOGIC + MIN_GAS_FOR_STORAGE_DEPOSIT + MIN_GAS_FOR_FT_TRANSFER + MIN_GAS_FOR_RESOLVE_BATCH
    }

    /// Reserves `transfer_amount` and asks for the receiver's registration on
    /// the contract and then the transfer. Where less is left, nothing is
    /// reserved and nothing is delivered.
    pub fn claim_ft_asset(&mut self, receiver_id: &AccountId, transfer_amount: &Balance) -> (r: Delivery)
        ensures
            final(self).contract_id == old(self).contract_id,
            final(self).registration_cost == old(self).registration_cost,
            old(self).balance_avail >= *transfer_amount ==> final(self).balance_avail == old(self).balance_avail
                - *transfer_amount && r@ == ft_delivery(
                old(self).contract_id@,
                old(self).registration_cost,
                receiver_id@,
                *transfer_amount,
            ),
            old(self).balance_avail < *transfer_amount ==> final(self).balance_avail == old(self).balance_avail
                && r@ == Seq::<StepView>::empty(),
    {
        if !self.enough_balance(transfer_amount) {
            return Delivery::nothing();
        }
        self.balance_avail = self.balance_avail - *transfer_amount;

        let register = FunctionCall {
            method_name: String::from_str("storage_deposit"),
            args: storage_deposit_args(receiver_id),
            deposit: self.registration_cost,
            static_gas: MIN_GAS_FOR_STORAGE_DEPOSIT,
            gas_weight: 1,
        };
        let send = FunctionCall {
            method_name: String::from_str("ft_transfer"),
            args: ft_transfer_args(receiver_id, *transfer_amount),
            deposit: 1,
            static_gas: MIN_GAS_FOR_FT_TRANSFER,
            gas_weight: 1,
        };
        let actions = vec![Action::FunctionCall(register), Action::FunctionCall(send)];
        assert(actions@.map_values(|a: Action| a@) =~= ft_delivery(
            self.contract_id@,
            self.registration_cost,
            receiver_id@,
            *transfer_amount,
        )[0].actions);
        Delivery::one_step(self.contract_id.clone(), actions)
    }

    /// Settles a claim once its batch is known to have succeeded or not. On
    /// failure the reserved amount goes back to the balance left to claim.
    /// Returns whether the transfer succeeded.
    pub fn resolve_ft_claim(&mut self, transfer_amount: Balance, transfer_succeeded: bool) -> (r: bool)
        requires
            !transfer_succeeded ==> old(self).balance_avail + transfer_amount <= u128::MAX,
        ensures
            r == transfer_succeeded,
            final(self).contract_id == old(self).contract_id,
            final(self).registration_cost == old(self).registration_cost,
            final(self).balance_avail == if transfer_succeeded {
                old(self).balance_avail as int
            } else {
                old(self).balance_avail + transfer_amount
            },
    {
        if transfer_succeeded {
            return true;
        }
        self.add_to_balance_avail(&transfer_amount);
        false
    }
}

} // verus!
