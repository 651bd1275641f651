//! The asset union: one committed asset of a drop, of one of five kinds, and
//! the claim and failure contracts that every kind answers.
use vstd::prelude::*;

use crate::delivery::{ActionView, Delivery, StepView};
use crate::fc_asset::{fc_claim_gas, fc_delivery, methods_deposit, AssetSpecificFCArgs, InternalFCData};
use crate::ft_asset::{ft_claim_gas, ft_delivery, InternalFTData};
use crate::gas::{GAS_FOR_NEAR_TRANSFER, GAS_FOR_NONE_ASSET};
use crate::nft_asset::{nft_claim_gas, nft_delivery, InternalNFTData};
use crate::text::{parse_amount, parsed_u128};
use crate::{AccountId, Balance, Gas};

verus! {

#[derive(Debug, Clone)]
pub enum InternalAsset {
    /// Fungible tokens, held in a balance.
    Ft(InternalFTData),
    /// Non-fungible tokens, held as an inventory.
    Nft(InternalNFTData),
    /// Method calls made on each claim.
    Fc(InternalFCData),
    /// The native currency; the amount of each use is set by the use itself.
    Near,
    /// Nothing at all.
    Empty,
}

/// The balance of a fungible asset after a claim of `q`: reserved where it
/// suffices, else untouched.
pub open spec fn ft_balance_after_claim(balance: u128, q: u128) -> u128 {
    if balance >= q {
        (balance - q) as u128
    } else {
        balance
    }
}

/// The amount that a correlation string carries.
pub open spec fn quantity_of(t: Option<String>) -> u128 {
    parsed_u128(t->Some_0@)->Some_0
}

/// Gas of one claim of `a`.
pub open spec fn asset_gas(a: InternalAsset) -> int {
    match a {
        InternalAsset::Ft(_) => ft_claim_gas(),
        InternalAsset::Nft(_) => nft_claim_gas(),
        InternalAsset::Fc(f) => fc_claim_gas(f.methods@),
        InternalAsset::Near => GAS_FOR_NEAR_TRANSFER as int,
        InternalAsset::Empty => GAS_FOR_NONE_ASSET as int,
    }
}

/// A claim of `a` can be asked for with `q` owed: the kinds that have a
/// quantity are given one.
pub open spec fn claim_ok(a: InternalAsset, q: Option<u128>) -> bool {
    (a is Ft || a is Near) ==> q is Some
}

/// The claim of use `q` of `o` to `receiver` leaves `n` and asks for `d`.
pub open spec fn claim_post(
    o: InternalAsset,
    n: InternalAsset,
    receiver: Seq<char>,
    q: Option<u128>,
    fc_args: AssetSpecificFCArgs,
    d: Seq<StepView>,
) -> bool {
    match o {
        InternalAsset::Ft(of) => n matches InternalAsset::Ft(nf) && nf.contract_id == of.contract_id
            && nf.registration_cost == of.registration_cost && nf.balance_avail == ft_balance_after_claim(
            of.balance_avail,
            q->Some_0,
        ) && d == if of.balance_avail >= q->Some_0 {
            ft_delivery(of.contract_id@, of.registration_cost, receiver, q->Some_0)
        } else {
            Seq::<StepView>::empty()
        },
        InternalAsset::Nft(on) => n matches InternalAsset::Nft(nn) && nn.contract_id == on.contract_id && if on.token_ids@.len()
            == 0 {
            nn.token_ids@ == on.token_ids@ && d == Seq::<StepView>::empty()
        } else {
            nn.token_ids@ == on.token_ids@.drop_last() && d == nft_delivery(
                on.contract_id@,
                receiver,
                on.token_ids@.last()@,
            )
        },
        InternalAsset::Fc(f) => n == o && d == fc_delivery(f.methods@, fc_args),
        InternalAsset::Near => n is Near && d == seq![
            StepView { receiver_id: receiver, actions: seq![ActionView::Transfer(q->Some_0)] },
        ],
        InternalAsset::Empty => n is Empty && d == Seq::<StepView>::empty(),
    }
}

/// A failed claim of `o` can be undone with the correlation text `t`: it
/// carries a numeral or a token where the kind needs one, and the balance
/// that it restores fits.
pub open spec fn refund_ok(o: InternalAsset, t: Option<String>) -> bool {
    match o {
        InternalAsset::Ft(f) => t is Some && parsed_u128(t->Some_0@) is Some && f.balance_avail + quantity_of(t)
            <= u128::MAX,
        InternalAsset::Nft(_) => t is Some,
        InternalAsset::Near => t is Some && parsed_u128(t->Some_0@) is Some,
        _ => true,
    }
}

/// Undoing a failed claim of `o` with `t` leaves `n`: the fungible balance
/// gets the amount back, the token goes back to the end of the inventory,
/// and the other kinds are untouched.
pub open spec fn refund_post(o: InternalAsset, n: InternalAsset, t: Option<String>) -> bool {
    match o {
        InternalAsset::Ft(of) => n matches InternalAsset::Ft(nf) && nf.contract_id == of.contract_id
            && nf.registration_cost == of.registration_cost && nf.balance_avail == of.balance_avail + quantity_of(t),
        InternalAsset::Nft(on) => n matches InternalAsset::Nft(nn) && nn.contract_id == on.contract_id
            && nn.token_ids@ == on.token_ids@.push(t->Some_0),
        _ => n == o,
    }
}

/// What the funder is owed when a claim of `o` fails: the registration cost
/// of a fungible asset, the whole amount of the native currency, and nothing
/// for the other kinds.
pub open spec fn refund_of(o: InternalAsset, t: Option<String>) -> int {
    match o {
        InternalAsset::Ft(f) => f.registration_cost as int,
        InternalAsset::Near => quantity_of(t) as int,
        _ => 0,
    }
}

impl InternalAsset {
    /// The function-call kind keeps its sums within their types.
    pub open spec fn wf(&self) -> bool {
        match self {
            InternalAsset::Fc(f) => f.wf(),
            _ => true,
        }
    }

    /// Asks for the delivery of one use of this asset to `receiver_id`.
    /// Fungible tokens are reserved from the balance and the last token leaves
    /// the inventory before the delivery runs; an asset with too little left
    /// delivers nothing and stays as it is.
    pub fn claim_asset(
        &mut self,
        receiver_id: &AccountId,
        tokens_per_use: &Option<Balance>,
        fc_args: &AssetSpecificFCArgs,
    ) -> (r: Delivery)
        requires
            claim_ok(*old(self), *tokens_per_use),
        ensures
            claim_post(*old(self), *final(self), receiver_id@, *tokens_per_use, *fc_args, r@),
    {
        match self {
            InternalAsset::Ft(ft_data) => {
                let q = tokens_per_use.unwrap();
                ft_data.claim_ft_asset(receiver_id, &q)
            },
            InternalAsset::Nft(nft_data) => nft_data.claim_nft_asset(receiver_id),
            InternalAsset::Fc(fc_data) => fc_data.claim_fc_asset(fc_args),
            InternalAsset::Near => Delivery::transfer(receiver_id.clone(), tokens_per_use.unwrap()),
            InternalAsset::Empty => Delivery::nothing(),
        }
    }

    /// Undoes one failed claim of this asset and returns what is owed to the
    /// funder. `tokens_per_use` carries what the claim took: the amount, as a
    /// numeral, for fungible tokens and the native currency, and the token for
    /// a non-fungible asset.
    /// A fungible asset gets the amount back into its balance and owes the
    /// funder the registration cost; a non-fungible one gets its token back
    /// and owes nothing; the native currency owes the whole amount; method
    /// calls cannot be undone and owe nothing, and neither does the empty asset.
    pub fn on_failed_claim(&mut self, tokens_per_use: &Option<String>) -> (r: Balance)
        requires
            refund_ok(*old(self), *tokens_per_use),
        ensures
            refund_post(*old(self), *final(self), *tokens_per_use),
            r == refund_of(*old(self), *tokens_per_use),
    {
        match self {
            InternalAsset::Ft(ft_data) => {
                let s = tokens_per_use.as_ref().unwrap();
                let ft_to_refund = parse_amount(s).unwrap();
                ft_data.add_to_balance_avail(&ft_to_refund);
                ft_data.registration_cost
            },
            InternalAsset::Nft(nft_data) => {
                let token_id = tokens_per_use.as_ref().unwrap();
                nft_data.add_to_token_ids(token_id);
                0
            },
            InternalAsset::Near => {
                let s = tokens_per_use.as_ref().unwrap();
                parse_amount(s).unwrap()
            },
            InternalAsset::Fc(_) => 0,
            InternalAsset::Empty => 0,
        }
    }

    /// Whether this asset has nothing left for a claim of its own: a fungible
    /// asset with no unit left and a non-fungible one with no token left. The
    /// other kinds hold no stock here and always answer `true`.
    pub fn is_empty(&self) -> (r: bool)
        ensures
            r == match self {
                InternalAsset::Ft(f) => f.balance_avail < 1,
                InternalAsset::Nft(n) => n.token_ids@.len() == 0,
                _ => true,
            },
    {
        match self {
            InternalAsset::Ft(ft) => !ft.enough_balance(&1),
            InternalAsset::Nft(nft) => nft.is_empty(),
            InternalAsset::Fc(_) => true,
            InternalAsset::Near => true,
            InternalAsset::Empty => true,
        }
    }

    /// What the funder is owed for one use of this asset that is never
    /// claimed: the registration cost of a fungible asset, the amount of the
    /// native currency, the value that the method calls would attach, and
    /// nothing for the other kinds.
    pub fn get_yocto_refund_amount(&self, tokens_per_use: &Option<Balance>) -> (r: Balance)
        requires
            self.wf(),
            self is Near ==> (*tokens_per_use) is Some,
        ensures
            r == match self {
                InternalAsset::Ft(f) => f.registration_cost as int,
                InternalAsset::Near => (*tokens_per_use)->Some_0 as int,
                InternalAsset::Fc(f) => methods_deposit(f.methods@),
                _ => 0,
            },
    {
        match self {
            InternalAsset::Ft(ft_data) => ft_data.registration_cost,
            InternalAsset::Nft(_) => 0,
            InternalAsset::Near => tokens_per_use.unwrap(),
            InternalAsset::Fc(fc_data) => fc_data.get_yocto_refund_amount(),
            InternalAsset::Empty => 0,
        }
    }

    /// Gas of one claim of this asset.
    pub fn get_required_gas(&self) -> (r: Gas)
        requires
            self.wf(),
        ensures
            r == asset_gas(*self),
    {
        match self {
            InternalAsset::Ft(ft_data) => ft_data.get_required_gas_for_claim(),
            InternalAsset::Nft(nft_data) => nft_data.get_total_required_gas(),
            InternalAsset::Fc(fc_data) => fc_data.get_required_gas_for_claim(),
            InternalAsset::Near => GAS_FOR_NEAR_TRANSFER,
            InternalAsset::Empty => GAS_FOR_NONE_ASSET,
        }
    }
}

} // verus!
