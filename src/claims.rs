//! The claim protocol of the contract: a key holder's entry points, which
//! check the gas attached and consume one use of the key before anything is
//! asked for, the continuation that runs once a new account exists, and the
//! resolution that undoes failed deliveries and credits the funder.
use vstd::prelude::*;

use crate::delivery::{call_step, Action, CallView, Delivery, FunctionCall, StepView};
use crate::drop::{AssetClaim, InternalDrop, InternalKeyInfo, UserProvidedFCArgs};
use crate::gas::{
    BASE_GAS_FOR_CLAIM, BASE_GAS_FOR_CREATE_ACC_AND_CLAIM, BASE_GAS_FOR_RESOLVE_ACCOUNT_CREATION,
    GAS_FOR_CREATE_ACCOUNT,
};
use crate::table::{find_key, has_key, index_of, keys_unique, lemma_index_of};
use crate::text::{create_account_args, create_account_args_of};
use crate::{AccountId, Balance, DropId, Gas, PublicKey};

verus! {

/// Value attached to the creation of a new account.
pub const NEW_ACCOUNT_DEPOSIT: Balance = 10_000_000_000_000_000_000_000;

/// Why a claim was refused. Nothing has changed when one is returned.
#[derive(Debug, Clone, PartialEq, Eq, Structural)]
pub enum ClaimError {
    /// The key is unknown, or so is its drop.
    KeyNotFound,
    /// Every use of the key has been consumed.
    NoUsesLeft,
    /// Less gas was attached than the claim needs.
    NotEnoughGas { required: Gas, prepaid: Gas },
    /// The gas attached to a claim that creates an account is not exactly what it needs.
    GasMismatch { required: Gas, prepaid: Gas },
}

/// The contract's state as far as claims go.
#[derive(Debug)]
pub struct Keypom {
    /// Account that creates new accounts.
    pub root_account: AccountId,
    pub drop_by_id: Vec<(DropId, InternalDrop)>,
    /// The drop of each key.
    pub drop_id_for_pk: Vec<(PublicKey, DropId)>,
    /// What each funder can withdraw.
    pub user_balances: Vec<(AccountId, Balance)>,
}

/// The claims of one use, in flight. It can be resolved once: resolving
/// consumes it, and only a claim makes one.
#[derive(Debug)]
pub struct PendingClaim {
    drop_id: DropId,
    claims: Vec<AssetClaim>,
}

/// A claim that waits for its receiving account to be created.
#[derive(Debug)]
pub struct PendingAccountClaim {
    drop_id: DropId,
    use_number: u32,
    new_account_id: AccountId,
    fc_args: UserProvidedFCArgs,
}

/// The account creation that a claim asks for first, the gas of the
/// continuation that claims once it is done, and what that continuation needs.
#[derive(Debug)]
pub struct AccountCreation {
    pub creation: Delivery,
    pub callback_gas: Gas,
    pub pending: PendingAccountClaim,
}

impl PendingClaim {
    pub closed spec fn drop_id_view(&self) -> Seq<char> {
        self.drop_id@
    }

    pub closed spec fn claims_view(&self) -> Seq<AssetClaim> {
        self.claims@
    }

    /// The drop whose assets were claimed.
    pub fn drop_id(&self) -> (r: &DropId)
        ensures
            r@ == self.drop_id_view(),
    {
        &self.drop_id
    }

    /// One claim per asset of the use, in order.
    pub fn claims(&self) -> (r: &Vec<AssetClaim>)
        ensures
            r@ == self.claims_view(),
    {
        &self.claims
    }
}

impl PendingAccountClaim {
    pub closed spec fn drop_id_view(&self) -> Seq<char> {
        self.drop_id@
    }

    pub closed spec fn use_number_view(&self) -> u32 {
        self.use_number
    }

    pub closed spec fn account_view(&self) -> Seq<char> {
        self.new_account_id@
    }

    pub closed spec fn fc_args_view(&self) -> UserProvidedFCArgs {
        self.fc_args
    }
}

impl Keypom {
    pub open spec fn wf(&self) -> bool {
        &&& keys_unique(self.drop_by_id@)
        &&& keys_unique(self.drop_id_for_pk@)
        &&& keys_unique(self.user_balances@)
        &&& forall|i: int| 0 <= i < self.drop_by_id@.len() ==> (#[trigger] self.drop_by_id@[i]).1.wf()
    }

    pub open spec fn drop_id_of(&self, pk: Seq<char>) -> Seq<char> {
        self.drop_id_for_pk@[index_of(self.drop_id_for_pk@, pk)].1@
    }

    pub open spec fn drop_index_of(&self, pk: Seq<char>) -> int {
        index_of(self.drop_by_id@, self.drop_id_of(pk))
    }

    /// The drop of the key `pk`.
    pub open spec fn drop_of(&self, pk: Seq<char>) -> InternalDrop {
        self.drop_by_id@[self.drop_index_of(pk)].1
    }

    pub open spec fn key_index_of(&self, pk: Seq<char>) -> int {
        index_of(self.drop_of(pk).key_info_by_pk@, pk)
    }

    /// The key `pk` belongs to a drop, and the drop knows it.
    pub open spec fn key_found(&self, pk: Seq<char>) -> bool {
        &&& has_key(self.drop_id_for_pk@, pk)
        &&& has_key(self.drop_by_id@, self.drop_id_of(pk))
        &&& has_key(self.drop_of(pk).key_info_by_pk@, pk)
    }

    pub open spec fn remaining_uses_of(&self, pk: Seq<char>) -> int {
        self.drop_of(pk).key_info_by_pk@[self.key_index_of(pk)].1.remaining_uses as int
    }

    /// The number, from 1, of the use that the next claim with `pk` consumes.
    pub open spec fn cur_use_of(&self, pk: Seq<char>) -> int {
        self.drop_of(pk).num_uses() - self.remaining_uses_of(pk) + 1
    }

    /// Gas of the assets that the next use of `pk` owes.
    pub open spec fn asset_gas_of(&self, pk: Seq<char>) -> int {
        self.drop_of(pk).metadata_gas(self.drop_of(pk).metadata_for_use(self.cur_use_of(pk)))
    }

    /// What `account` can withdraw.
    pub open spec fn balance_of(&self, account: Seq<char>) -> int {
        if has_key(self.user_balances@, account) {
            self.user_balances@[index_of(self.user_balances@, account)].1 as int
        } else {
            0
        }
    }

    /// The drop with identifier `id`.
    pub open spec fn drop_with(&self, id: Seq<char>) -> InternalDrop {
        self.drop_by_id@[index_of(self.drop_by_id@, id)].1
    }

    /// `n` is `self` where one use of `pk` was consumed and nothing else changed
    /// but the assets of its drop.
    pub open spec fn use_consumed(&self, n: Self, pk: Seq<char>) -> bool {
        let di = self.drop_index_of(pk);
        let ki = self.key_index_of(pk);
        let od = self.drop_of(pk);
        let nd = n.drop_by_id@[di].1;
        &&& n.root_account == self.root_account
        &&& n.drop_id_for_pk == self.drop_id_for_pk
        &&& n.user_balances == self.user_balances
        &&& n.drop_by_id@.len() == self.drop_by_id@.len()
        &&& forall|j: int| 0 <= j < self.drop_by_id@.len() && j != di ==> #[trigger] n.drop_by_id@[j] == self.drop_by_id@[j]
        &&& n.drop_by_id@[di].0 == self.drop_by_id@[di].0
        &&& nd.funder_id == od.funder_id
        &&& nd.key_use_behaviors == od.key_use_behaviors
        &&& nd.metadata == od.metadata
        &&& nd.key_info_by_pk@ == od.key_info_by_pk@.update(
            ki,
            (od.key_info_by_pk@[ki].0, InternalKeyInfo { remaining_uses: (self.remaining_uses_of(pk) - 1) as u32 }),
        )
    }

    /// Finds the key's drop and the use that it consumes next, and the gas
    /// of that use's assets.
    pub(crate) fn before_claim_logic(&self, pk: &PublicKey) -> (r: Result<(usize, usize, u32, Gas), ClaimError>)
        requires
            self.wf(),
        ensures
            !self.key_found(pk@) <==> r == Err::<(usize, usize, u32, Gas), ClaimError>(ClaimError::KeyNotFound),
            self.key_found(pk@) && self.remaining_uses_of(pk@) == 0 <==> r == Err::<
                (usize, usize, u32, Gas),
                ClaimError,
            >(ClaimError::NoUsesLeft),
            r is Err ==> r == Err::<(usize, usize, u32, Gas), ClaimError>(ClaimError::KeyNotFound) || r == Err::<
                (usize, usize, u32, Gas),
                ClaimError,
            >(ClaimError::NoUsesLeft),
            r matches Ok((di, ki, u, g)) ==> {
                &&& self.key_found(pk@)
                &&& self.remaining_uses_of(pk@) >= 1
                &&& di == self.drop_index_of(pk@)
                &&& ki == self.key_index_of(pk@)
                &&& u == self.cur_use_of(pk@)
                &&& 1 <= u <= self.drop_of(pk@).num_uses()
                &&& g == self.asset_gas_of(pk@)
                &&& BASE_GAS_FOR_CREATE_ACC_AND_CLAIM + g <= u64::MAX
            },
    {
        let pi = match find_key(&self.drop_id_for_pk, pk) {
            Some(pi) => pi,
            None => return Err(ClaimError::KeyNotFound),
        };
        proof {
            lemma_index_of(self.drop_id_for_pk@, pk@, pi as int);
        }
        let di = match find_key(&self.drop_by_id, &self.drop_id_for_pk[pi].1) {
            Some(di) => di,
            None => return Err(ClaimError::KeyNotFound),
        };
        proof {
            lemma_index_of(self.drop_by_id@, self.drop_id_of(pk@), di as int);
        }
        let drop = &self.drop_by_id[di].1;
        let ki = match find_key(&drop.key_info_by_pk, pk) {
            Some(ki) => ki,
            None => return Err(ClaimError::KeyNotFound),
        };
        proof {
            lemma_index_of(drop.key_info_by_pk@, pk@, ki as int);
            assert(drop.wf());
        }
        let remaining = drop.key_info_by_pk[ki].1.remaining_uses;
        if remaining == 0 {
            return Err(ClaimError::NoUsesLeft);
        }
        let u = drop.get_num_uses() - remaining + 1;
        let g = drop.required_gas_for_use(u);
        Ok((di, ki, u, g))
    }

    /// Claims the assets that the next use of the key `signer_pk` owes, for
    /// `account_id`. The gas attached must be at least the claim's base
    /// overhead and the gas of those assets; where it is not, or the key
    /// cannot be used, nothing changes and the error says why. Else one use
    /// is consumed, each asset is claimed, and the claims are handed back for
    /// their resolution.
    pub fn claim(
        &mut self,
        signer_pk: &PublicKey,
        prepaid_gas: Gas,
        account_id: AccountId,
        fc_args: UserProvidedFCArgs,
    ) -> (r: Result<PendingClaim, ClaimError>)
        requires
            old(self).wf(),
        ensures
            final(self).wf(),
            r is Err ==> *final(self) == *old(self),
            !old(self).key_found(signer_pk@) <==> r matches Err(ClaimError::KeyNotFound),
            old(self).key_found(signer_pk@) && old(self).remaining_uses_of(signer_pk@) == 0 <==> r matches Err(
                ClaimError::NoUsesLeft,
            ),
            old(self).key_found(signer_pk@) && old(self).remaining_uses_of(signer_pk@) > 0 ==> {
                let required = BASE_GAS_FOR_CLAIM + old(self).asset_gas_of(signer_pk@);
                &&& prepaid_gas < required ==> r == Err::<PendingClaim, ClaimError>(
                    ClaimError::NotEnoughGas { required: required as u64, prepaid: prepaid_gas },
                )
                &&& prepaid_gas >= required ==> (r matches Ok(p) && p.drop_id_view() == old(self).drop_id_of(
                    signer_pk@,
                ) && old(self).use_consumed(*final(self), signer_pk@) && old(self).drop_of(signer_pk@).use_claimed(
                    final(self).drop_by_id@[old(self).drop_index_of(signer_pk@)].1,
                    old(self).cur_use_of(signer_pk@),
                    account_id@,
                    fc_args,
                    p.claims_view(),
                ))
            },
    {
        let (di, ki, u, g) = match self.before_claim_logic(signer_pk) {
            Ok(found) => found,
            Err(e) => return Err(e),
        };
        let required = BASE_GAS_FOR_CLAIM + g;
        if prepaid_gas < required {
            return Err(ClaimError::NotEnoughGas { required, prepaid: prepaid_gas });
        }
        let ghost o = *self;
        let drop_id = self.drop_by_id[di].0.clone();
        assert(self.drop_by_id@[di as int].1.wf());
        let claims = self.drop_by_id[di].1.claim_for_use(u, &account_id, &fc_args);
        self.drop_by_id[di].1.use_key(ki);
        proof {
            assert forall|j: int| 0 <= j < self.drop_by_id@.len() implies (#[trigger] self.drop_by_id@[j]).1.wf() by {
                if j != di {
                    assert(o.drop_by_id@[j].1.wf());
                }
            }
            assert(keys_unique(self.drop_by_id@)) by {
                assert forall|a: int, b: int|
                    0 <= a < self.drop_by_id@.len() && 0 <= b < self.drop_by_id@.len() && a != b implies self.drop_by_id@[a].0@
                    != self.drop_by_id@[b].0@ by {
                    assert(o.drop_by_id@[a].0@ != o.drop_by_id@[b].0@);
                }
            }
        }
        Ok(PendingClaim { drop_id, claims })
    }

    /// The creation of `account` with `key` by the root account.
    pub open spec fn creation_of(&self, account: Seq<char>, key: Seq<char>) -> Seq<StepView> {
        seq![
            call_step(
                self.root_account@,
                CallView {
                    method_name: "create_account"@,
                    args: create_account_args_of(account, key),
                    deposit: NEW_ACCOUNT_DEPOSIT,
                    static_gas: GAS_FOR_CREATE_ACCOUNT,
                    gas_weight: 0,
                },
            ),
        ]
    }

    /// Consumes the next use of the key `signer_pk` for a claim that first
    /// creates `new_account_id` with `new_public_key`. The gas attached must
    /// be exactly the base overhead of such a claim and the gas of the use's
    /// assets, since what is left over pays for the continuation; where it is
    /// not, or the key cannot be used, nothing changes and the error says why.
    /// Else the creation is asked for, and the assets are claimed by
    /// `on_new_account_created` once it is done.
    pub fn create_account_and_claim(
        &mut self,
        signer_pk: &PublicKey,
        prepaid_gas: Gas,
        new_account_id: AccountId,
        new_public_key: PublicKey,
        fc_args: UserProvidedFCArgs,
    ) -> (r: Result<AccountCreation, ClaimError>)
        requires
            old(self).wf(),
        ensures
            final(self).wf(),
            r is Err ==> *final(self) == *old(self),
            !old(self).key_found(signer_pk@) <==> r matches Err(ClaimError::KeyNotFound),
            old(self).key_found(signer_pk@) && old(self).remaining_uses_of(signer_pk@) == 0 <==> r matches Err(
                ClaimError::NoUsesLeft,
            ),
            old(self).key_found(signer_pk@) && old(self).remaining_uses_of(signer_pk@) > 0 ==> {
                let required = BASE_GAS_FOR_CREATE_ACC_AND_CLAIM + old(self).asset_gas_of(signer_pk@);
                &&& prepaid_gas != required ==> r == Err::<AccountCreation, ClaimError>(
                    ClaimError::GasMismatch { required: required as u64, prepaid: prepaid_gas },
                )
                &&& prepaid_gas == required ==> (r matches Ok(a) && a.creation@ == old(self).creation_of(
                    new_account_id@,
                    new_public_key@,
                ) && a.callback_gas == BASE_GAS_FOR_RESOLVE_ACCOUNT_CREATION + old(self).asset_gas_of(signer_pk@)
                    && a.pending.drop_id_view() == old(self).drop_id_of(signer_pk@) && a.pending.use_number_view()
                    == old(self).cur_use_of(signer_pk@) && a.pending.account_view() == new_account_id@
                    && a.pending.fc_args_view() == fc_args && old(self).use_consumed(*final(self), signer_pk@)
                    && final(self).drop_by_id@[old(self).drop_index_of(signer_pk@)].1.asset_by_id == old(
                    self,
                ).drop_of(signer_pk@).asset_by_id)
            },
    {
        let (di, ki, u, g) = match self.before_claim_logic(signer_pk) {
            Ok(found) => found,
            Err(e) => return Err(e),
        };
        let required = BASE_GAS_FOR_CREATE_ACC_AND_CLAIM + g;
        if prepaid_gas != required {
            return Err(ClaimError::GasMismatch { required, prepaid: prepaid_gas });
        }
        let ghost o = *self;
        let drop_id = self.drop_by_id[di].0.clone();
        assert(self.drop_by_id@[di as int].1.wf());
        self.drop_by_id[di].1.use_key(ki);
        proof {
            assert forall|j: int| 0 <= j < self.drop_by_id@.len() implies (#[trigger] self.drop_by_id@[j]).1.wf() by {
                if j != di {
                    assert(o.drop_by_id@[j].1.wf());
                }
            }
            assert(keys_unique(self.drop_by_id@)) by {
                assert forall|a: int, b: int|
                    0 <= a < self.drop_by_id@.len() && 0 <= b < self.drop_by_id@.len() && a != b implies self.drop_by_id@[a].0@
                    != self.drop_by_id@[b].0@ by {
                    assert(o.drop_by_id@[a].0@ != o.drop_by_id@[b].0@);
                }
            }
        }
        let call = FunctionCall {
            method_name: String::from_str("create_account"),
            args: create_account_args(&new_account_id, &new_public_key),
            deposit: NEW_ACCOUNT_DEPOSIT,
            static_gas: GAS_FOR_CREATE_ACCOUNT,
            gas_weight: 0,
        };
        let actions = vec![Action::FunctionCall(call)];
        assert(actions@.map_values(|a: Action| a@) =~= o.creation_of(new_account_id@, new_public_key@)[0].actions);
        let creation = Delivery::one_step(self.root_account.clone(), actions);
        let callback_gas = BASE_GAS_FOR_RESOLVE_ACCOUNT_CREATION + g;
        let pending = PendingAccountClaim { drop_id, use_number: u, new_account_id, fc_args };
        Ok(AccountCreation { creation, callback_gas, pending })
    }

    /// Continues a claim once the creation of its receiving account is
    /// known: where it succeeded and the drop still owes that use, the
    /// use's assets are claimed for the new account; else nothing happens.
    pub fn on_new_account_created(&mut self, pending: PendingAccountClaim, account_created: bool) -> (r: Option<
        PendingClaim,
    >)
        requires
            old(self).wf(),
        ensures
            final(self).wf(),
            r is None ==> *final(self) == *old(self),
            r is Some <==> account_created && has_key(old(self).drop_by_id@, pending.drop_id_view()) && 1
                <= pending.use_number_view() <= old(self).drop_with(pending.drop_id_view()).num_uses(),
            r matches Some(p) ==> {
                let di = index_of(old(self).drop_by_id@, pending.drop_id_view());
                &&& p.drop_id_view() == pending.drop_id_view()
                &&& old(self).drop_by_id@[di].1.use_claimed(
                    final(self).drop_by_id@[di].1,
                    pending.use_number_view() as int,
                    pending.account_view(),
                    pending.fc_args_view(),
                    p.claims_view(),
                )
                &&& final(self).drop_by_id@[di].1.same_except_assets(old(self).drop_by_id@[di].1)
                &&& final(self).drop_by_id@.len() == old(self).drop_by_id@.len()
                &&& forall|j: int| 0 <= j < old(self).drop_by_id@.len() && j != di ==> #[trigger] final(self).drop_by_id@[j] == old(self).drop_by_id@[j]
                &&& final(self).drop_id_for_pk == old(self).drop_id_for_pk
                &&& final(self).user_balances == old(self).user_balances
            },
    {
        if !account_created {
            return None;
        }
        let PendingAccountClaim { drop_id, use_number, new_account_id, fc_args } = pending;
        let di = match find_key(&self.drop_by_id, &drop_id) {
            Some(di) => di,
            None => return None,
        };
        proof {
            lemma_index_of(self.drop_by_id@, drop_id@, di as int);
            assert(self.drop_by_id@[di as int].1.wf());
        }
        if use_number < 1 || use_number > self.drop_by_id[di].1.get_num_uses() {
            return None;
        }
        let ghost o = *self;
        let claims = self.drop_by_id[di].1.claim_for_use(use_number, &new_account_id, &fc_args);
        proof {
            assert forall|j: int| 0 <= j < self.drop_by_id@.len() implies (#[trigger] self.drop_by_id@[j]).1.wf() by {
                if j != di {
                    assert(o.drop_by_id@[j].1.wf());
                }
            }
            assert(keys_unique(self.drop_by_id@)) by {
                assert forall|a: int, b: int|
                    0 <= a < self.drop_by_id@.len() && 0 <= b < self.drop_by_id@.len() && a != b implies self.drop_by_id@[a].0@
                    != self.drop_by_id@[b].0@ by {
                    assert(o.drop_by_id@[a].0@ != o.drop_by_id@[b].0@);
                }
            }
        }
        Some(PendingClaim { drop_id, claims })
    }

    /// Adds `amount` to what `account` can withdraw.
    pub fn credit(&mut self, account: &AccountId, amount: Balance)
        requires
            keys_unique(old(self).user_balances@),
            old(self).balance_of(account@) + amount <= u128::MAX,
        ensures
            keys_unique(final(self).user_balances@),
            final(self).balance_of(account@) == old(self).balance_of(account@) + amount,
            forall|a: Seq<char>| a != account@ ==> #[trigger] final(self).balance_of(a) == old(self).balance_of(a),
            final(self).root_account == old(self).root_account,
            final(self).drop_by_id == old(self).drop_by_id,
            final(self).drop_id_for_pk == old(self).drop_id_for_pk,
    {
        let ghost o = self.user_balances@;
        match find_key(&self.user_balances, account) {
            Some(i) => {
                proof {
                    lemma_index_of(o, account@, i as int);
                }
                let b = self.user_balances[i].1;
                self.user_balances[i].1 = b + amount;
                proof {
                    let n = self.user_balances@;
                    assert(n == o.update(i as int, (o[i as int].0, (b + amount) as u128)));
                    assert(keys_unique(n));
                    lemma_index_of(n, account@, i as int);
                    assert forall|a: Seq<char>| a != account@ implies #[trigger] self.balance_of(a) == old(self).balance_of(a) by {
                        if has_key(o, a) {
                            let j = index_of(o, a);
                            lemma_index_of(n, a, j);
                        } else {
                            assert forall|j: int| 0 <= j < n.len() implies n[j].0@ != a by {
                                assert(o[j].0@ != a);
                            }
                        }
                    }
                }
            },
            None => {
                self.user_balances.push((account.clone(), amount));
                proof {
                    let n = self.user_balances@;
                    assert(keys_unique(n)) by {
                        assert forall|a: int, b: int| 0 <= a < n.len() && 0 <= b < n.len() && a != b implies n[a].0@ != n[b].0@ by {
                            if a < o.len() && b < o.len() {
                                assert(n[a] == o[a] && n[b] == o[b]);
                            } else if a < o.len() {
                                assert(n[a] == o[a]);
                            } else {
                                assert(n[b] == o[b]);
                            }
                        }
                    }
                    lemma_index_of(n, account@, o.len() as int);
                    assert forall|a: Seq<char>| a != account@ implies #[trigger] self.balance_of(a) == old(self).balance_of(a) by {
                        if has_key(o, a) {
                            let j = index_of(o, a);
                            assert(n[j] == o[j]);
                            lemma_index_of(n, a, j);
                        } else {
                            assert forall|j: int| 0 <= j < n.len() implies n[j].0@ != a by {
                                if j < o.len() {
                                    assert(n[j] == o[j]);
                                }
                            }
                        }
                    }
                }
            },
        }
    }

    /// Resolves the claims of one use once the runtime reports how each
    /// delivery went (`outcomes`, by position; a missing report counts as a
    /// failure). Each failed claim is undone on its asset, and what the
    /// funder is owed for them is credited to the funder and returned.
    /// Resolving consumes the pending claim, so it happens once.
    pub fn resolve_claim(&mut self, pending: PendingClaim, outcomes: &Vec<bool>) -> (r: Balance)
        requires
            old(self).wf(),
            has_key(old(self).drop_by_id@, pending.drop_id_view()),
            old(self).drop_with(pending.drop_id_view()).resolvable(pending.claims_view(), outcomes@),
            old(self).balance_of(old(self).drop_with(pending.drop_id_view()).funder_id@) + old(self).drop_with(
                pending.drop_id_view(),
            ).refunds_total(pending.claims_view(), outcomes@) <= u128::MAX,
        ensures
            final(self).wf(),
            ({
                let di = index_of(old(self).drop_by_id@, pending.drop_id_view());
                let od = old(self).drop_by_id@[di].1;
                let nd = final(self).drop_by_id@[di].1;
                let c = pending.claims_view();
                &&& r == od.refunds_total(c, outcomes@)
                &&& nd.same_except_assets(od)
                &&& forall|k: int| 0 <= k < c.len() ==> #[trigger] od.resolved_at(nd, c, outcomes@, k)
                &&& forall|i: int|
                    0 <= i < od.asset_by_id@.len() && (forall|k: int| 0 <= k < c.len() ==> (#[trigger] c[k]).asset_id@ != od.asset_by_id@[i].0@)
                        ==> #[trigger] nd.asset_by_id@[i] == od.asset_by_id@[i]
                &&& final(self).balance_of(od.funder_id@) == old(self).balance_of(od.funder_id@) + r
                &&& forall|a: Seq<char>| a != od.funder_id@ ==> #[trigger] final(self).balance_of(a) == old(self).balance_of(a)
                &&& final(self).drop_by_id@.len() == old(self).drop_by_id@.len()
                &&& forall|j: int| 0 <= j < old(self).drop_by_id@.len() && j != di ==> #[trigger] final(self).drop_by_id@[j] == old(self).drop_by_id@[j]
                &&& final(self).drop_id_for_pk == old(self).drop_id_for_pk
            }),
    {
        let PendingClaim { drop_id, claims } = pending;
        let di = match find_key(&self.drop_by_id, &drop_id) {
            Some(di) => di,
            None => {
                proof {
                    assert(false);
                }
                return 0;
            },
        };
        proof {
            lemma_index_of(self.drop_by_id@, drop_id@, di as int);
            assert(self.drop_by_id@[di as int].1.wf());
        }
        let ghost o = *self;
        let refund = self.drop_by_id[di].1.resolve_claims(&claims, outcomes);
        proof {
            assert forall|j: int| 0 <= j < self.drop_by_id@.len() implies (#[trigger] self.drop_by_id@[j]).1.wf() by {
                if j != di {
                    assert(o.drop_by_id@[j].1.wf());
                }
            }
            assert(keys_unique(self.drop_by_id@)) by {
                assert forall|a: int, b: int|
                    0 <= a < self.drop_by_id@.len() && 0 <= b < self.drop_by_id@.len() && a != b implies self.drop_by_id@[a].0@
                    != self.drop_by_id@[b].0@ by {
                    assert(o.drop_by_id@[a].0@ != o.drop_by_id@[b].0@);
                }
            }
        }
        let funder = self.drop_by_id[di].1.funder_id.clone();
        self.credit(&funder, refund);
        refund
    }

    /// What `account` can withdraw.
    pub fn get_balance(&self, account: &AccountId) -> (r: Balance)
        requires
            keys_unique(self.user_balances@),
        ensures
            r == self.balance_of(account@),
    {
        match find_key(&self.user_balances, account) {
            Some(i) => {
                proof {
                    lemma_index_of(self.user_balances@, account@, i as int);
                }
                self.user_balances[i].1
            },
            None => 0,
        }
    }

    /// Whether `pending` can be resolved with these outcomes: its drop is
    /// still there, each failed claim can be undone, and the funder's
    /// balance can take the refunds.
    pub fn can_resolve_claim(&self, pending: &PendingClaim, outcomes: &Vec<bool>) -> (r: bool)
        requires
            self.wf(),
        ensures
            r == (has_key(self.drop_by_id@, pending.drop_id_view()) && self.drop_with(pending.drop_id_view()).resolvable(
                pending.claims_view(),
                outcomes@,
            ) && self.balance_of(self.drop_with(pending.drop_id_view()).funder_id@) + self.drop_with(
                pending.drop_id_view(),
            ).refunds_total(pending.claims_view(), outcomes@) <= u128::MAX),
    {
        let di = match find_key(&self.drop_by_id, &pending.drop_id) {
            Some(di) => di,
            None => return false,
        };
        proof {
            lemma_index_of(self.drop_by_id@, pending.drop_id@, di as int);
            assert(self.drop_by_id@[di as int].1.wf());
        }
        let drop = &self.drop_by_id[di].1;
        match drop.check_resolvable(&pending.claims, outcomes) {
            Some(total) => self.get_balance(&drop.funder_id).checked_add(total).is_some(),
            None => false,
        }
    }
}

} // verus!