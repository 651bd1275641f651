//! What the contract shows of a drop and of a key.
use vstd::prelude::*;

use crate::claims::Keypom;
use crate::drop::{AssetMetadata, ExtDrop, InternalDrop};
use crate::external::ExtFTData;
use crate::gas::BASE_GAS_FOR_CLAIM;
use crate::internal_asset::InternalAsset;
use crate::table::{find_key, has_key, lemma_index_of};
use crate::{Balance, DropId, Gas, PublicKey};

verus! {

/// What the next use of a key hands out, and the gas that its claim needs.
#[derive(Debug)]
pub struct ExtKeyInfo {
    pub yoctonear: Balance,
    /// The fungible tokens that the use owes, if any.
    pub ft_list: Option<Vec<ExtFTData>>,
    pub required_gas: Gas,
}

/// The fungible assets that `ms` owes on drop `d`, in order.
pub open spec fn ft_list_of(d: InternalDrop, ms: Seq<AssetMetadata>) -> Seq<ExtFTData>
    decreases ms.len(),
{
    if ms.len() == 0 {
        Seq::empty()
    } else {
        match d.asset_of(ms.last().asset_id@) {
            InternalAsset::Ft(f) => ft_list_of(d, ms.drop_last()).push(
                ExtFTData {
                    ft_contract_id: f.contract_id,
                    registration_cost: f.registration_cost,
                    ft_amount: ms.last().tokens_per_use->Some_0,
                },
            ),
            _ => ft_list_of(d, ms.drop_last()),
        }
    }
}

impl Keypom {
    /// The drop with identifier `drop_id`, as the outside sees it.
    pub fn get_drop_information(&self, drop_id: DropId) -> (r: Option<ExtDrop>)
        requires
            self.wf(),
        ensures
            r is Some <==> has_key(self.drop_by_id@, drop_id@),
            r matches Some(e) ==> self.drop_with(drop_id@).shown_as(e),
    {
        match find_key(&self.drop_by_id, &drop_id) {
            Some(i) => {
                proof {
                    lemma_index_of(self.drop_by_id@, drop_id@, i as int);
                    assert(self.drop_by_id@[i as int].1.wf());
                }
                Some(self.drop_by_id[i].1.to_external_drop())
            },
            None => None,
        }
    }

    /// What the next use of `key` owes in fungible tokens, and the gas that
    /// its claim needs: the claim's base overhead and the gas of each asset.
    pub fn get_key_information(&self, key: PublicKey) -> (r: ExtKeyInfo)
        requires
            self.wf(),
            self.key_found(key@),
            self.remaining_uses_of(key@) >= 1,
        ensures
            r.yoctonear == 0,
            r.required_gas == BASE_GAS_FOR_CLAIM + self.asset_gas_of(key@),
            ({
                let d = self.drop_of(key@);
                let fts = ft_list_of(d, d.metadata_for_use(self.cur_use_of(key@)));
                &&& fts.len() == 0 ==> r.ft_list is None
                &&& fts.len() > 0 ==> (r.ft_list matches Some(l) && l@ == fts)
            }),
    {
        let (di, _ki, u, g) = match self.before_claim_logic(&key) {
            Ok(found) => found,
            Err(_) => {
                proof {
                    assert(false);
                }
                return ExtKeyInfo { yoctonear: 0, ft_list: None, required_gas: 0 };
            },
        };
        let drop = &self.drop_by_id[di].1;
        proof {
            assert(drop.wf());
            assert(drop.use_ok(u as int));
        }
        let ms = drop.assets_metadata_for_use(u);
        let mut ft_list: Vec<ExtFTData> = Vec::new();
        let mut k: usize = 0;
        while k < ms.len()
            invariant
                drop.wf(),
                drop.metadata_ok(ms@),
                k <= ms@.len(),
                ft_list@ == ft_list_of(*drop, ms@.take(k as int)),
            decreases ms@.len() - k,
        {
            proof {
                assert(ms@.take(k + 1).drop_last() =~= ms@.take(k as int));
                assert(ms@.take(k + 1).last() == ms@[k as int]);
            }
            let i = drop.asset_index(&ms[k].asset_id);
            match &drop.asset_by_id[i].1 {
                InternalAsset::Ft(f) => {
                    ft_list.push(
                        ExtFTData {
                            ft_contract_id: f.contract_id.clone(),
                            registration_cost: f.registration_cost,
                            ft_amount: ms[k].tokens_per_use.unwrap(),
                        },
                    );
                },
                _ => {},
            }
            k = k + 1;
        }
        assert(ms@.take(k as int) =~= ms@);
        let ft_list = if ft_list.len() > 0 {
            Some(ft_list)
        } else {
            None
        };
        ExtKeyInfo { yoctonear: 0, ft_list, required_gas: BASE_GAS_FOR_CLAIM + g }
    }
}

} // verus!
