//! A drop: its asset table, which assets each use of a key owes, and the
//! keys that can still be used.
use vstd::prelude::*;

use crate::delivery::Delivery;
use crate::external::{ext_asset_matches, ExtAsset};
use crate::fc_asset::{lemma_prefix_sums, AssetSpecificFCArgs, InternalFCData, MethodData};
use crate::ft_asset::InternalFTData;
use crate::gas::BASE_GAS_FOR_CREATE_ACC_AND_CLAIM;
use crate::internal_asset::{
    asset_gas, claim_ok, claim_post, refund_of, refund_ok, refund_post, InternalAsset,
};
use crate::nft_asset::InternalNFTData;
use crate::text::{amount_to_string, decimal_of, parse_amount};
use crate::table::{find_key, has_key, index_of, keys_unique, lemma_index_of};
use crate::{AccountId, AssetId, Balance, Gas, PublicKey};

verus! {

/// An asset owed on a use, and how much of it, where the kind has a quantity.
#[derive(Debug, Clone)]
pub struct AssetMetadata {
    pub asset_id: AssetId,
    pub tokens_per_use: Option<Balance>,
}

/// What one use of a key owes, with that use's own configuration.
#[derive(Debug, Clone)]
pub struct InternalKeyBehaviorForUse {
    pub assets_metadata: Vec<AssetMetadata>,
    pub config: Option<String>,
}

/// The same assets owed on every use of a key.
#[derive(Debug, Clone)]
pub struct InternalAllUseBehaviors {
    pub assets_metadata: Vec<AssetMetadata>,
    pub num_uses: u32,
}

#[derive(Debug, Clone)]
pub enum InternalKeyUseBehaviors {
    AllUses(InternalAllUseBehaviors),
    /// One entry per use, the first use first.
    PerUse(Vec<InternalKeyBehaviorForUse>),
}

#[derive(Debug, Clone)]
pub struct InternalKeyInfo {
    /// Uses of the key that have not been consumed.
    pub remaining_uses: u32,
}

#[derive(Debug)]
pub struct InternalDrop {
    /// Account that funded the drop and is owed its refunds.
    pub funder_id: AccountId,
    /// The drop's assets by identifier.
    pub asset_by_id: Vec<(AssetId, InternalAsset)>,
    pub key_use_behaviors: InternalKeyUseBehaviors,
    /// The keys of the drop that can still be used.
    pub key_info_by_pk: Vec<(PublicKey, InternalKeyInfo)>,
    pub metadata: Option<String>,
}

/// The assets that each use of a drop owes, as shown to the outside.
#[derive(Debug, Clone)]
pub struct ExtAssetDataForAllUses {
    pub assets: Vec<Option<ExtAsset>>,
    pub num_uses: u32,
}

#[derive(Debug, Clone)]
pub struct ExtAssetDataForGivenUse {
    pub assets: Vec<Option<ExtAsset>>,
    pub config: Option<String>,
}

#[derive(Debug, Clone)]
pub enum ExtAssetData {
    AssetsForAllUses(ExtAssetDataForAllUses),
    AssetsPerUse(Vec<ExtAssetDataForGivenUse>),
}

/// A drop as shown to the outside.
#[derive(Debug)]
pub struct ExtDrop {
    pub asset_data: ExtAssetData,
    pub nft_asset_data: Vec<InternalNFTData>,
    pub ft_asset_data: Vec<InternalFTData>,
    pub fc_asset_data: Vec<InternalFCData>,
    pub metadata: Option<String>,
}

/// The claim of one asset on one use: which asset, what the claim took
/// (the amount as a numeral, or the token), and what it asks the runtime to do.
#[derive(Debug)]
pub struct AssetClaim {
    pub asset_id: AssetId,
    pub tokens_per_use: Option<String>,
    pub delivery: Delivery,
}

/// Arguments that the claimer supplies, one entry per asset of the use, by position.
pub type UserProvidedFCArgs = Option<Vec<AssetSpecificFCArgs>>;

/// The claimer's arguments for the `k`th asset of a use.
pub open spec fn fc_args_at(a: UserProvidedFCArgs, k: int) -> AssetSpecificFCArgs {
    match a {
        Some(v) => if 0 <= k < v@.len() {
            v@[k]
        } else {
            None
        },
        None => None,
    }
}

pub open spec fn text_of(t: Option<String>) -> Option<Seq<char>> {
    match t {
        Some(s) => Some(s@),
        None => None,
    }
}

/// What a claim of `a` with `q` owed records for its undoing: the amount for
/// fungible tokens and the native currency, the token that leaves the
/// inventory, and nothing for the other kinds.
pub open spec fn claim_token_of(a: InternalAsset, q: Option<u128>) -> Option<Seq<char>> {
    match a {
        InternalAsset::Ft(_) => Some(decimal_of(q->Some_0 as nat)),
        InternalAsset::Near => Some(decimal_of(q->Some_0 as nat)),
        InternalAsset::Nft(n) => if n.token_ids@.len() > 0 {
            Some(n.token_ids@.last()@)
        } else {
            None
        },
        _ => None,
    }
}

/// The `k`th claim failed: it asked for something, and no success was reported for it.
pub open spec fn failed(c: Seq<AssetClaim>, outcomes: Seq<bool>, k: int) -> bool {
    c[k].delivery.steps@.len() > 0 && !(k < outcomes.len() && outcomes[k])
}

/// Two assets of the same kind that cost the same gas and are both well formed or not.
pub open spec fn same_shape(a: InternalAsset, b: InternalAsset) -> bool {
    &&& asset_gas(a) == asset_gas(b)
    &&& (a is Ft <==> b is Ft)
    &&& (a is Near <==> b is Near)
    &&& a.wf() == b.wf()
}

fn claim_token(a: &InternalAsset, q: &Option<Balance>) -> (r: Option<String>)
    requires
        claim_ok(*a, *q),
    ensures
        text_of(r) == claim_token_of(*a, *q),
{
    match a {
        InternalAsset::Ft(_) => Some(amount_to_string(q.unwrap())),
        InternalAsset::Near => Some(amount_to_string(q.unwrap())),
        InternalAsset::Nft(n) => n.get_next_token_id(),
        _ => None,
    }
}

/// Gas of claiming every asset of `ms`, out of the table `assets`.
pub open spec fn metadata_gas_in(assets: Seq<(String, InternalAsset)>, ms: Seq<AssetMetadata>) -> int
    decreases ms.len(),
{
    if ms.len() == 0 {
        0
    } else {
        metadata_gas_in(assets, ms.drop_last()) + asset_gas(assets[index_of(assets, ms.last().asset_id@)].1)
    }
}

/// The non-fungible assets of a table, in order.
pub open spec fn nfts_of(s: Seq<(String, InternalAsset)>) -> Seq<InternalNFTData>
    decreases s.len(),
{
    if s.len() == 0 {
        Seq::empty()
    } else {
        match s.last().1 {
            InternalAsset::Nft(n) => nfts_of(s.drop_last()).push(n),
            _ => nfts_of(s.drop_last()),
        }
    }
}

/// The fungible assets of a table, in order.
pub open spec fn fts_of(s: Seq<(String, InternalAsset)>) -> Seq<InternalFTData>
    decreases s.len(),
{
    if s.len() == 0 {
        Seq::empty()
    } else {
        match s.last().1 {
            InternalAsset::Ft(f) => fts_of(s.drop_last()).push(f),
            _ => fts_of(s.drop_last()),
        }
    }
}

/// The function-call assets of a table, in order.
pub open spec fn fcs_of(s: Seq<(String, InternalAsset)>) -> Seq<InternalFCData>
    decreases s.len(),
{
    if s.len() == 0 {
        Seq::empty()
    } else {
        match s.last().1 {
            InternalAsset::Fc(f) => fcs_of(s.drop_last()).push(f),
            _ => fcs_of(s.drop_last()),
        }
    }
}

impl InternalDrop {
    /// How many uses each key of the drop has.
    pub open spec fn num_uses(&self) -> int {
        match self.key_use_behaviors {
            InternalKeyUseBehaviors::AllUses(d) => d.num_uses as int,
            InternalKeyUseBehaviors::PerUse(v) => v@.len() as int,
        }
    }

    /// What use number `u` (from 1) owes.
    pub open spec fn metadata_for_use(&self, u: int) -> Seq<AssetMetadata> {
        match self.key_use_behaviors {
            InternalKeyUseBehaviors::AllUses(d) => d.assets_metadata@,
            InternalKeyUseBehaviors::PerUse(v) => v@[u - 1].assets_metadata@,
        }
    }

    /// The asset with identifier `id`.
    pub open spec fn asset_of(&self, id: Seq<char>) -> InternalAsset {
        self.asset_by_id@[index_of(self.asset_by_id@, id)].1
    }

    /// Each entry names an asset of the drop, at most once, with a quantity
    /// where the asset's kind needs one.
    pub open spec fn metadata_ok(&self, ms: Seq<AssetMetadata>) -> bool {
        &&& forall|k: int|
            0 <= k < ms.len() ==> {
                &&& has_key(self.asset_by_id@, (#[trigger] ms[k]).asset_id@)
                &&& (self.asset_of(ms[k].asset_id@) is Ft || self.asset_of(ms[k].asset_id@) is Near)
                    ==> ms[k].tokens_per_use is Some
            }
        &&& forall|k: int, l: int| 0 <= k < ms.len() && 0 <= l < ms.len() && k != l ==> ms[k].asset_id@ != ms[l].asset_id@
    }

    /// Gas of claiming every asset of `ms`.
    pub open spec fn metadata_gas(&self, ms: Seq<AssetMetadata>) -> int {
        metadata_gas_in(self.asset_by_id@, ms)
    }

    /// Use number `u` owes assets of the drop, and its claim's gas fits.
    pub open spec fn use_ok(&self, u: int) -> bool {
        &&& self.metadata_ok(self.metadata_for_use(u))
        &&& BASE_GAS_FOR_CREATE_ACC_AND_CLAIM + self.metadata_gas(self.metadata_for_use(u)) <= u64::MAX
    }

    pub open spec fn wf(&self) -> bool {
        &&& keys_unique(self.asset_by_id@)
        &&& keys_unique(self.key_info_by_pk@)
        &&& forall|i: int| 0 <= i < self.asset_by_id@.len() ==> (#[trigger] self.asset_by_id@[i]).1.wf()
        &&& 1 <= self.num_uses() <= u32::MAX
        &&& forall|u: int| 1 <= u <= self.num_uses() ==> #[trigger] self.use_ok(u)
        &&& forall|i: int|
            0 <= i < self.key_info_by_pk@.len() ==> (#[trigger] self.key_info_by_pk@[i]).1.remaining_uses
                <= self.num_uses()
    }

    /// `xs` shows the assets that `ms` owes, one for one.
    pub open spec fn shows_metadata(&self, xs: Seq<Option<ExtAsset>>, ms: Seq<AssetMetadata>) -> bool {
        &&& xs.len() == ms.len()
        &&& forall|k: int|
            0 <= k < ms.len() ==> ext_asset_matches(
                #[trigger] xs[k],
                self.asset_of(ms[k].asset_id@),
                ms[k].tokens_per_use,
            )
    }

    /// The position in the table of an asset that metadata names.
    pub fn asset_index(&self, id: &AssetId) -> (r: usize)
        requires
            keys_unique(self.asset_by_id@),
            has_key(self.asset_by_id@, id@),
        ensures
            r < self.asset_by_id@.len(),
            r == index_of(self.asset_by_id@, id@),
            self.asset_by_id@[r as int].0@ == id@,
            self.asset_by_id@[r as int].1 == self.asset_of(id@),
    {
        match find_key(&self.asset_by_id, id) {
            Some(i) => {
                proof {
                    lemma_index_of(self.asset_by_id@, id@, i as int);
                }
                i
            },
            None => {
                proof {
                    assert(false);
                }
                0
            },
        }
    }

    /// The assets that `ms` owes, as shown to the outside.
    fn ext_assets_for(&self, ms: &Vec<AssetMetadata>) -> (r: Vec<Option<ExtAsset>>)
        requires
            keys_unique(self.asset_by_id@),
            self.metadata_ok(ms@),
        ensures
            self.shows_metadata(r@, ms@),
    {
        let mut r: Vec<Option<ExtAsset>> = Vec::new();
        let mut k: usize = 0;
        while k < ms.len()
            invariant
                k <= ms@.len(),
                keys_unique(self.asset_by_id@),
                self.metadata_ok(ms@),
                r@.len() == k,
                forall|j: int|
                    0 <= j < k ==> ext_asset_matches(
                        #[trigger] r@[j],
                        self.asset_of(ms@[j].asset_id@),
                        ms@[j].tokens_per_use,
                    ),
            decreases ms@.len() - k,
        {
            let m = &ms[k];
            let i = self.asset_index(&m.asset_id);
            let e = self.asset_by_id[i].1.to_external_asset(&m.tokens_per_use);
            r.push(e);
            k = k + 1;
        }
        r
    }

    /// `r` shows this drop: what each use owes, and its non-fungible,
    /// fungible and function-call assets in table order.
    pub open spec fn shown_as(&self, r: ExtDrop) -> bool {
        &&& r.nft_asset_data@.len() == nfts_of(self.asset_by_id@).len()
        &&& forall|k: int|
            0 <= k < r.nft_asset_data@.len() ==> (#[trigger] r.nft_asset_data@[k]).same_as(nfts_of(self.asset_by_id@)[k])
        &&& r.ft_asset_data@ == fts_of(self.asset_by_id@)
        &&& r.fc_asset_data@.len() == fcs_of(self.asset_by_id@).len()
        &&& forall|k: int|
            0 <= k < r.fc_asset_data@.len() ==> (#[trigger] r.fc_asset_data@[k]).methods@ == fcs_of(self.asset_by_id@)[k].methods@
        &&& r.metadata == self.metadata
        &&& match self.key_use_behaviors {
            InternalKeyUseBehaviors::AllUses(d) => r.asset_data matches ExtAssetData::AssetsForAllUses(e) && e.num_uses
                == d.num_uses && self.shows_metadata(e.assets@, d.assets_metadata@),
            InternalKeyUseBehaviors::PerUse(v) => r.asset_data matches ExtAssetData::AssetsPerUse(w) && w@.len()
                == v@.len() && forall|i: int|
                0 <= i < v@.len() ==> #[trigger] self.shows_metadata(w@[i].assets@, v@[i].assets_metadata@)
                    && w@[i].config == v@[i].config,
        }
    }

    /// This drop as the outside sees it.
    pub fn to_external_drop(&self) -> (r: ExtDrop)
        requires
            self.wf(),
        ensures
            self.shown_as(r),
    {
        let mut nft_list: Vec<InternalNFTData> = Vec::new();
        let mut ft_list: Vec<InternalFTData> = Vec::new();
        let mut fc_list: Vec<InternalFCData> = Vec::new();
        let mut i: usize = 0;
        while i < self.asset_by_id.len()
            invariant
                i <= self.asset_by_id@.len(),
                nft_list@.len() == nfts_of(self.asset_by_id@.take(i as int)).len(),
                forall|k: int|
                    0 <= k < nft_list@.len() ==> (#[trigger] nft_list@[k]).same_as(
                        nfts_of(self.asset_by_id@.take(i as int))[k],
                    ),
                ft_list@ == fts_of(self.asset_by_id@.take(i as int)),
                fc_list@.len() == fcs_of(self.asset_by_id@.take(i as int)).len(),
                forall|k: int|
                    0 <= k < fc_list@.len() ==> (#[trigger] fc_list@[k]).methods@ == fcs_of(
                        self.asset_by_id@.take(i as int),
                    )[k].methods@,
            decreases self.asset_by_id@.len() - i,
        {
            proof {
                assert(self.asset_by_id@.take(i + 1).drop_last() =~= self.asset_by_id@.take(i as int));
            }
            match &self.asset_by_id[i].1 {
                InternalAsset::Nft(nft_asset) => nft_list.push(nft_asset.copy()),
                InternalAsset::Ft(ft_asset) => ft_list.push(ft_asset.copy()),
                InternalAsset::Fc(fc_asset) => fc_list.push(fc_asset.copy()),
                _ => {},
            }
            i = i + 1;
        }
        assert(self.asset_by_id@.take(i as int) =~= self.asset_by_id@);

        let asset_data = match &self.key_use_behaviors {
            InternalKeyUseBehaviors::AllUses(data) => {
                assert(self.use_ok(1));
                let assets = self.ext_assets_for(&data.assets_metadata);
                ExtAssetData::AssetsForAllUses(ExtAssetDataForAllUses { assets, num_uses: data.num_uses })
            },
            InternalKeyUseBehaviors::PerUse(data) => {
                let mut ext_asset_data: Vec<ExtAssetDataForGivenUse> = Vec::new();
                let mut u: usize = 0;
                while u < data.len()
                    invariant
                        self.wf(),
                        self.key_use_behaviors == InternalKeyUseBehaviors::PerUse(*data),
                        u <= data@.len(),
                        ext_asset_data@.len() == u,
                        forall|j: int|
                            0 <= j < u ==> #[trigger] self.shows_metadata(
                                ext_asset_data@[j].assets@,
                                data@[j].assets_metadata@,
                            ) && ext_asset_data@[j].config == data@[j].config,
                    decreases data@.len() - u,
                {
                    assert(self.use_ok(u + 1));
                    let assets = self.ext_assets_for(&data[u].assets_metadata);
                    let config = match &data[u].config {
                        Some(c) => Some(c.clone()),
                        None => None,
                    };
                    ext_asset_data.push(ExtAssetDataForGivenUse { assets, config });
                    u = u + 1;
                }
                ExtAssetData::AssetsPerUse(ext_asset_data)
            },
        };
        let metadata = match &self.metadata {
            Some(m) => Some(m.clone()),
            None => None,
        };
        let r = ExtDrop { asset_data, nft_asset_data: nft_list, ft_asset_data: ft_list, fc_asset_data: fc_list, metadata };
        proof {
            if self.key_use_behaviors is PerUse && r.asset_data is AssetsPerUse {
                let v = self.key_use_behaviors->PerUse_0;
                let w = r.asset_data->AssetsPerUse_0;
                {
                    assert(forall|i: int|
                        0 <= i < v@.len() ==> #[trigger] self.shows_metadata(w@[i].assets@, v@[i].assets_metadata@)
                            && w@[i].config == v@[i].config);
                }
            }
        }
        r
    }

    /// Same drop, with the same asset identifiers in the same places.
    pub open spec fn same_except_assets(&self, o: Self) -> bool {
        &&& self.funder_id == o.funder_id
        &&& self.key_use_behaviors == o.key_use_behaviors
        &&& self.key_info_by_pk == o.key_info_by_pk
        &&& self.metadata == o.metadata
        &&& self.asset_by_id@.len() == o.asset_by_id@.len()
        &&& forall|i: int| 0 <= i < self.asset_by_id@.len() ==> (#[trigger] self.asset_by_id@[i]).0 == o.asset_by_id@[i].0
    }

    /// Claims and refunds change no asset's kind or gas: the drop stays well formed.
    pub proof fn lemma_reshaped_wf(o: Self, n: Self)
        requires
            o.wf(),
            n.same_except_assets(o),
            forall|i: int| 0 <= i < o.asset_by_id@.len() ==> same_shape(o.asset_by_id@[i].1, #[trigger] n.asset_by_id@[i].1),
        ensures
            n.wf(),
            forall|id: Seq<char>| has_key(o.asset_by_id@, id) ==> #[trigger] index_of(n.asset_by_id@, id) == index_of(o.asset_by_id@, id),
    {
        assert(keys_unique(n.asset_by_id@));
        assert forall|id: Seq<char>| has_key(o.asset_by_id@, id) implies #[trigger] index_of(n.asset_by_id@, id) == index_of(o.asset_by_id@, id) by {
            let i = index_of(o.asset_by_id@, id);
            lemma_index_of(n.asset_by_id@, id, i);
        }
        assert forall|i: int| 0 <= i < n.asset_by_id@.len() implies (#[trigger] n.asset_by_id@[i]).1.wf() by {
            assert(o.asset_by_id@[i].1.wf());
        }
        assert forall|u: int| 1 <= u <= n.num_uses() implies #[trigger] n.use_ok(u) by {
            assert(o.use_ok(u));
            let ms = o.metadata_for_use(u);
            assert(n.metadata_for_use(u) == ms);
            assert forall|k: int| 0 <= k < ms.len() implies has_key(n.asset_by_id@, (#[trigger] ms[k]).asset_id@) by {
                let i = index_of(o.asset_by_id@, ms[k].asset_id@);
                assert(n.asset_by_id@[i].0@ == ms[k].asset_id@);
            }
            Self::lemma_metadata_gas_same(o, n, ms);
        }
    }

    proof fn lemma_metadata_gas_same(o: Self, n: Self, ms: Seq<AssetMetadata>)
        requires
            o.metadata_ok(ms),
            forall|id: Seq<char>| has_key(o.asset_by_id@, id) ==> #[trigger] index_of(n.asset_by_id@, id) == index_of(o.asset_by_id@, id),
            forall|id: Seq<char>| has_key(o.asset_by_id@, id) ==> 0 <= #[trigger] index_of(o.asset_by_id@, id) < o.asset_by_id@.len(),
            n.same_except_assets(o),
            forall|i: int| 0 <= i < o.asset_by_id@.len() ==> same_shape(o.asset_by_id@[i].1, #[trigger] n.asset_by_id@[i].1),
        ensures
            n.metadata_gas(ms) == o.metadata_gas(ms),
            n.metadata_ok(ms),
        decreases ms.len(),
    {
        assert forall|k: int| 0 <= k < ms.len() implies has_key(n.asset_by_id@, (#[trigger] ms[k]).asset_id@) by {
            assert(has_key(o.asset_by_id@, ms[k].asset_id@));
            let i = index_of(o.asset_by_id@, ms[k].asset_id@);
            assert(n.asset_by_id@[i].0@ == ms[k].asset_id@);
        }
        assert forall|k: int| 0 <= k < ms.len() implies same_shape(o.asset_of((#[trigger] ms[k]).asset_id@), n.asset_of(ms[k].asset_id@)) by {
            assert(has_key(o.asset_by_id@, ms[k].asset_id@));
        }
        if ms.len() > 0 {
            assert(o.metadata_ok(ms.drop_last()));
            Self::lemma_metadata_gas_same(o, n, ms.drop_last());
            assert(ms.last() == ms[ms.len() - 1]);
        }
    }

    /// What use number `u` owes.
    pub fn assets_metadata_for_use(&self, u: u32) -> (r: &Vec<AssetMetadata>)
        requires
            self.wf(),
            1 <= u <= self.num_uses(),
        ensures
            r@ == self.metadata_for_use(u as int),
    {
        match &self.key_use_behaviors {
            InternalKeyUseBehaviors::AllUses(data) => &data.assets_metadata,
            InternalKeyUseBehaviors::PerUse(data) => &data[u as usize - 1].assets_metadata,
        }
    }

    proof fn lemma_metadata_gas_prefix(&self, ms: Seq<AssetMetadata>, k: int)
        requires
            0 <= k <= ms.len(),
        ensures
            self.metadata_gas(ms.take(k)) <= self.metadata_gas(ms),
        decreases ms.len(),
    {
        if k < ms.len() {
            assert(ms.drop_last().take(k) =~= ms.take(k));
            self.lemma_metadata_gas_prefix(ms.drop_last(), k);
            let a = self.asset_of(ms.last().asset_id@);
            if let InternalAsset::Fc(f) = a {
                lemma_prefix_sums(f.methods@, 0);
                assert(f.methods@.take(0) =~= Seq::<MethodData>::empty());
            }
        } else {
            assert(ms.take(k) =~= ms);
        }
    }

    /// Gas of claiming every asset that use number `u` owes.
    pub fn required_gas_for_use(&self, u: u32) -> (r: Gas)
        requires
            self.wf(),
            1 <= u <= self.num_uses(),
        ensures
            r == self.metadata_gas(self.metadata_for_use(u as int)),
            BASE_GAS_FOR_CREATE_ACC_AND_CLAIM + r <= u64::MAX,
    {
        let ms = self.assets_metadata_for_use(u);
        assert(self.use_ok(u as int));
        let mut total: Gas = 0;
        let mut k: usize = 0;
        while k < ms.len()
            invariant
                self.wf(),
                k <= ms@.len(),
                ms@ == self.metadata_for_use(u as int),
                self.use_ok(u as int),
                total == self.metadata_gas(ms@.take(k as int)),
            decreases ms@.len() - k,
        {
            proof {
                self.lemma_metadata_gas_prefix(ms@, k + 1);
                assert(ms@.take(k + 1).drop_last() =~= ms@.take(k as int));
                assert(ms@.take(k + 1).last() == ms@[k as int]);
            }
            let i = self.asset_index(&ms[k].asset_id);
            proof {
                assert(self.asset_by_id@[i as int].1.wf());
            }
            total = total + self.asset_by_id[i].1.get_required_gas();
            k = k + 1;
        }
        assert(ms@.take(k as int) =~= ms@);
        total
    }

    /// The claim `c` of the asset that `m` names took `self` to `n` as a claim of that asset does.
    pub open spec fn claimed_at(
        &self,
        n: Self,
        m: AssetMetadata,
        receiver: Seq<char>,
        fc: AssetSpecificFCArgs,
        c: AssetClaim,
    ) -> bool {
        let i = index_of(self.asset_by_id@, m.asset_id@);
        &&& c.asset_id@ == m.asset_id@
        &&& text_of(c.tokens_per_use) == claim_token_of(self.asset_by_id@[i].1, m.tokens_per_use)
        &&& claim_post(self.asset_by_id@[i].1, n.asset_by_id@[i].1, receiver, m.tokens_per_use, fc, c.delivery@)
    }

    /// Use number `u` was claimed from `self` to `n` for `receiver`, giving
    /// the claims `r`: one per asset that the use owes, in order, each as a
    /// claim of that asset does; the assets that the use does not owe are untouched.
    pub open spec fn use_claimed(
        &self,
        n: Self,
        u: int,
        receiver: Seq<char>,
        fc_args: UserProvidedFCArgs,
        r: Seq<AssetClaim>,
    ) -> bool {
        let ms = self.metadata_for_use(u);
        &&& r.len() == ms.len()
        &&& forall|k: int| 0 <= k < r.len() ==> self.claimed_at(n, ms[k], receiver, fc_args_at(fc_args, k), #[trigger] r[k])
        &&& forall|i: int|
            0 <= i < self.asset_by_id@.len() && (forall|k: int| 0 <= k < ms.len() ==> (#[trigger] ms[k]).asset_id@ != self.asset_by_id@[i].0@)
                ==> #[trigger] n.asset_by_id@[i] == self.asset_by_id@[i]
    }

    /// Claims every asset that use number `u` owes, in order, for
    /// `receiver_id`, and returns one claim per asset.
    pub fn claim_for_use(&mut self, u: u32, receiver_id: &AccountId, fc_args: &UserProvidedFCArgs) -> (r: Vec<
        AssetClaim,
    >)
        requires
            old(self).wf(),
            1 <= u <= old(self).num_uses(),
        ensures
            final(self).wf(),
            final(self).same_except_assets(*old(self)),
            old(self).use_claimed(*final(self), u as int, receiver_id@, *fc_args, r@),
    {
        let ghost o = *self;
        let ghost ms = o.metadata_for_use(u as int);
        proof {
            assert(o.use_ok(u as int));
        }
        let none_args: AssetSpecificFCArgs = None;
        let mut r: Vec<AssetClaim> = Vec::new();
        let n = self.assets_metadata_for_use(u).len();
        let mut k: usize = 0;
        while k < n
            invariant
                none_args is None,
                o.wf(),
                o.metadata_ok(ms),
                1 <= u <= o.num_uses(),
                ms == o.metadata_for_use(u as int),
                n == ms.len(),
                k <= n,
                self.same_except_assets(o),
                self.metadata_for_use(u as int) == ms,
                self.num_uses() == o.num_uses(),
                self.wf(),
                r@.len() == k,
                forall|i: int| 0 <= i < o.asset_by_id@.len() ==> same_shape(o.asset_by_id@[i].1, #[trigger] self.asset_by_id@[i].1),
                forall|j: int| 0 <= j < k ==> o.claimed_at(*self, ms[j], receiver_id@, fc_args_at(*fc_args, j), #[trigger] r@[j]),
                forall|i: int|
                    0 <= i < o.asset_by_id@.len() && (forall|j: int| 0 <= j < k ==> (#[trigger] ms[j]).asset_id@ != o.asset_by_id@[i].0@)
                        ==> #[trigger] self.asset_by_id@[i] == o.asset_by_id@[i],
            decreases n - k,
        {
            let asset_id = self.assets_metadata_for_use(u)[k].asset_id.clone();
            let q = self.assets_metadata_for_use(u)[k].tokens_per_use;
            proof {
                assert(has_key(o.asset_by_id@, ms[k as int].asset_id@));
                let io = index_of(o.asset_by_id@, ms[k as int].asset_id@);
                assert(self.asset_by_id@[io].0@ == ms[k as int].asset_id@);
            }
            let i = self.asset_index(&asset_id);
            proof {
                lemma_index_of(o.asset_by_id@, asset_id@, i as int);
                assert forall|j: int| 0 <= j < k implies (#[trigger] ms[j]).asset_id@ != o.asset_by_id@[i as int].0@ by {
                    assert(ms[j].asset_id@ != ms[k as int].asset_id@);
                }
                assert(self.asset_by_id@[i as int] == o.asset_by_id@[i as int]);
            }
            let fc: &AssetSpecificFCArgs = match fc_args {
                Some(v) => {
                    if k < v.len() {
                        &v[k]
                    } else {
                        &none_args
                    }
                },
                None => &none_args,
            };

            let tokens_per_use = claim_token(&self.asset_by_id[i].1, &q);
            let ghost before = *self;
            let delivery = self.asset_by_id[i].1.claim_asset(receiver_id, &q, fc);
            let c = AssetClaim { asset_id, tokens_per_use, delivery };
            proof {
                assert(o.claimed_at(*self, ms[k as int], receiver_id@, fc_args_at(*fc_args, k as int), c));
                assert(self.same_except_assets(o));
                assert forall|j: int| 0 <= j < k implies o.claimed_at(*self, ms[j], receiver_id@, fc_args_at(*fc_args, j), #[trigger] r@[j]) by {
                    assert(o.claimed_at(before, ms[j], receiver_id@, fc_args_at(*fc_args, j), r@[j]));
                    let ij = index_of(o.asset_by_id@, ms[j].asset_id@);
                    assert(ms[j].asset_id@ != ms[k as int].asset_id@);
                    assert(ij != i);
                }
                Self::lemma_reshaped_wf(o, *self);
            }
            r.push(c);
            k = k + 1;
            proof {
                assert(r@[k - 1] == c);
            }
        }
        r
    }

    /// What the funder is owed for the failed claims of `c`.
    pub open spec fn refunds_total(&self, c: Seq<AssetClaim>, outcomes: Seq<bool>) -> int
        decreases c.len(),
    {
        if c.len() == 0 {
            0
        } else {
            self.refunds_total(c.drop_last(), outcomes) + if failed(c, outcomes, c.len() - 1) {
                refund_of(self.asset_of(c.last().asset_id@), c.last().tokens_per_use)
            } else {
                0
            }
        }
    }

    /// The claims `c` can be resolved on this drop: each names a different
    /// asset of it, each failed one can be undone, and the refunds fit.
    pub open spec fn resolvable(&self, c: Seq<AssetClaim>, outcomes: Seq<bool>) -> bool {
        &&& forall|k: int| 0 <= k < c.len() ==> has_key(self.asset_by_id@, (#[trigger] c[k]).asset_id@)
        &&& forall|k: int, l: int| 0 <= k < c.len() && 0 <= l < c.len() && k != l ==> c[k].asset_id@ != c[l].asset_id@
        &&& forall|k: int|
            0 <= k < c.len() && failed(c, outcomes, k) ==> refund_ok(
                self.asset_of((#[trigger] c[k]).asset_id@),
                c[k].tokens_per_use,
            )
        &&& self.refunds_total(c, outcomes) <= u128::MAX
    }

    /// The `k`th claim of `c` was settled from `self` to `n`: undone if it failed, and else left as it was.
    pub open spec fn resolved_at(&self, n: Self, c: Seq<AssetClaim>, outcomes: Seq<bool>, k: int) -> bool {
        let i = index_of(self.asset_by_id@, c[k].asset_id@);
        if failed(c, outcomes, k) {
            refund_post(self.asset_by_id@[i].1, n.asset_by_id@[i].1, c[k].tokens_per_use)
        } else {
            n.asset_by_id@[i] == self.asset_by_id@[i]
        }
    }

    proof fn lemma_refunds_prefix(&self, c: Seq<AssetClaim>, outcomes: Seq<bool>, k: int)
        requires
            0 <= k <= c.len(),
        ensures
            self.refunds_total(c.take(k), outcomes) <= self.refunds_total(c, outcomes),
            k < c.len() ==> self.refunds_total(c.take(k + 1), outcomes) == self.refunds_total(c.take(k), outcomes)
                + if failed(c, outcomes, k) {
                refund_of(self.asset_of(c[k].asset_id@), c[k].tokens_per_use)
            } else {
                0
            },
        decreases c.len(),
    {
        if k < c.len() {
            assert(c.take(k + 1).drop_last() =~= c.take(k));
            assert(c.drop_last().take(k) =~= c.take(k));
            self.lemma_refunds_prefix(c.drop_last(), outcomes, k);
            assert(forall|j: int| 0 <= j < c.len() - 1 ==> #[trigger] c.drop_last()[j] == c[j]);
            if k + 1 < c.len() {
                self.lemma_refunds_prefix(c.drop_last(), outcomes, k + 1);
                assert(c.drop_last().take(k + 1) =~= c.take(k + 1));
            } else {
                assert(c.drop_last() =~= c.take(k));
                assert(c.take(k + 1) =~= c);
            }
        } else {
            assert(c.take(k) =~= c);
        }
    }

    /// Settles the claims of one use once their deliveries are known: each
    /// claim that asked for something and has no reported success is undone
    /// on its asset. Returns what the funder is owed for them, all together.
    pub fn resolve_claims(&mut self, claims: &Vec<AssetClaim>, outcomes: &Vec<bool>) -> (r: Balance)
        requires
            old(self).wf(),
            old(self).resolvable(claims@, outcomes@),
        ensures
            r == old(self).refunds_total(claims@, outcomes@),
            final(self).wf(),
            final(self).same_except_assets(*old(self)),
            forall|k: int| 0 <= k < claims@.len() ==> #[trigger] old(self).resolved_at(*final(self), claims@, outcomes@, k),
            forall|i: int|
                0 <= i < old(self).asset_by_id@.len() && (forall|k: int|
                    0 <= k < claims@.len() ==> (#[trigger] claims@[k]).asset_id@ != old(self).asset_by_id@[i].0@)
                    ==> #[trigger] final(self).asset_by_id@[i] == old(self).asset_by_id@[i],
    {
        let ghost o = *self;
        let ghost c = claims@;
        let mut total: Balance = 0;
        let mut k: usize = 0;
        while k < claims.len()
            invariant
                o.wf(),
                o.resolvable(c, outcomes@),
                c == claims@,
                k <= c.len(),
                self.same_except_assets(o),
                self.wf(),
                total == o.refunds_total(c.take(k as int), outcomes@),
                forall|i: int| 0 <= i < o.asset_by_id@.len() ==> same_shape(o.asset_by_id@[i].1, #[trigger] self.asset_by_id@[i].1),
                forall|j: int| 0 <= j < k ==> #[trigger] o.resolved_at(*self, c, outcomes@, j),
                forall|i: int|
                    0 <= i < o.asset_by_id@.len() && (forall|j: int| 0 <= j < k ==> (#[trigger] c[j]).asset_id@ != o.asset_by_id@[i].0@)
                        ==> #[trigger] self.asset_by_id@[i] == o.asset_by_id@[i],
            decreases c.len() - k,
        {
            let ghost kk = k as int;
            proof {
                o.lemma_refunds_prefix(c, outcomes@, kk);
                o.lemma_refunds_prefix(c, outcomes@, kk + 1);
                assert(has_key(o.asset_by_id@, c[kk].asset_id@));
                let io = index_of(o.asset_by_id@, c[kk].asset_id@);
                assert(self.asset_by_id@[io].0@ == c[kk].asset_id@);
            }
            let i = self.asset_index(&claims[k].asset_id);
            proof {
                lemma_index_of(o.asset_by_id@, c[kk].asset_id@, i as int);
                assert forall|j: int| 0 <= j < k implies (#[trigger] c[j]).asset_id@ != o.asset_by_id@[i as int].0@ by {
                    assert(c[j].asset_id@ != c[kk].asset_id@);
                }
                assert(self.asset_by_id@[i as int] == o.asset_by_id@[i as int]);
            }
            let ghost before = *self;
            let delivered = claims[k].delivery.steps.len() > 0;
            let succeeded = k < outcomes.len() && outcomes[k];
            if delivered && !succeeded {
                assert(failed(c, outcomes@, kk));
                let refund = self.asset_by_id[i].1.on_failed_claim(&claims[k].tokens_per_use);
                total = total + refund;
            }
            proof {
                assert(o.resolved_at(*self, c, outcomes@, kk));
                assert forall|j: int| 0 <= j < k implies #[trigger] o.resolved_at(*self, c, outcomes@, j) by {
                    assert(o.resolved_at(before, c, outcomes@, j));
                    assert(c[j].asset_id@ != c[kk].asset_id@);
                }
                Self::lemma_reshaped_wf(o, *self);
            }
            k = k + 1;
        }
        assert(c.take(k as int) =~= c);
        total
    }

    /// How many uses each key of the drop has.
    pub fn get_num_uses(&self) -> (r: u32)
        requires
            self.wf(),
        ensures
            r == self.num_uses(),
    {
        match &self.key_use_behaviors {
            InternalKeyUseBehaviors::AllUses(data) => data.num_uses,
            InternalKeyUseBehaviors::PerUse(data) => data.len() as u32,
        }
    }

    /// Consumes one use of the key at position `ki`.
    pub fn use_key(&mut self, ki: usize)
        requires
            old(self).wf(),
            ki < old(self).key_info_by_pk@.len(),
            old(self).key_info_by_pk@[ki as int].1.remaining_uses >= 1,
        ensures
            final(self).wf(),
            final(self).key_info_by_pk@ == old(self).key_info_by_pk@.update(
                ki as int,
                (
                    old(self).key_info_by_pk@[ki as int].0,
                    InternalKeyInfo { remaining_uses: (old(self).key_info_by_pk@[ki as int].1.remaining_uses - 1) as u32 },
                ),
            ),
            final(self).funder_id == old(self).funder_id,
            final(self).asset_by_id == old(self).asset_by_id,
            final(self).key_use_behaviors == old(self).key_use_behaviors,
            final(self).metadata == old(self).metadata,
    {
        let ghost o = *self;
        let remaining = self.key_info_by_pk[ki].1.remaining_uses;
        self.key_info_by_pk[ki].1.remaining_uses = remaining - 1;
        proof {
            assert(self.key_info_by_pk@ =~= o.key_info_by_pk@.update(
                ki as int,
                (o.key_info_by_pk@[ki as int].0, InternalKeyInfo { remaining_uses: (remaining - 1) as u32 }),
            ));
            assert forall|u: int| 1 <= u <= self.num_uses() implies #[trigger] self.use_ok(u) by {
                assert(o.use_ok(u));
            }
        }
    }

    /// What the funder would be owed for the claims `c` with these outcomes,
    /// where they can be resolved on this drop; `None` where they cannot.
    pub fn check_resolvable(&self, claims: &Vec<AssetClaim>, outcomes: &Vec<bool>) -> (r: Option<Balance>)
        requires
            self.wf(),
        ensures
            r is Some <==> self.resolvable(claims@, outcomes@),
            r matches Some(total) ==> total == self.refunds_total(claims@, outcomes@),
    {
        let ghost c = claims@;
        let n = claims.len();
        let mut k: usize = 0;
        while k < n
            invariant
                n == c.len(),
                c == claims@,
                k <= n,
                forall|j: int| 0 <= j < k ==> has_key(self.asset_by_id@, (#[trigger] c[j]).asset_id@),
                forall|j: int, l: int| 0 <= j < k && 0 <= l < n && j < l ==> c[j].asset_id@ != c[l].asset_id@,
            decreases n - k,
        {
            if find_key(&self.asset_by_id, &claims[k].asset_id).is_none() {
                return None;
            }
            let mut l: usize = k + 1;
            while l < n
                invariant
                    n == c.len(),
                    c == claims@,
                    k < n,
                    k + 1 <= l <= n,
                    forall|m: int| k < m < l ==> c[k as int].asset_id@ != (#[trigger] c[m]).asset_id@,
                decreases n - l,
            {
                if claims[k].asset_id == claims[l].asset_id {
                    return None;
                }
                l = l + 1;
            }
            k = k + 1;
        }
        let mut total: Balance = 0;
        let mut k: usize = 0;
        while k < n
            invariant
                n == c.len(),
                c == claims@,
                k <= n,
                self.wf(),
                forall|j: int| 0 <= j < n ==> has_key(self.asset_by_id@, (#[trigger] c[j]).asset_id@),
                forall|j: int|
                    0 <= j < k && failed(c, outcomes@, j) ==> refund_ok(
                        self.asset_of((#[trigger] c[j]).asset_id@),
                        c[j].tokens_per_use,
                    ),
                total == self.refunds_total(c.take(k as int), outcomes@),
            decreases n - k,
        {
            proof {
                self.lemma_refunds_prefix(c, outcomes@, k as int);
                self.lemma_refunds_prefix(c, outcomes@, k + 1);
            }
            let delivered = claims[k].delivery.steps.len() > 0;
            let succeeded = k < outcomes.len() && outcomes[k];
            if delivered && !succeeded {
                let i = self.asset_index(&claims[k].asset_id);
                let t = &claims[k].tokens_per_use;
                let refund: Balance = match &self.asset_by_id[i].1 {
                    InternalAsset::Ft(f) => {
                        let q = match t {
                            Some(s) => match parse_amount(s) {
                                Some(q) => q,
                                None => return None,
                            },
                            None => return None,
                        };
                        if f.balance_avail.checked_add(q).is_none() {
                            return None;
                        }
                        f.registration_cost
                    },
                    InternalAsset::Nft(_) => {
                        if t.is_none() {
                            return None;
                        }
                        0
                    },
                    InternalAsset::Near => match t {
                        Some(s) => match parse_amount(s) {
                            Some(q) => q,
                            None => return None,
                        },
                        None => return None,
                    },
                    _ => 0,
                };
                total = match total.checked_add(refund) {
                    Some(sum) => sum,
                    None => return None,
                };
            }
            k = k + 1;
        }
        assert(c.take(k as int) =~= c);
        Some(total)
    }
}

} // verus!