//! Properties of whole runs of the claim protocol, over the contracts of
//! the claim and failure paths.
use vstd::multiset::Multiset;
use vstd::prelude::*;

use crate::delivery::StepView;
use crate::drop::{claim_token_of, text_of};
use crate::fc_asset::{method_gas, InternalFCData, MethodData};
use crate::gas::MIN_BASE_GAS_FOR_ONE_CCC;
use crate::internal_asset::{asset_gas, claim_post, refund_post, InternalAsset};
use crate::text::lemma_parse_decimal_of;

verus! {

/// Round `i` of a run on one asset: the claim of `qs[i]` takes `s[i]` to
/// `m[i]`, asks for `ds[i]` and records `ts[i]`; the delivery then either
/// succeeds (`oks[i]`), or asked for nothing, and `m[i]` stands, or it
/// fails and the claim is undone, giving `s[i + 1]`.
pub open spec fn round(
    s: Seq<InternalAsset>,
    m: Seq<InternalAsset>,
    receivers: Seq<Seq<char>>,
    qs: Seq<Option<u128>>,
    ds: Seq<Seq<StepView>>,
    ts: Seq<Option<String>>,
    oks: Seq<bool>,
    i: int,
) -> bool {
    &&& claim_post(s[i], m[i], receivers[i], qs[i], None, ds[i])
    &&& text_of(ts[i]) == claim_token_of(s[i], qs[i])
    &&& if ds[i].len() > 0 && !oks[i] {
        refund_post(m[i], s[i + 1], ts[i])
    } else {
        s[i + 1] == m[i]
    }
}

/// A run of `n` rounds.
pub open spec fn run(
    s: Seq<InternalAsset>,
    m: Seq<InternalAsset>,
    receivers: Seq<Seq<char>>,
    qs: Seq<Option<u128>>,
    ds: Seq<Seq<StepView>>,
    ts: Seq<Option<String>>,
    oks: Seq<bool>,
    n: int,
) -> bool {
    &&& 0 <= n
    &&& s.len() == n + 1
    &&& m.len() == n && receivers.len() == n && qs.len() == n && ds.len() == n && ts.len() == n && oks.len() == n
    &&& forall|i: int| 0 <= i < n ==> #[trigger] round(s, m, receivers, qs, ds, ts, oks, i)
}

/// What the finalized claims among the first `n` rounds took: those that
/// asked for a delivery that succeeded.
pub open spec fn finalized_total(qs: Seq<Option<u128>>, ds: Seq<Seq<StepView>>, oks: Seq<bool>, n: int) -> int
    decreases n,
{
    if n <= 0 {
        0
    } else {
        finalized_total(qs, ds, oks, n - 1) + if ds[n - 1].len() > 0 && oks[n - 1] {
            qs[n - 1]->Some_0 as int
        } else {
            0
        }
    }
}

/// The tokens that the finalized claims among the first `n` rounds handed out.
pub open spec fn finalized_tokens(s: Seq<InternalAsset>, ds: Seq<Seq<StepView>>, oks: Seq<bool>, n: int) -> Seq<
    Seq<char>,
>
    decreases n,
{
    if n <= 0 {
        Seq::empty()
    } else if ds[n - 1].len() > 0 && oks[n - 1] {
        finalized_tokens(s, ds, oks, n - 1).push(s[n - 1]->Nft_0.token_ids@.last()@)
    } else {
        finalized_tokens(s, ds, oks, n - 1)
    }
}

/// The tokens that a non-fungible asset holds.
pub open spec fn inventory(a: InternalAsset) -> Seq<Seq<char>> {
    a->Nft_0.token_ids@.map_values(|t: String| t@)
}

/// Over any run of claims and refunds on a fungible asset, the balance left
/// to claim is the balance at the start less what the finalized claims took:
/// a claim that is refunded changes nothing in the end.
pub proof fn lemma_ft_balance_conserved(
    s: Seq<InternalAsset>,
    m: Seq<InternalAsset>,
    receivers: Seq<Seq<char>>,
    qs: Seq<Option<u128>>,
    ds: Seq<Seq<StepView>>,
    ts: Seq<Option<String>>,
    oks: Seq<bool>,
    n: int,
)
    requires
        run(s, m, receivers, qs, ds, ts, oks, n),
        s[0] is Ft,
    ensures
        s[n] is Ft,
        s[n]->Ft_0.balance_avail == s[0]->Ft_0.balance_avail - finalized_total(qs, ds, oks, n),
        s[n]->Ft_0.contract_id == s[0]->Ft_0.contract_id,
        s[n]->Ft_0.registration_cost == s[0]->Ft_0.registration_cost,
{
    lemma_ft_rounds(s, m, receivers, qs, ds, ts, oks, n, n);
}

proof fn lemma_ft_rounds(
    s: Seq<InternalAsset>,
    m: Seq<InternalAsset>,
    receivers: Seq<Seq<char>>,
    qs: Seq<Option<u128>>,
    ds: Seq<Seq<StepView>>,
    ts: Seq<Option<String>>,
    oks: Seq<bool>,
    n: int,
    k: int,
)
    requires
        run(s, m, receivers, qs, ds, ts, oks, n),
        s[0] is Ft,
        0 <= k <= n,
    ensures
        s[k] is Ft,
        s[k]->Ft_0.balance_avail == s[0]->Ft_0.balance_avail - finalized_total(qs, ds, oks, k),
        s[k]->Ft_0.contract_id == s[0]->Ft_0.contract_id,
        s[k]->Ft_0.registration_cost == s[0]->Ft_0.registration_cost,
    decreases k,
{
    if k > 0 {
        let j = k - 1;
        lemma_ft_rounds(s, m, receivers, qs, ds, ts, oks, n, j);
        assert(round(s, m, receivers, qs, ds, ts, oks, j));
        let q = qs[j]->Some_0;
        lemma_parse_decimal_of(q);
    }
}

/// Over any run of claims and refunds on a non-fungible asset, the tokens
/// left and the tokens that finalized claims handed out are, together,
/// exactly the tokens at the start: what is left is a rearrangement of part
/// of what was funded, and a token that was handed out is not also left,
/// unless it was funded twice.
pub proof fn lemma_nft_inventory_conserved(
    s: Seq<InternalAsset>,
    m: Seq<InternalAsset>,
    receivers: Seq<Seq<char>>,
    qs: Seq<Option<u128>>,
    ds: Seq<Seq<StepView>>,
    ts: Seq<Option<String>>,
    oks: Seq<bool>,
    n: int,
)
    requires
        run(s, m, receivers, qs, ds, ts, oks, n),
        s[0] is Nft,
    ensures
        s[n] is Nft,
        inventory(s[n]).to_multiset().add(finalized_tokens(s, ds, oks, n).to_multiset()) == inventory(
            s[0],
        ).to_multiset(),
        inventory(s[0]).no_duplicates() ==> inventory(s[n]).no_duplicates() && forall|x: Seq<char>|
            #[trigger] finalized_tokens(s, ds, oks, n).contains(x) ==> !inventory(s[n]).contains(x),
{
    broadcast use vstd::seq_lib::group_to_multiset_ensures, vstd::multiset::group_multiset_axioms;

    lemma_nft_rounds(s, m, receivers, qs, ds, ts, oks, n, n);
    let inv = inventory(s[n]);
    let fin = finalized_tokens(s, ds, oks, n);
    let init = inventory(s[0]);
    if init.no_duplicates() {
        init.lemma_multiset_has_no_duplicates();
        assert forall|x: Seq<char>| inv.to_multiset().contains(x) implies inv.to_multiset().count(x) == 1 by {
            assert(inv.to_multiset().count(x) + fin.to_multiset().count(x) == init.to_multiset().count(x));
        }
        inv.lemma_multiset_has_no_duplicates_conv();
        assert forall|x: Seq<char>| #[trigger] fin.contains(x) implies !inv.contains(x) by {
            assert(inv.to_multiset().count(x) + fin.to_multiset().count(x) == init.to_multiset().count(x));
        }
    }
}

proof fn lemma_nft_rounds(
    s: Seq<InternalAsset>,
    m: Seq<InternalAsset>,
    receivers: Seq<Seq<char>>,
    qs: Seq<Option<u128>>,
    ds: Seq<Seq<StepView>>,
    ts: Seq<Option<String>>,
    oks: Seq<bool>,
    n: int,
    k: int,
)
    requires
        run(s, m, receivers, qs, ds, ts, oks, n),
        s[0] is Nft,
        0 <= k <= n,
    ensures
        s[k] is Nft,
        inventory(s[k]).to_multiset().add(finalized_tokens(s, ds, oks, k).to_multiset()) == inventory(
            s[0],
        ).to_multiset(),
    decreases k,
{
    broadcast use vstd::seq_lib::group_to_multiset_ensures, vstd::multiset::group_multiset_axioms;

    if k == 0 {
        assert(finalized_tokens(s, ds, oks, 0).to_multiset() =~= Multiset::empty());
        assert(inventory(s[0]).to_multiset().add(Multiset::empty()) =~= inventory(s[0]).to_multiset());
    } else {
        let j = k - 1;
        lemma_nft_rounds(s, m, receivers, qs, ds, ts, oks, n, j);
        assert(round(s, m, receivers, qs, ds, ts, oks, j));
        let a = s[j]->Nft_0;
        let inv = inventory(s[j]);
        let f = finalized_tokens(s, ds, oks, j);
        if a.token_ids@.len() > 0 {
            let last = a.token_ids@.last()@;
            assert(inventory(m[j]) =~= inv.drop_last());
            assert(inv =~= inv.drop_last().push(last));
            assert(inv.to_multiset() =~= inv.drop_last().to_multiset().insert(last));
            if oks[j] {
                assert(finalized_tokens(s, ds, oks, k) == f.push(last));
                assert(f.push(last).to_multiset() =~= f.to_multiset().insert(last));
                assert(inventory(s[k]) == inv.drop_last());
                assert(inventory(s[k]).to_multiset().add(f.push(last).to_multiset()) =~= inv.to_multiset().add(
                    f.to_multiset(),
                ));
            } else {
                assert(inventory(s[k]) =~= inv.drop_last().push(ts[j]->Some_0@));
                assert(inventory(s[k]) =~= inv);
            }
        } else {
            assert(inventory(s[k]) =~= inv);
        }
    }
}

/// A function-call asset costs more gas to claim for each method it calls:
/// one more method adds that method's own gas and the overhead of a call.
pub proof fn lemma_fc_gas_grows_with_methods(a: InternalFCData, b: InternalFCData, extra: MethodData)
    requires
        b.methods@ == a.methods@.push(extra),
    ensures
        asset_gas(InternalAsset::Fc(b)) == asset_gas(InternalAsset::Fc(a)) + method_gas(extra),
        asset_gas(InternalAsset::Fc(b)) >= asset_gas(InternalAsset::Fc(a)) + MIN_BASE_GAS_FOR_ONE_CCC,
        asset_gas(InternalAsset::Fc(b)) > asset_gas(InternalAsset::Fc(a)),
{
    assert(b.methods@.drop_last() =~= a.methods@);
}

/// The more external calls a kind's delivery makes, the more gas its claim
/// needs: nothing for the empty asset, one transfer for the native currency,
/// a transfer and its resolution for a non-fungible token, and a
/// registration, a transfer and the batch's resolution for fungible tokens.
pub proof fn lemma_gas_grows_with_calls(e: InternalAsset, near: InternalAsset, nft: InternalAsset, ft: InternalAsset)
    requires
        e is Empty,
        near is Near,
        nft is Nft,
        ft is Ft,
    ensures
        asset_gas(e) == 0,
        asset_gas(e) < asset_gas(near),
        asset_gas(near) < asset_gas(nft),
        asset_gas(nft) < asset_gas(ft),
{
}

} // verus!
