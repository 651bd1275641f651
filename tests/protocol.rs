use keypom::claims::{ClaimError, Keypom, NEW_ACCOUNT_DEPOSIT};
use keypom::delivery::Action;
use keypom::drop::{
    AssetMetadata, ExtAssetData, InternalAllUseBehaviors, InternalDrop, InternalKeyBehaviorForUse, InternalKeyInfo,
    InternalKeyUseBehaviors,
};
use keypom::ft_asset::InternalFTData;
use keypom::gas::{
    BASE_GAS_FOR_CLAIM, BASE_GAS_FOR_CREATE_ACC_AND_CLAIM, BASE_GAS_FOR_RESOLVE_ACCOUNT_CREATION,
    GAS_FOR_CREATE_ACCOUNT, GAS_FOR_NEAR_TRANSFER,
};
use keypom::internal_asset::InternalAsset;
use keypom::nft_asset::InternalNFTData;

fn meta(id: &str, q: Option<u128>) -> AssetMetadata {
    AssetMetadata { asset_id: id.to_string(), tokens_per_use: q }
}

fn contract(drop: InternalDrop, keys: &[&str]) -> Keypom {
    Keypom {
        root_account: "near".to_string(),
        drop_by_id: vec![("drop1".to_string(), drop)],
        drop_id_for_pk: keys.iter().map(|k| (k.to_string(), "drop1".to_string())).collect(),
        user_balances: vec![],
    }
}

fn drop_with(assets: Vec<(&str, InternalAsset)>, behaviors: InternalKeyUseBehaviors, keys: &[(&str, u32)]) -> InternalDrop {
    InternalDrop {
        funder_id: "funder.near".to_string(),
        asset_by_id: assets.into_iter().map(|(id, a)| (id.to_string(), a)).collect(),
        key_use_behaviors: behaviors,
        key_info_by_pk: keys.iter().map(|(k, u)| (k.to_string(), InternalKeyInfo { remaining_uses: *u })).collect(),
        metadata: Some("a drop".to_string()),
    }
}

fn ft_drop(balance: u128) -> Keypom {
    let ft = InternalAsset::Ft(InternalFTData {
        contract_id: "ft.near".to_string(),
        registration_cost: 1,
        balance_avail: balance,
    });
    let behaviors = InternalKeyUseBehaviors::AllUses(InternalAllUseBehaviors {
        assets_metadata: vec![meta("ft.near", Some(100))],
        num_uses: 3,
    });
    contract(drop_with(vec![("ft.near", ft)], behaviors, &[("pk1", 3)]), &["pk1"])
}

fn ft_balance(k: &Keypom) -> u128 {
    match &k.drop_by_id[0].1.asset_by_id[0].1 {
        InternalAsset::Ft(f) => f.balance_avail,
        _ => panic!("not a fungible asset"),
    }
}

fn funder_balance(k: &Keypom) -> u128 {
    k.user_balances.iter().find(|(a, _)| a == "funder.near").map(|(_, b)| *b).unwrap_or(0)
}

fn ft_gas() -> u64 {
    InternalAsset::Ft(InternalFTData::new("x".to_string(), 0)).get_required_gas()
}

#[test]
fn failed_ft_delivery_restores_balance_and_credits_registration() {
    let mut k = ft_drop(1000);
    let pending = k.claim(&"pk1".to_string(), BASE_GAS_FOR_CLAIM + ft_gas(), "bob.near".to_string(), None).unwrap();
    assert_eq!(ft_balance(&k), 900);
    assert_eq!(pending.drop_id(), "drop1");
    assert_eq!(pending.claims().len(), 1);
    assert_eq!(pending.claims()[0].tokens_per_use, Some("100".to_string()));
    let refund = k.resolve_claim(pending, &vec![false]);
    assert_eq!(refund, 1);
    assert_eq!(ft_balance(&k), 1000);
    assert_eq!(funder_balance(&k), 1);
    assert_eq!(k.drop_by_id[0].1.key_info_by_pk[0].1.remaining_uses, 2);
}

#[test]
fn successful_ft_delivery_keeps_the_reservation() {
    let mut k = ft_drop(1000);
    let pending = k.claim(&"pk1".to_string(), BASE_GAS_FOR_CLAIM + ft_gas() + 5, "bob.near".to_string(), None).unwrap();
    assert_eq!(k.resolve_claim(pending, &vec![true]), 0);
    assert_eq!(ft_balance(&k), 900);
    assert_eq!(funder_balance(&k), 0);
}

#[test]
fn missing_outcome_counts_as_failure() {
    let mut k = ft_drop(1000);
    let pending = k.claim(&"pk1".to_string(), BASE_GAS_FOR_CLAIM + ft_gas(), "bob.near".to_string(), None).unwrap();
    assert_eq!(k.resolve_claim(pending, &vec![]), 1);
    assert_eq!(ft_balance(&k), 1000);
}

#[test]
fn ft_balance_over_a_run_of_claims() {
    let mut k = ft_drop(1000);
    let gas = BASE_GAS_FOR_CLAIM + ft_gas();
    let p = k.claim(&"pk1".to_string(), gas, "a.near".to_string(), None).unwrap();
    k.resolve_claim(p, &vec![true]);
    let p = k.claim(&"pk1".to_string(), gas, "b.near".to_string(), None).unwrap();
    k.resolve_claim(p, &vec![false]);
    let p = k.claim(&"pk1".to_string(), gas, "c.near".to_string(), None).unwrap();
    k.resolve_claim(p, &vec![true]);
    assert_eq!(ft_balance(&k), 1000 - 100 - 100);
    assert_eq!(funder_balance(&k), 1);
}

#[test]
fn too_little_gas_is_refused_without_change() {
    let mut k = ft_drop(1000);
    let required = BASE_GAS_FOR_CLAIM + ft_gas();
    let r = k.claim(&"pk1".to_string(), required - 1, "bob.near".to_string(), None);
    assert_eq!(r.unwrap_err(), ClaimError::NotEnoughGas { required, prepaid: required - 1 });
    assert_eq!(ft_balance(&k), 1000);
    assert_eq!(k.drop_by_id[0].1.key_info_by_pk[0].1.remaining_uses, 3);
}

#[test]
fn unknown_key_is_refused() {
    let mut k = ft_drop(1000);
    let r = k.claim(&"pk9".to_string(), u64::MAX, "bob.near".to_string(), None);
    assert_eq!(r.unwrap_err(), ClaimError::KeyNotFound);
}

#[test]
fn key_without_uses_is_refused() {
    let mut k = ft_drop(1000);
    k.drop_by_id[0].1.key_info_by_pk[0].1.remaining_uses = 0;
    let r = k.claim(&"pk1".to_string(), u64::MAX, "bob.near".to_string(), None);
    assert_eq!(r.unwrap_err(), ClaimError::NoUsesLeft);
}

#[test]
fn empty_asset_with_base_gas_finalizes_at_once() {
    let behaviors = InternalKeyUseBehaviors::AllUses(InternalAllUseBehaviors {
        assets_metadata: vec![meta("none", None)],
        num_uses: 1,
    });
    let mut k = contract(drop_with(vec![("none", InternalAsset::Empty)], behaviors, &[("pk1", 1)]), &["pk1"]);
    let pending = k.claim(&"pk1".to_string(), BASE_GAS_FOR_CLAIM, "bob.near".to_string(), None).unwrap();
    assert_eq!(pending.claims().len(), 1);
    assert_eq!(pending.claims()[0].delivery.steps.len(), 0);
    assert_eq!(k.resolve_claim(pending, &vec![]), 0);
    assert_eq!(funder_balance(&k), 0);
    assert_eq!(k.drop_by_id[0].1.key_info_by_pk[0].1.remaining_uses, 0);
}

#[test]
fn nft_drop_claim_and_failed_delivery() {
    let nft = InternalAsset::Nft(InternalNFTData {
        contract_id: "nft.near".to_string(),
        token_ids: vec!["token#1".to_string(), "token#2".to_string()],
    });
    let behaviors = InternalKeyUseBehaviors::AllUses(InternalAllUseBehaviors {
        assets_metadata: vec![meta("nft.near", None)],
        num_uses: 2,
    });
    let mut k = contract(drop_with(vec![("nft.near", nft)], behaviors, &[("pk1", 2)]), &["pk1"]);
    let gas = BASE_GAS_FOR_CLAIM + k.drop_by_id[0].1.asset_by_id[0].1.get_required_gas();
    let pending = k.claim(&"pk1".to_string(), gas, "bob.near".to_string(), None).unwrap();
    assert_eq!(pending.claims()[0].tokens_per_use, Some("token#2".to_string()));
    assert_eq!(k.resolve_claim(pending, &vec![false]), 0);
    match &k.drop_by_id[0].1.asset_by_id[0].1 {
        InternalAsset::Nft(n) => assert_eq!(n.token_ids, vec!["token#1".to_string(), "token#2".to_string()]),
        _ => panic!("not a non-fungible asset"),
    }
}

fn per_use_drop() -> Keypom {
    let ft = InternalAsset::Ft(InternalFTData {
        contract_id: "ft.near".to_string(),
        registration_cost: 2,
        balance_avail: 1000,
    });
    let behaviors = InternalKeyUseBehaviors::PerUse(vec![
        InternalKeyBehaviorForUse {
            assets_metadata: vec![meta("near", Some(50)), meta("ft.near", Some(10))],
            config: None,
        },
        InternalKeyBehaviorForUse { assets_metadata: vec![meta("near", Some(70))], config: Some("last".to_string()) },
    ]);
    contract(drop_with(vec![("ft.near", ft), ("near", InternalAsset::Near)], behaviors, &[("pk1", 2)]), &["pk1"])
}

#[test]
fn per_use_assets_and_refunds_of_several_assets() {
    let mut k = per_use_drop();
    let gas = BASE_GAS_FOR_CLAIM + GAS_FOR_NEAR_TRANSFER + ft_gas();
    let pending = k.claim(&"pk1".to_string(), gas, "bob.near".to_string(), None).unwrap();
    assert_eq!(pending.claims().len(), 2);
    assert!(matches!(pending.claims()[0].delivery.steps[0].actions[0], Action::Transfer(50)));
    assert_eq!(ft_balance(&k), 990);
    let refund = k.resolve_claim(pending, &vec![false, false]);
    assert_eq!(refund, 50 + 2);
    assert_eq!(ft_balance(&k), 1000);
    assert_eq!(funder_balance(&k), 52);
    let second = k.claim(&"pk1".to_string(), BASE_GAS_FOR_CLAIM + GAS_FOR_NEAR_TRANSFER, "bob.near".to_string(), None);
    let second = second.unwrap();
    assert!(matches!(second.claims()[0].delivery.steps[0].actions[0], Action::Transfer(70)));
}

#[test]
fn key_information_of_next_use() {
    let k = per_use_drop();
    let info = k.get_key_information("pk1".to_string());
    assert_eq!(info.yoctonear, 0);
    assert_eq!(info.required_gas, BASE_GAS_FOR_CLAIM + GAS_FOR_NEAR_TRANSFER + ft_gas());
    let fts = info.ft_list.unwrap();
    assert_eq!(fts.len(), 1);
    assert_eq!(fts[0].ft_contract_id, "ft.near");
    assert_eq!(fts[0].ft_amount, 10);
    assert_eq!(fts[0].registration_cost, 2);
}

#[test]
fn drop_information_shows_each_use() {
    let k = per_use_drop();
    assert!(k.get_drop_information("nope".to_string()).is_none());
    let e = k.get_drop_information("drop1".to_string()).unwrap();
    assert_eq!(e.ft_asset_data.len(), 1);
    assert_eq!(e.nft_asset_data.len(), 0);
    assert_eq!(e.fc_asset_data.len(), 0);
    assert_eq!(e.metadata, Some("a drop".to_string()));
    match e.asset_data {
        ExtAssetData::AssetsPerUse(uses) => {
            assert_eq!(uses.len(), 2);
            assert_eq!(uses[0].assets.len(), 2);
            assert_eq!(uses[1].config, Some("last".to_string()));
        },
        _ => panic!("expected one entry per use"),
    }
}

#[test]
fn account_creation_needs_exact_gas() {
    let mut k = ft_drop(1000);
    let required = BASE_GAS_FOR_CREATE_ACC_AND_CLAIM + ft_gas();
    let r = k.create_account_and_claim(&"pk1".to_string(), required + 1, "new.near".to_string(), "ed25519:k".to_string(), None);
    assert_eq!(r.unwrap_err(), ClaimError::GasMismatch { required, prepaid: required + 1 });
    assert_eq!(k.drop_by_id[0].1.key_info_by_pk[0].1.remaining_uses, 3);
}

#[test]
fn account_creation_then_claim() {
    let mut k = ft_drop(1000);
    let required = BASE_GAS_FOR_CREATE_ACC_AND_CLAIM + ft_gas();
    let a = k
        .create_account_and_claim(&"pk1".to_string(), required, "new.near".to_string(), "ed25519:k".to_string(), None)
        .unwrap();
    assert_eq!(a.callback_gas, BASE_GAS_FOR_RESOLVE_ACCOUNT_CREATION + ft_gas());
    assert_eq!(a.creation.steps[0].receiver_id, "near");
    match &a.creation.steps[0].actions[0] {
        Action::FunctionCall(c) => {
            assert_eq!(c.method_name, "create_account");
            assert_eq!(c.args, "{\"new_account_id\":\"new.near\",\"new_public_key\":\"ed25519:k\"}");
            assert_eq!(c.deposit, NEW_ACCOUNT_DEPOSIT);
            assert_eq!(c.static_gas, GAS_FOR_CREATE_ACCOUNT);
        },
        _ => panic!("expected a call"),
    }
    assert_eq!(ft_balance(&k), 1000);
    assert_eq!(k.drop_by_id[0].1.key_info_by_pk[0].1.remaining_uses, 2);
    let pending = k.on_new_account_created(a.pending, true).unwrap();
    assert_eq!(ft_balance(&k), 900);
    assert_eq!(pending.claims()[0].delivery.steps[0].receiver_id, "ft.near");
}

#[test]
fn failed_account_creation_claims_nothing() {
    let mut k = ft_drop(1000);
    let required = BASE_GAS_FOR_CREATE_ACC_AND_CLAIM + ft_gas();
    let a = k
        .create_account_and_claim(&"pk1".to_string(), required, "new.near".to_string(), "ed25519:k".to_string(), None)
        .unwrap();
    assert!(k.on_new_account_created(a.pending, false).is_none());
    assert_eq!(ft_balance(&k), 1000);
}

#[test]
fn resolvability_is_checked_before_resolution() {
    let mut k = ft_drop(1000);
    let pending = k.claim(&"pk1".to_string(), BASE_GAS_FOR_CLAIM + ft_gas(), "bob.near".to_string(), None).unwrap();
    assert!(k.can_resolve_claim(&pending, &vec![false]));
    assert_eq!(k.get_balance(&"funder.near".to_string()), 0);
    k.user_balances.push(("funder.near".to_string(), u128::MAX));
    assert!(!k.can_resolve_claim(&pending, &vec![false]));
    assert!(k.can_resolve_claim(&pending, &vec![true]));
    assert_eq!(k.get_balance(&"funder.near".to_string()), u128::MAX);
}

#[test]
fn refunds_of_a_use_are_checked_per_drop() {
    let mut k = ft_drop(1000);
    let pending = k.claim(&"pk1".to_string(), BASE_GAS_FOR_CLAIM + ft_gas(), "bob.near".to_string(), None).unwrap();
    let drop = &k.drop_by_id[0].1;
    assert_eq!(drop.check_resolvable(pending.claims(), &vec![false]), Some(1));
    assert_eq!(drop.check_resolvable(pending.claims(), &vec![true]), Some(0));
    k.drop_by_id[0].1.asset_by_id[0].1 = InternalAsset::Ft(InternalFTData {
        contract_id: "ft.near".to_string(),
        registration_cost: 1,
        balance_avail: u128::MAX - 5,
    });
    assert_eq!(k.drop_by_id[0].1.check_resolvable(pending.claims(), &vec![false]), None);
}
