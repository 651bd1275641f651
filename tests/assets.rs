use keypom::delivery::{Action, Delivery};
use keypom::external::ExtAsset;
use keypom::fc_asset::{InternalFCData, MethodData};
use keypom::ft_asset::InternalFTData;
use keypom::gas::{
    BASE_GAS_FOR_CLAIM, GAS_FOR_CLAIM_LOGIC, GAS_FOR_FC_CLAIM_LOGIC, GAS_FOR_NEAR_TRANSFER, GAS_FOR_NFT_CLAIM_LOGIC,
    MIN_BASE_GAS_FOR_ONE_CCC, MIN_GAS_FOR_FT_TRANSFER, MIN_GAS_FOR_NFT_CALLBACK_LOGIC, MIN_GAS_FOR_NFT_TRANSFER,
    MIN_GAS_FOR_RESOLVE_BATCH, MIN_GAS_FOR_STORAGE_DEPOSIT,
};
use keypom::internal_asset::InternalAsset;
use keypom::nft_asset::InternalNFTData;

fn ft(balance: u128, registration_cost: u128) -> InternalAsset {
    let mut data = InternalFTData::new("ft.near".to_string(), registration_cost);
    data.add_to_balance_avail(&balance);
    InternalAsset::Ft(data)
}

fn nft(tokens: &[&str]) -> InternalAsset {
    let mut data = InternalNFTData::new("nft.near".to_string());
    for t in tokens {
        data.add_to_token_ids(&t.to_string());
    }
    InternalAsset::Nft(data)
}

fn method(receiver: &str, name: &str, deposit: u128, gas: u64, user_args_allowed: bool) -> MethodData {
    MethodData {
        receiver_id: receiver.to_string(),
        method_name: name.to_string(),
        args: "{}".to_string(),
        attached_deposit: deposit,
        attached_gas: gas,
        user_args_allowed,
    }
}

fn ft_balance(a: &InternalAsset) -> u128 {
    match a {
        InternalAsset::Ft(f) => f.balance_avail,
        _ => panic!("not a fungible asset"),
    }
}

fn nft_tokens(a: &InternalAsset) -> Vec<String> {
    match a {
        InternalAsset::Nft(n) => n.token_ids.clone(),
        _ => panic!("not a non-fungible asset"),
    }
}

fn call_of(d: &Delivery, step: usize, action: usize) -> (String, String, u128, u64, u64) {
    match &d.steps[step].actions[action] {
        Action::FunctionCall(c) => (c.method_name.clone(), c.args.clone(), c.deposit, c.static_gas, c.gas_weight),
        Action::Transfer(_) => panic!("not a call"),
    }
}

#[test]
fn ft_failed_claim_restores_balance_and_owes_registration() {
    let mut asset = ft(1000, 1);
    let d = asset.claim_asset(&"bob.near".to_string(), &Some(100), &None);
    assert_eq!(ft_balance(&asset), 900);
    assert_eq!(d.steps.len(), 1);
    assert_eq!(d.steps[0].receiver_id, "ft.near");
    let owed = asset.on_failed_claim(&Some("100".to_string()));
    assert_eq!(ft_balance(&asset), 1000);
    assert_eq!(owed, 1);
}

#[test]
fn ft_claim_asks_for_registration_then_transfer() {
    let mut asset = ft(500, 7);
    let d = asset.claim_asset(&"bob.near".to_string(), &Some(25), &None);
    assert_eq!(d.steps[0].actions.len(), 2);
    assert_eq!(
        call_of(&d, 0, 0),
        (
            "storage_deposit".to_string(),
            "{\"account_id\":\"bob.near\"}".to_string(),
            7,
            MIN_GAS_FOR_STORAGE_DEPOSIT,
            1
        )
    );
    assert_eq!(
        call_of(&d, 0, 1),
        (
            "ft_transfer".to_string(),
            "{\"amount\":\"25\",\"memo\":\"Keypom FT Tokens\",\"receiver_id\":\"bob.near\"}".to_string(),
            1,
            MIN_GAS_FOR_FT_TRANSFER,
            1
        )
    );
}

#[test]
fn ft_claim_with_too_little_left_does_nothing() {
    let mut asset = ft(50, 1);
    let d = asset.claim_asset(&"bob.near".to_string(), &Some(100), &None);
    assert_eq!(d.steps.len(), 0);
    assert_eq!(ft_balance(&asset), 50);
}

#[test]
fn ft_balance_after_claims_and_refunds() {
    let mut asset = ft(1000, 1);
    let receiver = "bob.near".to_string();
    // finalized
    asset.claim_asset(&receiver, &Some(100), &None);
    // refunded
    asset.claim_asset(&receiver, &Some(300), &None);
    asset.on_failed_claim(&Some("300".to_string()));
    // finalized
    asset.claim_asset(&receiver, &Some(50), &None);
    assert_eq!(ft_balance(&asset), 1000 - 100 - 50);
}

#[test]
fn resolve_ft_claim_on_success_and_failure() {
    let mut data = InternalFTData::new("ft.near".to_string(), 3);
    data.add_to_balance_avail(&10);
    assert!(data.resolve_ft_claim(4, true));
    assert_eq!(data.balance_avail, 10);
    assert!(!data.resolve_ft_claim(4, false));
    assert_eq!(data.balance_avail, 14);
}

#[test]
fn nft_failed_claim_puts_token_back_at_the_end() {
    let mut asset = nft(&["token#1", "token#2"]);
    let d = asset.claim_asset(&"bob.near".to_string(), &None, &None);
    assert_eq!(nft_tokens(&asset), vec!["token#1".to_string()]);
    assert_eq!(
        call_of(&d, 0, 0),
        (
            "nft_transfer".to_string(),
            "{\"receiver_id\":\"bob.near\",\"token_id\":\"token#2\"}".to_string(),
            1,
            MIN_GAS_FOR_NFT_TRANSFER,
            1
        )
    );
    let owed = asset.on_failed_claim(&Some("token#2".to_string()));
    assert_eq!(owed, 0);
    assert_eq!(nft_tokens(&asset), vec!["token#1".to_string(), "token#2".to_string()]);
}

#[test]
fn nft_claims_never_hand_out_a_token_twice() {
    let mut asset = nft(&["a", "b", "c"]);
    let r = "bob.near".to_string();
    asset.claim_asset(&r, &None, &None); // c, finalized
    asset.claim_asset(&r, &None, &None); // b, fails
    asset.on_failed_claim(&Some("b".to_string()));
    asset.claim_asset(&r, &None, &None); // b, finalized
    assert_eq!(nft_tokens(&asset), vec!["a".to_string()]);
}

#[test]
fn empty_nft_claim_does_nothing() {
    let mut asset = nft(&[]);
    let d = asset.claim_asset(&"bob.near".to_string(), &None, &None);
    assert_eq!(d.steps.len(), 0);
    assert!(asset.is_empty());
}

#[test]
fn nft_data_queries() {
    let data = InternalNFTData::new("nft.near".to_string());
    assert!(data.is_empty());
    assert_eq!(data.get_next_token_id(), None);
    assert_eq!(data.get_asset_id(), "nft.near");
    let mut data = data;
    data.add_to_token_ids(&"t1".to_string());
    data.add_to_token_ids(&"t2".to_string());
    assert!(!data.is_empty());
    assert_eq!(data.get_next_token_id(), Some("t2".to_string()));
    assert_eq!(data.get_required_asset_gas(), GAS_FOR_NFT_CLAIM_LOGIC + MIN_GAS_FOR_NFT_TRANSFER);
    assert_eq!(
        data.get_total_required_gas(),
        GAS_FOR_NFT_CLAIM_LOGIC + MIN_GAS_FOR_NFT_TRANSFER + MIN_GAS_FOR_NFT_CALLBACK_LOGIC
    );
}

#[test]
fn near_failed_claim_owes_whole_amount() {
    let mut asset = InternalAsset::Near;
    let d = asset.claim_asset(&"bob.near".to_string(), &Some(42), &None);
    assert_eq!(d.steps.len(), 1);
    assert_eq!(d.steps[0].receiver_id, "bob.near");
    assert!(matches!(d.steps[0].actions[0], Action::Transfer(42)));
    assert_eq!(asset.on_failed_claim(&Some("42".to_string())), 42);
}

#[test]
fn fc_and_empty_failed_claims_owe_nothing() {
    let mut fc = InternalAsset::Fc(InternalFCData { methods: vec![method("c.near", "go", 5, 10, false)] });
    assert_eq!(fc.on_failed_claim(&None), 0);
    let mut empty = InternalAsset::Empty;
    assert_eq!(empty.on_failed_claim(&None), 0);
    let d = empty.claim_asset(&"bob.near".to_string(), &None, &None);
    assert_eq!(d.steps.len(), 0);
}

#[test]
fn fc_claim_uses_claimer_arguments_only_where_allowed() {
    let mut asset = InternalAsset::Fc(InternalFCData {
        methods: vec![method("a.near", "first", 1, 7, true), method("b.near", "second", 2, 8, false)],
    });
    let user = Some(vec![Some("{\"x\":1}".to_string()), Some("{\"y\":2}".to_string())]);
    let d = asset.claim_asset(&"bob.near".to_string(), &None, &user);
    assert_eq!(d.steps.len(), 2);
    assert_eq!(d.steps[0].receiver_id, "a.near");
    assert_eq!(call_of(&d, 0, 0), ("first".to_string(), "{\"x\":1}".to_string(), 1, 7, 0));
    assert_eq!(d.steps[1].receiver_id, "b.near");
    assert_eq!(call_of(&d, 1, 0), ("second".to_string(), "{}".to_string(), 2, 8, 0));
}

#[test]
fn fc_gas_grows_with_each_method() {
    let one = InternalAsset::Fc(InternalFCData { methods: vec![method("a.near", "m", 0, 10, false)] });
    let two = InternalAsset::Fc(InternalFCData {
        methods: vec![method("a.near", "m", 0, 10, false), method("b.near", "n", 0, 20, false)],
    });
    let g1 = one.get_required_gas();
    let g2 = two.get_required_gas();
    assert_eq!(g1, GAS_FOR_FC_CLAIM_LOGIC + 10 + MIN_BASE_GAS_FOR_ONE_CCC);
    assert_eq!(g2, g1 + 20 + MIN_BASE_GAS_FOR_ONE_CCC);
    assert!(g2 > g1);
}

#[test]
fn required_gas_of_each_kind() {
    assert_eq!(
        ft(1, 1).get_required_gas(),
        GAS_FOR_CLAIM_LOGIC + MIN_GAS_FOR_STORAGE_DEPOSIT + MIN_GAS_FOR_FT_TRANSFER + MIN_GAS_FOR_RESOLVE_BATCH
    );
    assert_eq!(GAS_FOR_CLAIM_LOGIC, 17_000_000_000_000);
    assert_eq!(
        nft(&["t"]).get_required_gas(),
        GAS_FOR_NFT_CLAIM_LOGIC + MIN_GAS_FOR_NFT_TRANSFER + MIN_GAS_FOR_NFT_CALLBACK_LOGIC
    );
    assert_eq!(InternalAsset::Near.get_required_gas(), GAS_FOR_NEAR_TRANSFER);
    assert_eq!(InternalAsset::Empty.get_required_gas(), 0);
    assert!(BASE_GAS_FOR_CLAIM > 0);
    let by_kind = [
        InternalAsset::Empty.get_required_gas(),
        InternalAsset::Near.get_required_gas(),
        nft(&["t"]).get_required_gas(),
        ft(1, 1).get_required_gas(),
    ];
    assert!(by_kind[0] < by_kind[1] && by_kind[1] < by_kind[2] && by_kind[2] < by_kind[3]);
}

#[test]
fn emptiness_of_each_kind() {
    assert!(ft(0, 1).is_empty());
    assert!(!ft(1, 1).is_empty());
    assert!(nft(&[]).is_empty());
    assert!(!nft(&["t"]).is_empty());
    assert!(InternalAsset::Near.is_empty());
    assert!(InternalAsset::Empty.is_empty());
    assert!(InternalAsset::Fc(InternalFCData { methods: vec![] }).is_empty());
}

#[test]
fn refund_amount_of_each_kind() {
    assert_eq!(ft(5, 9).get_yocto_refund_amount(&Some(3)), 9);
    assert_eq!(nft(&["t"]).get_yocto_refund_amount(&None), 0);
    assert_eq!(InternalAsset::Near.get_yocto_refund_amount(&Some(77)), 77);
    assert_eq!(InternalAsset::Empty.get_yocto_refund_amount(&None), 0);
    let fc = InternalAsset::Fc(InternalFCData {
        methods: vec![method("a.near", "m", 4, 1, false), method("b.near", "n", 6, 1, false)],
    });
    assert_eq!(fc.get_yocto_refund_amount(&None), 10);
}

#[test]
fn external_asset_of_each_kind() {
    match ft(5, 9).to_external_asset(&Some(3)) {
        Some(ExtAsset::FTAsset(e)) => {
            assert_eq!(e.ft_contract_id, "ft.near");
            assert_eq!(e.registration_cost, 9);
            assert_eq!(e.ft_amount, 3);
        },
        _ => panic!("expected a fungible asset"),
    }
    match nft(&["t"]).to_external_asset(&None) {
        Some(ExtAsset::NFTAsset(e)) => assert_eq!(e.nft_contract_id, "nft.near"),
        _ => panic!("expected a non-fungible asset"),
    }
    match InternalAsset::Near.to_external_asset(&Some(8)) {
        Some(ExtAsset::NearAsset(e)) => assert_eq!(e.yoctonear, 8),
        _ => panic!("expected the native currency"),
    }
    let fc = InternalAsset::Fc(InternalFCData { methods: vec![method("a.near", "m", 4, 1, false)] });
    match fc.to_external_asset(&None) {
        Some(ExtAsset::FCAsset(ms)) => assert_eq!(ms[0].method_name, "m"),
        _ => panic!("expected a function-call asset"),
    }
    assert!(InternalAsset::Empty.to_external_asset(&None).is_none());
}
