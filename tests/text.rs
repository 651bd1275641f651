use keypom::text::{amount_to_string, create_account_args, ft_transfer_args, nft_transfer_args, parse_amount, storage_deposit_args};

#[test]
fn amounts_read_as_std_reads_them() {
    assert_eq!(parse_amount(&"100".to_string()), Some(100));
    assert_eq!(parse_amount(&"+12".to_string()), Some(12));
    assert_eq!(parse_amount(&"0".to_string()), Some(0));
    assert_eq!(parse_amount(&"".to_string()), None);
    assert_eq!(parse_amount(&"12a".to_string()), None);
    assert_eq!(parse_amount(&"-1".to_string()), None);
    assert_eq!(parse_amount(&"340282366920938463463374607431768211455".to_string()), Some(u128::MAX));
    assert_eq!(parse_amount(&"340282366920938463463374607431768211456".to_string()), None);
}

#[test]
fn amounts_write_in_decimal() {
    assert_eq!(amount_to_string(0), "0");
    assert_eq!(amount_to_string(1000), "1000");
    assert_eq!(amount_to_string(u128::MAX), "340282366920938463463374607431768211455");
    assert_eq!(parse_amount(&amount_to_string(987654321)), Some(987654321));
}

#[test]
fn arguments_are_json_objects() {
    assert_eq!(storage_deposit_args(&"bob.near".to_string()), "{\"account_id\":\"bob.near\"}");
    assert_eq!(
        ft_transfer_args(&"bob.near".to_string(), 100),
        "{\"amount\":\"100\",\"memo\":\"Keypom FT Tokens\",\"receiver_id\":\"bob.near\"}"
    );
    assert_eq!(
        nft_transfer_args(&"bob.near".to_string(), &"token#1".to_string()),
        "{\"receiver_id\":\"bob.near\",\"token_id\":\"token#1\"}"
    );
    assert_eq!(
        create_account_args(&"new.near".to_string(), &"ed25519:abc".to_string()),
        "{\"new_account_id\":\"new.near\",\"new_public_key\":\"ed25519:abc\"}"
    );
}

#[test]
fn arguments_escape_their_text() {
    assert_eq!(storage_deposit_args(&"a\"b\\c".to_string()), "{\"account_id\":\"a\\\"b\\\\c\"}");
    assert_eq!(
        nft_transfer_args(&"x".to_string(), &"line\nbreak".to_string()),
        "{\"receiver_id\":\"x\",\"token_id\":\"line\\nbreak\"}"
    );
}
