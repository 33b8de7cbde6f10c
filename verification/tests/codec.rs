use openxai_indexer::amounts::{to_18_decimals, to_6_decimals_i64, u256_to_i64, Uint256};
use openxai_indexer::config::{
    chainid, database, hostname, hyperstackapikey, is_hex_key, manualtokensigner, ownaiv1price,
    parse_i64, parse_u64, port, subdomaindistributor,
};
use openxai_indexer::events::{
    decode_credit_deposit, decode_participated, decode_tokens_claimed, is_zero_address,
    DecodeError,
};
use openxai_indexer::text::{genesis_description, i64_to_string, str_to_xnode_user, u64_to_string};

#[test]
fn test_parse_u64_cases() {
    assert_eq!(parse_u64("0"), Some(0));
    assert_eq!(parse_u64("8453"), Some(8453));
    assert_eq!(parse_u64("+42"), Some(42));
    assert_eq!(parse_u64("18446744073709551615"), Some(u64::MAX));
    assert_eq!(parse_u64("18446744073709551616"), None);
    assert_eq!(parse_u64(""), None);
    assert_eq!(parse_u64("+"), None);
    assert_eq!(parse_u64("-1"), None);
    assert_eq!(parse_u64("12a"), None);
    assert_eq!(parse_u64(" 1"), None);
}

#[test]
fn test_parse_i64_cases() {
    assert_eq!(parse_i64("0"), Some(0));
    assert_eq!(parse_i64("-5"), Some(-5));
    assert_eq!(parse_i64("+5"), Some(5));
    assert_eq!(parse_i64("9223372036854775807"), Some(i64::MAX));
    assert_eq!(parse_i64("9223372036854775808"), None);
    assert_eq!(parse_i64("-9223372036854775808"), Some(i64::MIN));
    assert_eq!(parse_i64("-9223372036854775809"), None);
    assert_eq!(parse_i64("-"), None);
    assert_eq!(parse_i64("five"), None);
}

#[test]
fn test_config_defaults() {
    assert_eq!(hostname(None), "0.0.0.0");
    assert_eq!(port(None), "36092");
    assert_eq!(database(None), "postgres:openxai-indexer?host=/run/postgresql");
    assert_eq!(
        subdomaindistributor(None),
        "http://subdomain-distributor.local:42923"
    );
    assert_eq!(chainid(None), 8453);
    assert_eq!(chainid(Some("10")), 10);
    assert_eq!(chainid(Some("not-a-number")), 8453);
    assert_eq!(ownaiv1price(None), 100_000_000);
    assert_eq!(ownaiv1price(Some("250")), 250);
    assert_eq!(ownaiv1price(Some("x")), 100_000_000);
}

#[test]
fn test_config_overrides() {
    assert_eq!(hostname(Some("10.0.0.1".to_string())), "10.0.0.1");
    assert_eq!(port(Some("8080".to_string())), "8080");
    assert_eq!(manualtokensigner(Some("0xSigner".to_string())), "0xSigner");
    assert_eq!(hyperstackapikey(Some("key".to_string())), "key");
}

#[test]
fn test_is_hex_key() {
    let bare = "0123456789abcdef0123456789abcdef0123456789abcdef0123456789ABCDEF";
    assert!(is_hex_key(bare));
    assert!(is_hex_key(&format!("0x{bare}")));
    assert!(!is_hex_key(&bare[1..]));
    assert!(!is_hex_key(&format!("0y{bare}")));
    assert!(!is_hex_key(
        "0123456789abcdef0123456789abcdef0123456789abcdef0123456789abcdeg"
    ));
    assert!(!is_hex_key(""));
}

#[test]
fn test_number_rendering() {
    assert_eq!(u64_to_string(0), "0");
    assert_eq!(u64_to_string(12345), "12345");
    assert_eq!(i64_to_string(-42), "-42");
    assert_eq!(i64_to_string(7), "7");
    assert_eq!(i64_to_string(i64::MIN), "-9223372036854775808");
}

#[test]
fn test_genesis_description_format() {
    assert_eq!(
        genesis_description("0xdead", 0),
        "Genesis participation 0xdead@0"
    );
}

#[test]
fn test_str_to_xnode_user() {
    assert_eq!(str_to_xnode_user("0xABC"), "eth:ABC");
    assert_eq!(str_to_xnode_user("no-prefix"), "no-prefix");
    assert_eq!(str_to_xnode_user("a0xb0xc"), "aeth:beth:c");
    assert_eq!(str_to_xnode_user(""), "");
}

#[test]
fn test_u256_narrowing() {
    assert_eq!(u256_to_i64(&Uint256::from_u128(12345)), Some(12345));
    assert_eq!(
        u256_to_i64(&Uint256::from_u128(i64::MAX as u128)),
        Some(i64::MAX)
    );
    assert_eq!(u256_to_i64(&Uint256::from_u128(i64::MAX as u128 + 1)), None);
    assert_eq!(u256_to_i64(&Uint256 { hi: 1, lo: 0 }), None);
}

#[test]
fn test_decimal_rescaling() {
    // 5 tokens at 18 decimals become 5_000_000 at 6 decimals
    let five_tokens = Uint256::from_u128(5_000_000_000_000_000_000u128);
    assert_eq!(to_6_decimals_i64(&five_tokens), Some(5_000_000));

    // truncation toward zero
    let dust = Uint256::from_u128(999_999_999_999u128);
    assert_eq!(to_6_decimals_i64(&dust), Some(0));

    // too large even after rescaling
    let huge = Uint256 { hi: 1, lo: 0 };
    assert_eq!(to_6_decimals_i64(&huge), None);

    assert_eq!(to_18_decimals(5_000_000), 5_000_000_000_000_000_000u128);
    assert_eq!(to_18_decimals(0), 0);
}

#[test]
fn test_decode_participated_ok() {
    let ev = decode_participated(
        &Uint256::from_u128(2),
        "0xABC".to_string(),
        &Uint256::from_u128(1_000_000),
        Some("0xdead".to_string()),
        Some(0),
    )
    .unwrap();
    assert_eq!(ev.tier, 2);
    assert_eq!(ev.account, "0xABC");
    assert_eq!(ev.amount, 1_000_000);
    assert_eq!(ev.transaction_hash, "0xdead");
    assert_eq!(ev.log_index, 0);
}

#[test]
fn test_decode_participated_errors() {
    let small = Uint256::from_u128(1);
    let too_big = Uint256 { hi: 1, lo: 0 };

    assert_eq!(
        decode_participated(&too_big, "a".into(), &small, Some("h".into()), Some(0)),
        Err(DecodeError::TierOutOfRange)
    );
    assert_eq!(
        decode_participated(&small, "a".into(), &too_big, Some("h".into()), Some(0)),
        Err(DecodeError::AmountOutOfRange)
    );
    assert_eq!(
        decode_participated(&small, "a".into(), &small, None, Some(0)),
        Err(DecodeError::MissingTransactionHash)
    );
    assert_eq!(
        decode_participated(&small, "a".into(), &small, Some("h".into()), None),
        Err(DecodeError::MissingLogIndex)
    );
    assert_eq!(
        decode_participated(&small, "a".into(), &small, Some("h".into()), Some(u64::MAX)),
        Err(DecodeError::LogIndexOutOfRange)
    );
}

#[test]
fn test_decode_tokens_claimed_rescales() {
    let ev = decode_tokens_claimed(
        "0xABC".to_string(),
        &Uint256::from_u128(7_000_000_000_000_000_000u128),
        &Uint256::from_u128(2_000_000_000_000_000_000u128),
        Some("0xfeed".to_string()),
        Some(3),
    )
    .unwrap();
    assert_eq!(ev.total, 7_000_000);
    assert_eq!(ev.released, 2_000_000);
    assert_eq!(ev.log_index, 3);
}

#[test]
fn test_decode_tokens_claimed_out_of_range() {
    let ok = Uint256::from_u128(1_000_000_000_000u128);
    let huge = Uint256 { hi: 2, lo: 0 };
    assert_eq!(
        decode_tokens_claimed("a".into(), &huge, &ok, Some("h".into()), Some(0)),
        Err(DecodeError::AmountOutOfRange)
    );
}

#[test]
fn test_decode_credit_deposit() {
    let deposit = [0x0Du8; 20];
    let row = decode_credit_deposit(
        "0xBuyer".to_string(),
        &deposit,
        &deposit,
        &Uint256::from_u128(25_000_000),
        1_700_000_000,
    )
    .unwrap();
    assert_eq!(row.account, "0xBuyer");
    assert_eq!(row.credits, 25_000_000);
    assert_eq!(row.description, "USDC deposit on base");
    assert_eq!(row.date, 1_700_000_000);

    // A transfer to any other recipient does not count
    let other = [0x0Eu8; 20];
    assert_eq!(
        decode_credit_deposit(
            "0xBuyer".to_string(),
            &other,
            &deposit,
            &Uint256::from_u128(1),
            0
        ),
        Err(DecodeError::NotDepositRecipient)
    );

    // A value past the ledger's column does not fit
    assert_eq!(
        decode_credit_deposit(
            "0xBuyer".to_string(),
            &deposit,
            &deposit,
            &Uint256 { hi: 3, lo: 9 },
            0
        ),
        Err(DecodeError::AmountOutOfRange)
    );
}

#[test]
fn test_is_zero_address() {
    assert!(is_zero_address(&[0u8; 20]));
    let mut nonzero = [0u8; 20];
    nonzero[19] = 1;
    assert!(!is_zero_address(&nonzero));
    assert!(!is_zero_address(&[0u8; 19]));
}
