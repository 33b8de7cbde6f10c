use alloy_primitives::keccak256;
use alloy_signer::SignerSync;
use alloy_signer_local::PrivateKeySigner;

use openxai_indexer::authorize::{
    erc1271_accepts, parse_auth_request, validate_eoa_signature, validate_signature_with_code,
    AuthorizationStep,
};
use openxai_indexer::custody::SecurePrivateKey;
use openxai_indexer::signing::{claim_signing_hash, sign_with_key};

fn test_signer() -> PrivateKeySigner {
    let key_bytes: [u8; 32] = [
        0x01, 0x23, 0x45, 0x67, 0x89, 0xab, 0xcd, 0xef, 0x01, 0x23, 0x45, 0x67, 0x89, 0xab, 0xcd,
        0xef, 0x01, 0x23, 0x45, 0x67, 0x89, 0xab, 0xcd, 0xef, 0x01, 0x23, 0x45, 0x67, 0x89, 0xab,
        0xcd, 0xef,
    ];
    PrivateKeySigner::from_slice(&key_bytes).unwrap()
}

#[test]
fn test_eoa_validation_accepts_signer() {
    let signer = test_signer();
    let message = "authorize this mutation";
    let signature = signer.sign_message_sync(message.as_bytes()).unwrap();
    let sig_bytes = signature.as_bytes().to_vec();
    let account = signer.address().as_slice().to_vec();

    assert!(validate_eoa_signature(&account, message, &sig_bytes));
}

#[test]
fn test_eoa_validation_rejects_other_account() {
    let signer = test_signer();
    let message = "authorize this mutation";
    let signature = signer.sign_message_sync(message.as_bytes()).unwrap();
    let sig_bytes = signature.as_bytes().to_vec();

    let mut other_account = signer.address().as_slice().to_vec();
    other_account[19] ^= 0x01;

    assert!(!validate_eoa_signature(&other_account, message, &sig_bytes));
}

#[test]
fn test_eoa_validation_rejects_tampered_message() {
    let signer = test_signer();
    let signature = signer
        .sign_message_sync("authorize this mutation".as_bytes())
        .unwrap();
    let sig_bytes = signature.as_bytes().to_vec();
    let account = signer.address().as_slice().to_vec();

    assert!(!validate_eoa_signature(&account, "authorize that mutation", &sig_bytes));
}

#[test]
fn test_validate_signature_rejects_garbage_signature() {
    // The literal malformed signature is rejected at the parse step, with
    // no error escaping to the caller
    let account = "0xd8dA6BF26964aF9D7eEd9e03E53415D37aA96045";
    assert!(parse_auth_request(account, "not-a-signature").is_none());
}

#[test]
fn test_parse_auth_request_rejects_bad_checksum() {
    let signer = test_signer();
    let signature = signer.sign_message_sync(b"m").unwrap();
    let sig_str = format!("0x{}", alloy_primitives::hex::encode(signature.as_bytes()));

    // All-lowercase address fails the checksum test
    let bad = "0xd8da6bf26964af9d7eed9e03e53415d37aa96045";
    assert!(parse_auth_request(bad, &sig_str).is_none());
}

#[test]
fn test_parse_auth_request_accepts_valid_input() {
    let signer = test_signer();
    let signature = signer.sign_message_sync(b"m").unwrap();
    let sig_str = format!("0x{}", alloy_primitives::hex::encode(signature.as_bytes()));
    let account_str = signer.address().to_checksum(None);

    let request = parse_auth_request(&account_str, &sig_str).unwrap();
    assert_eq!(request.account, signer.address().as_slice().to_vec());
    assert_eq!(request.signature, signature.as_bytes().to_vec());
}

#[test]
fn test_empty_code_takes_key_holder_path() {
    let signer = test_signer();
    let message = "gate this request";
    let signature = signer.sign_message_sync(message.as_bytes()).unwrap();
    let sig_str = format!("0x{}", alloy_primitives::hex::encode(signature.as_bytes()));
    let account_str = signer.address().to_checksum(None);
    let request = parse_auth_request(&account_str, &sig_str).unwrap();

    let step = validate_signature_with_code(&request, message, &Some(Vec::new()));
    assert!(matches!(step, AuthorizationStep::Accept));

    let step = validate_signature_with_code(&request, "another message", &Some(Vec::new()));
    assert!(matches!(step, AuthorizationStep::Reject));
}

#[test]
fn test_provider_error_fails_closed() {
    let signer = test_signer();
    let message = "gate this request";
    let signature = signer.sign_message_sync(message.as_bytes()).unwrap();
    let sig_str = format!("0x{}", alloy_primitives::hex::encode(signature.as_bytes()));
    let account_str = signer.address().to_checksum(None);
    let request = parse_auth_request(&account_str, &sig_str).unwrap();

    let step = validate_signature_with_code(&request, message, &None);
    assert!(matches!(step, AuthorizationStep::Reject));
}

#[test]
fn test_contract_account_defers_to_validation_call() {
    let signer = test_signer();
    let message = "gate this request";
    let signature = signer.sign_message_sync(message.as_bytes()).unwrap();
    let sig_str = format!("0x{}", alloy_primitives::hex::encode(signature.as_bytes()));
    let account_str = signer.address().to_checksum(None);
    let request = parse_auth_request(&account_str, &sig_str).unwrap();

    let code = Some(vec![0x60, 0x80, 0x60, 0x40]);
    match validate_signature_with_code(&request, message, &code) {
        AuthorizationStep::ContractCall { account, message_hash, signature: sig } => {
            assert_eq!(account, signer.address().as_slice().to_vec());
            assert_eq!(
                message_hash,
                alloy_primitives::eip191_hash_message(message).to_vec()
            );
            assert_eq!(sig, signature.as_bytes().to_vec());
        },
        _ => panic!("a contract account must defer to the validation call"),
    }
}

#[test]
fn test_erc1271_magic_value_decides() {
    // success iff the returned 4 bytes equal the fixed magic constant
    assert!(erc1271_accepts(&Some(vec![0x16, 0x26, 0xba, 0x7e])));
    assert!(!erc1271_accepts(&Some(vec![0x16, 0x26, 0xba, 0x7f])));
    assert!(!erc1271_accepts(&Some(vec![0x16, 0x26, 0xba])));
    assert!(!erc1271_accepts(&Some(Vec::new())));
    assert!(!erc1271_accepts(&None));
}

#[test]
fn test_sign_with_key_produces_recoverable_signature() {
    // The custodied key is a hex key string; all 16 hex symbols occur, so
    // it passes the entropy screen
    let key_string = b"0123456789abcdef0123456789abcdef0123456789abcdef0123456789abcdef";
    let custodian = SecurePrivateKey::new(key_string).unwrap();

    let claimer = vec![0x11u8; 20];
    let contract = vec![0x22u8; 20];
    let hash = claim_signing_hash(&claimer, 1_000_000_000_000_000_000u128, 8453, &contract);

    let signature = sign_with_key(&custodian, &hash).unwrap();
    assert_eq!(signature.len(), 65);

    // The signature recovers to the address of the same key
    let expected_signer: PrivateKeySigner =
        core::str::from_utf8(key_string).unwrap().parse().unwrap();
    let sig = alloy_primitives::Signature::from_raw(&signature).unwrap();
    let recovered = sig
        .recover_address_from_prehash(&alloy_primitives::B256::from_slice(&hash))
        .unwrap();
    assert_eq!(recovered, expected_signer.address());
}

#[test]
fn test_claim_signing_hash_matches_manual_assembly() {
    let claimer = vec![0xABu8; 20];
    let contract = vec![0xCDu8; 20];
    let chain_id: u64 = 8453;
    let total: u128 = 42;

    let domain_type_hash = keccak256(
        "EIP712Domain(string name,string version,uint256 chainId,address verifyingContract)"
            .as_bytes(),
    );
    let mut domain = Vec::new();
    domain.extend_from_slice(domain_type_hash.as_slice());
    domain.extend_from_slice(keccak256("OpenxAIClaiming".as_bytes()).as_slice());
    domain.extend_from_slice(keccak256("1".as_bytes()).as_slice());
    let mut chain_word = [0u8; 32];
    chain_word[24..].copy_from_slice(&chain_id.to_be_bytes());
    domain.extend_from_slice(&chain_word);
    let mut contract_word = [0u8; 32];
    contract_word[12..].copy_from_slice(&contract);
    domain.extend_from_slice(&contract_word);
    let domain_separator = keccak256(&domain);

    let mut claim = Vec::new();
    claim.extend_from_slice(keccak256("Claim(address claimer,uint256 total)".as_bytes()).as_slice());
    let mut claimer_word = [0u8; 32];
    claimer_word[12..].copy_from_slice(&claimer);
    claim.extend_from_slice(&claimer_word);
    let mut total_word = [0u8; 32];
    total_word[16..].copy_from_slice(&total.to_be_bytes());
    claim.extend_from_slice(&total_word);
    let struct_hash = keccak256(&claim);

    let mut message = vec![0x19u8, 0x01u8];
    message.extend_from_slice(domain_separator.as_slice());
    message.extend_from_slice(struct_hash.as_slice());
    let expected = keccak256(&message).to_vec();

    assert_eq!(
        claim_signing_hash(&claimer, total, chain_id, &contract),
        expected
    );
}
