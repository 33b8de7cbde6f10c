use openxai_indexer::rows::{
    DatabaseAgreement, DatabaseManualTokens, DatabaseParticipated, DatabasePromoCode,
    DatabaseStaking,
};
use openxai_indexer::servers::{
    Chain, Collection, DatabaseTokenizedServer, OwnAIV1TokenCounter, TokenizedServerDeployment,
};

fn sample_participation() -> DatabaseParticipated {
    DatabaseParticipated {
        tier: 2,
        account: "0xABC".to_string(),
        amount: 1_000_000,
        transaction_hash: "0xdead".to_string(),
        log_index: 0,
    }
}

fn sample_server() -> DatabaseTokenizedServer {
    DatabaseTokenizedServer {
        collection: "ownaiv1".to_string(),
        chain: "base".to_string(),
        token_id: "1".to_string(),
        owner: "0xOwner".to_string(),
        controller: "eth:Owner".to_string(),
        deployment: None,
        expires: 1_000,
    }
}

#[test]
fn test_claim_row_derivation() {
    let row = sample_participation().claim_row(1_700_000_000);
    assert_eq!(row.account, "0xABC");
    assert_eq!(row.amount, 9_708_700);
    assert_eq!(row.description, "Genesis participation 0xdead@0");
    assert_eq!(row.date, 1_700_000_000);
}

#[test]
fn test_credit_row_derivation() {
    let row = sample_participation().credit_row(1_700_000_000);
    assert_eq!(row.account, "0xABC");
    assert_eq!(row.credits, 90_000);
    assert_eq!(row.description, "Genesis participation 0xdead@0");
}

#[test]
fn test_promo_code_redeems_once() {
    let mut code = DatabasePromoCode {
        code: "WELCOME".to_string(),
        credits: 500,
        description: "welcome bonus".to_string(),
        redeemed_by: None,
    };
    assert!(code.redeem(&"0xAlice".to_string()));
    assert_eq!(code.redeemed_by.as_deref(), Some("0xAlice"));

    // A second redemption does not take and changes nothing
    assert!(!code.redeem(&"0xBob".to_string()));
    assert_eq!(code.redeemed_by.as_deref(), Some("0xAlice"));
}

#[test]
fn test_agreement_signs_once() {
    let mut agreement = DatabaseAgreement {
        id: 1,
        for_account: "0xAlice".to_string(),
        title: "terms".to_string(),
        description: "the terms".to_string(),
        created_at: 100,
        signed_at: None,
        signature: None,
    };
    assert!(agreement.sign(200, "0xsig".to_string()));
    assert_eq!(agreement.signed_at, Some(200));

    assert!(!agreement.sign(300, "0xother".to_string()));
    assert_eq!(agreement.signed_at, Some(200));
    assert_eq!(agreement.signature.as_deref(), Some("0xsig"));
}

#[test]
fn test_manual_tokens_release() {
    let mut grant = DatabaseManualTokens {
        account: "0xAlice".to_string(),
        amount: 10,
        description: "grant".to_string(),
        release_after: 500,
        approval_signature: "0xsig".to_string(),
        released: false,
    };
    assert!(grant.is_releasable(400));
    assert!(!grant.is_releasable(600));
    grant.release();
    assert!(grant.released);
    assert!(!grant.is_releasable(400));
}

#[test]
fn test_staking_claim_row() {
    let reward = DatabaseStaking {
        account: "0xOwner".to_string(),
        amount: 12,
        collection: "ownaiv1".to_string(),
        chain: "base".to_string(),
        token_id: "3".to_string(),
        date: 900,
    };
    let row = reward.claim_row();
    assert_eq!(row.account, "0xOwner");
    assert_eq!(row.amount, 12);
    assert_eq!(row.description, "Staking rewards for ownaiv1@base@3");
    assert_eq!(row.date, 900);
}

#[test]
fn test_manual_tokens_claim_row() {
    let grant = DatabaseManualTokens {
        account: "0xAlice".to_string(),
        amount: 10,
        description: "community work".to_string(),
        release_after: 500,
        approval_signature: "0xsig".to_string(),
        released: true,
    };
    let row = grant.claim_row(1_000);
    assert_eq!(row.amount, 10);
    assert_eq!(row.description, "Manual token reward for community work");
    assert_eq!(row.date, 1_000);
}

#[test]
fn test_collection_and_chain_names() {
    assert_eq!(Collection::OwnAIv1.to_str(), "ownaiv1");
    assert_eq!(Chain::Base.to_str(), "base");
}

#[test]
fn test_server_transitions() {
    let mut server = sample_server();

    server.update_owner("0xNew".to_string());
    assert_eq!(server.owner, "0xNew");

    server.update_controller("eth:New".to_string());
    assert_eq!(server.controller, "eth:New");

    server.deploy(TokenizedServerDeployment::Hyperstack { id: 7 });
    assert_eq!(
        server.deployment,
        Some(TokenizedServerDeployment::Hyperstack { id: 7 })
    );
    assert!(server.is_deployed_expired(2_000));
    assert!(!server.is_deployed_expired(500));

    server.update_expires(3_000);
    assert!(server.is_not_expired(2_500));

    server.undeploy();
    assert_eq!(server.deployment, None);
    assert!(!server.is_deployed_expired(9_999));
}

#[test]
fn test_token_counter() {
    let mut counter = OwnAIV1TokenCounter::new(Some(5));
    assert_eq!(counter.next(), 6);
    assert_eq!(counter.next(), 7);

    let mut fresh = OwnAIV1TokenCounter::new(None);
    assert_eq!(fresh.next(), 1);
}
