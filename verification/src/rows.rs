//! The ledger's record types and the pure transitions on them. Durable
//! storage is an external collaborator: these types carry the values and
//! the rules; the embedding application moves them in and out of its store.

use vstd::prelude::*;

verus! {

use crate::text::{
    genesis_description, manual_token_description, spec_genesis_description,
    spec_manual_token_description, spec_staking_description, staking_description,
};
use crate::tiers::{derive_claim, derive_credit, spec_derive_claim, spec_derive_credit};

/// A decoded genesis participation event. Immutable once observed; the
/// pair `(transaction_hash, log_index)` is its natural dedup key.
#[derive(Debug, Clone, PartialEq)]
pub struct DatabaseParticipated {
    pub tier: i64,
    pub account: String,
    pub amount: i64,
    pub transaction_hash: String,
    pub log_index: i64,
}

/// A decoded token-claim event, keyed like a participation event.
#[derive(Debug, Clone, PartialEq)]
pub struct DatabaseTokensClaimed {
    pub account: String,
    pub total: i64,
    pub released: i64,
    pub transaction_hash: String,
    pub log_index: i64,
}

/// A claimable-amount row derived from an event.
#[derive(Debug, Clone, PartialEq)]
pub struct DatabaseClaim {
    pub account: String,
    pub amount: i64,
    pub description: String,
    pub date: i64,
}

/// A credit-balance row derived from an event.
#[derive(Debug, Clone, PartialEq)]
pub struct DatabaseCredits {
    pub account: String,
    pub credits: i64,
    pub description: String,
    pub date: i64,
}

/// A per-account running total, maintained by an additive upsert.
#[derive(Debug, Clone, PartialEq)]
pub struct DatabaseClaimer {
    pub claimer: String,
    pub total: i64,
}

/// A staking reward row for one tokenized server.
#[derive(Debug, Clone, PartialEq)]
pub struct DatabaseStaking {
    pub account: String,
    pub amount: i64,
    pub collection: String,
    pub chain: String,
    pub token_id: String,
    pub date: i64,
}

/// A manually granted token reward, released on a schedule.
#[derive(Debug, Clone, PartialEq)]
pub struct DatabaseManualTokens {
    pub account: String,
    pub amount: i64,
    pub description: String,
    pub release_after: i64,
    pub approval_signature: String,
    pub released: bool,
}

/// A single-use promo code worth a fixed number of credits.
#[derive(Debug, Clone, PartialEq)]
pub struct DatabasePromoCode {
    pub code: String,
    pub credits: i64,
    pub description: String,
    pub redeemed_by: Option<String>,
}

/// An agreement offered to an account, signed at most once.
#[derive(Debug, Clone, PartialEq)]
pub struct DatabaseAgreement {
    pub id: i32,
    pub for_account: String,
    pub title: String,
    pub description: String,
    pub created_at: i64,
    pub signed_at: Option<i64>,
    pub signature: Option<String>,
}

/// A record of one application deployment, optionally signed by the
/// deployer.
#[derive(Debug, Clone, PartialEq)]
pub struct DatabaseDeploymentSignature {
    pub xnode: String,
    pub app: String,
    pub version: String,
    pub deployer: Option<String>,
    pub signature: Option<String>,
    pub date: i64,
}

impl DatabaseParticipated {
    /// The claim row this event derives: the event amount scaled by the
    /// tier's claim multiplier, under the event's dedup-key description.
    pub fn claim_row(&self, date: i64) -> (r: DatabaseClaim)
        requires
            self.amount >= 0,
        ensures
            r.account@ == self.account@,
            r.amount == spec_derive_claim(self.amount as int, self.tier as int),
            r.description@ == spec_genesis_description(
                self.transaction_hash@,
                self.log_index as int,
            ),
            r.date == date,
    {
        DatabaseClaim {
            account: self.account.clone(),
            amount: derive_claim(self.amount, self.tier),
            description: genesis_description(self.transaction_hash.as_str(), self.log_index),
            date,
        }
    }

    /// The credits row this event derives, by the credit column of the
    /// same table.
    pub fn credit_row(&self, date: i64) -> (r: DatabaseCredits)
        requires
            self.amount >= 0,
        ensures
            r.account@ == self.account@,
            r.credits == spec_derive_credit(self.amount as int, self.tier as int),
            r.description@ == spec_genesis_description(
                self.transaction_hash@,
                self.log_index as int,
            ),
            r.date == date,
    {
        DatabaseCredits {
            account: self.account.clone(),
            credits: derive_credit(self.amount, self.tier),
            description: genesis_description(self.transaction_hash.as_str(), self.log_index),
            date,
        }
    }
}

impl DatabaseStaking {
    /// The claim row a staking reward becomes: the reward amount as-is,
    /// under the server's identity, at the reward's own date.
    pub fn claim_row(&self) -> (r: DatabaseClaim)
        ensures
            r.account@ == self.account@,
            r.amount == self.amount,
            r.description@ == spec_staking_description(
                self.collection@,
                self.chain@,
                self.token_id@,
            ),
            r.date == self.date,
    {
        DatabaseClaim {
            account: self.account.clone(),
            amount: self.amount,
            description: staking_description(
                self.collection.as_str(),
                self.chain.as_str(),
                self.token_id.as_str(),
            ),
            date: self.date,
        }
    }
}

impl DatabaseManualTokens {
    /// The claim row a released grant becomes: the granted amount as-is,
    /// under the grant's description.
    pub fn claim_row(&self, date: i64) -> (r: DatabaseClaim)
        ensures
            r.account@ == self.account@,
            r.amount == self.amount,
            r.description@ == spec_manual_token_description(self.description@),
            r.date == date,
    {
        DatabaseClaim {
            account: self.account.clone(),
            amount: self.amount,
            description: manual_token_description(self.description.as_str()),
            date,
        }
    }

    /// Whether the hourly distribution run picks this grant up, following
    /// the store's own selection: not yet released, with `release_after`
    /// still ahead of the given clock reading.
    pub fn is_releasable(&self, now: i64) -> (r: bool)
        ensures
            r == (self.release_after > now && !self.released),
    {
        self.release_after > now && !self.released
    }

    /// Marks the grant released.
    pub fn release(&mut self)
        ensures
            *final(self) == (DatabaseManualTokens { released: true, ..*old(self) }),
    {
        self.released = true;
    }
}

impl DatabasePromoCode {
    /// Redeems the code for `account`, only when nobody redeemed it
    /// before; reports whether the redemption took effect.
    pub fn redeem(&mut self, account: &String) -> (took: bool)
        ensures
            took == (old(self).redeemed_by is None),
            took ==> *final(self) == (DatabasePromoCode {
                redeemed_by: Some(*account),
                ..*old(self)
            }),
            !took ==> *final(self) == *old(self),
    {
        match &self.redeemed_by {
            Some(_) => false,
            None => {
                self.redeemed_by = Some(account.clone());
                proof {
                    assert(final(self).redeemed_by matches Some(a) && a@ == account@);
                }
                true
            },
        }
    }
}

impl DatabaseAgreement {
    /// Records the account's signature, only when the agreement is still
    /// unsigned; reports whether the signature was recorded.
    pub fn sign(&mut self, signed_at: i64, signature: String) -> (took: bool)
        ensures
            took == (old(self).signature is None),
            took ==> *final(self) == (DatabaseAgreement {
                signed_at: Some(signed_at),
                signature: Some(signature),
                ..*old(self)
            }),
            !took ==> *final(self) == *old(self),
    {
        match &self.signature {
            Some(_) => false,
            None => {
                self.signed_at = Some(signed_at);
                self.signature = Some(signature);
                true
            },
        }
    }
}

} // verus!
