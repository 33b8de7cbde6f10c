//! Tokenized servers: the record of each leased server, the pure
//! transitions on it, and the token counter that hands out fresh ids.
//! Deployment orchestration itself is an external collaborator.

use vstd::prelude::*;

verus! {

/// The collections of tokenized servers.
#[derive(Debug, Clone, Copy, PartialEq, Eq, Structural)]
pub enum Collection {
    OwnAIv1,
}

impl Collection {
    /// The collection's stored name.
    pub fn to_str(&self) -> (r: &'static str)
        ensures
            r@ == "ownaiv1"@,
    {
        "ownaiv1"
    }
}

/// The chains servers are minted on.
#[derive(Debug, Clone, Copy, PartialEq, Eq, Structural)]
pub enum Chain {
    Base,
}

impl Chain {
    /// The chain's stored name.
    pub fn to_str(&self) -> (r: &'static str)
        ensures
            r@ == "base"@,
    {
        "base"
    }
}

/// Where a server is deployed, when it is.
#[derive(Debug, Clone, Copy, PartialEq, Eq, Structural)]
pub enum TokenizedServerDeployment {
    Hyperstack { id: u64 },
}

/// One tokenized server: its identity, its owner and controller, its
/// deployment, and when its lease expires.
#[derive(Debug, Clone, PartialEq)]
pub struct DatabaseTokenizedServer {
    pub collection: String,
    pub chain: String,
    pub token_id: String,
    pub owner: String,
    pub controller: String,
    pub deployment: Option<TokenizedServerDeployment>,
    pub expires: i64,
}

impl DatabaseTokenizedServer {
    /// Hands the server to a new owner.
    pub fn update_owner(&mut self, owner: String)
        ensures
            *final(self) == (DatabaseTokenizedServer { owner, ..*old(self) }),
    {
        self.owner = owner;
    }

    /// Hands control of the server to a new controller.
    pub fn update_controller(&mut self, controller: String)
        ensures
            *final(self) == (DatabaseTokenizedServer { controller, ..*old(self) }),
    {
        self.controller = controller;
    }

    /// Moves the lease's expiry.
    pub fn update_expires(&mut self, expires: i64)
        ensures
            *final(self) == (DatabaseTokenizedServer { expires, ..*old(self) }),
    {
        self.expires = expires;
    }

    /// Records where the server is deployed.
    pub fn deploy(&mut self, deployment: TokenizedServerDeployment)
        ensures
            *final(self) == (DatabaseTokenizedServer {
                deployment: Some(deployment),
                ..*old(self)
            }),
    {
        self.deployment = Some(deployment);
    }

    /// Clears the deployment record.
    pub fn undeploy(&mut self)
        ensures
            *final(self) == (DatabaseTokenizedServer { deployment: None, ..*old(self) }),
    {
        self.deployment = None;
    }

    /// A deployed server whose lease ran out, due for undeployment.
    pub fn is_deployed_expired(&self, now: i64) -> (r: bool)
        ensures
            r == (self.deployment is Some && self.expires < now),
    {
        self.deployment.is_some() && self.expires < now
    }

    /// A server whose lease is still running.
    pub fn is_not_expired(&self, now: i64) -> (r: bool)
        ensures
            r == (self.expires > now),
    {
        self.expires > now
    }
}

/// Hands out fresh token ids for newly minted servers, starting just past
/// the highest id seen in the store.
pub struct OwnAIV1TokenCounter {
    counter: i64,
}

impl OwnAIV1TokenCounter {
    /// The next id to hand out.
    pub closed spec fn value(self) -> int {
        self.counter as int
    }

    /// Starts counting after the highest existing token id, or at 1 for
    /// an empty collection.
    pub fn new(max_token_id: Option<i64>) -> (r: OwnAIV1TokenCounter)
        requires
            max_token_id matches Some(m) ==> m < i64::MAX,
        ensures
            r.value() == (match max_token_id {
                Some(m) => m + 1,
                None => 1,
            }),
    {
        let start = match max_token_id {
            Some(m) => m + 1,
            None => 1,
        };
        OwnAIV1TokenCounter { counter: start }
    }

    /// Takes the next id.
    pub fn next(&mut self) -> (r: i64)
        requires
            old(self).value() < i64::MAX,
        ensures
            r == old(self).value(),
            final(self).value() == old(self).value() + 1,
    {
        let id = self.counter;
        self.counter = self.counter + 1;
        id
    }
}

} // verus!
