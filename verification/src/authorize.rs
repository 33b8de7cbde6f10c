//! The authorization engine: given a claimed account, a message and a
//! signature, decide whether the account authorized the message. Key-held
//! accounts are checked by signer recovery; programmable accounts by the
//! standardized read-only validation call, whose network round trip the
//! embedding application performs between the steps here.

use vstd::prelude::*;

use core::str::FromStr;

verus! {

use crate::text::bytes_eq;

/// What parsing a signature string yields: the 65-byte raw form, or
/// nothing for a malformed string. A pure function of the string.
pub uninterp spec fn sig_parse_of(s: Seq<char>) -> Option<Seq<u8>>;

/// What parsing a checksummed account string yields: the 20 address
/// bytes, or nothing for a malformed or mis-checksummed string.
pub uninterp spec fn addr_parse_of(s: Seq<char>) -> Option<Seq<u8>>;

/// The address recovered from a personal-message signature over the
/// given message text, or nothing when recovery fails. A pure function
/// of message and signature bytes.
pub uninterp spec fn recover_of(message: Seq<char>, signature: Seq<u8>) -> Option<Seq<u8>>;

/// The standard personal-message hash of a message text.
pub uninterp spec fn eip191_of(message: Seq<char>) -> Seq<u8>;

/// Relies on alloy's Signature parsing (FromStr): a hex signature string
/// becomes its 65-byte r, s, v form; a malformed string is rejected.
#[verifier::external_body]
fn parse_signature(s: &str) -> (r: Option<Vec<u8>>)
    ensures
        r matches Some(b) ==> sig_parse_of(s@) == Some(b@) && b@.len() == 65,
        r is None ==> sig_parse_of(s@) is None,
{
    match alloy_primitives::Signature::from_str(s) {
        Ok(sig) => Some(sig.as_bytes().to_vec()),
        Err(_) => None,
    }
}

/// Relies on alloy's Address::parse_checksummed: a checksummed account
/// string becomes its 20 address bytes; a malformed or mis-checksummed
/// string is rejected.
#[verifier::external_body]
fn parse_checksummed_address(s: &str) -> (r: Option<Vec<u8>>)
    ensures
        r matches Some(b) ==> addr_parse_of(s@) == Some(b@) && b@.len() == 20,
        r is None ==> addr_parse_of(s@) is None,
{
    match alloy_primitives::Address::parse_checksummed(s, None) {
        Ok(a) => Some(a.as_slice().to_vec()),
        Err(_) => None,
    }
}

/// Relies on alloy's Signature::recover_address_from_msg: recovers the
/// signer address from a personal-message signature, deterministically in
/// message and signature bytes.
#[verifier::external_body]
fn recover_eoa_signer(message: &str, signature: &Vec<u8>) -> (r: Option<Vec<u8>>)
    requires
        signature@.len() == 65,
    ensures
        r matches Some(b) ==> recover_of(message@, signature@) == Some(b@) && b@.len() == 20,
        r is None ==> recover_of(message@, signature@) is None,
{
    let sig = alloy_primitives::Signature::from_raw(signature.as_slice()).ok()?;
    match sig.recover_address_from_msg(message) {
        Ok(a) => Some(a.as_slice().to_vec()),
        Err(_) => None,
    }
}

/// Relies on alloy's eip191_hash_message: the standard 32-byte
/// personal-message hash of a message text.
#[verifier::external_body]
fn eip191_hash(message: &str) -> (r: Vec<u8>)
    ensures
        r@ == eip191_of(message@),
        r@.len() == 32,
{
    alloy_primitives::eip191_hash_message(message).to_vec()
}

/// A parsed authorization request: the claimed account's address bytes
/// and the signature's raw bytes.
#[derive(Debug, Clone, PartialEq)]
pub struct AuthRequest {
    pub account: Vec<u8>,
    pub signature: Vec<u8>,
}

impl AuthRequest {
    /// Shapes of a parsed request: 20 address bytes, 65 signature bytes.
    pub open spec fn wf(self) -> bool {
        self.account@.len() == 20 && self.signature@.len() == 65
    }
}

/// Parses the claimed account and the signature string; either being
/// malformed rejects the request before anything else is looked at.
pub fn parse_auth_request(account: &str, signature: &str) -> (r: Option<AuthRequest>)
    ensures
        r is Some <==> (sig_parse_of(signature@) is Some && addr_parse_of(account@) is Some),
        r matches Some(q) ==> {
            &&& q.wf()
            &&& addr_parse_of(account@) == Some(q.account@)
            &&& sig_parse_of(signature@) == Some(q.signature@)
        },
{
    let sig = match parse_signature(signature) {
        Some(s) => s,
        None => {
            return None;
        },
    };
    let addr = match parse_checksummed_address(account) {
        Some(a) => a,
        None => {
            return None;
        },
    };
    Some(AuthRequest { account: addr, signature: sig })
}

/// Key-held account validation: the message's recovered signer must be
/// exactly the claimed account.
pub fn validate_eoa_signature(account: &Vec<u8>, message: &str, signature: &Vec<u8>) -> (r: bool)
    requires
        signature@.len() == 65,
    ensures
        r == (recover_of(message@, signature@) == Some(account@)),
{
    match recover_eoa_signer(message, signature) {
        Some(signer) => bytes_eq(signer.as_slice(), account.as_slice()),
        None => false,
    }
}

/// What the engine decides once the account's on-chain code is known.
pub enum AuthorizationStep {
    /// The request is denied; no further work is needed.
    Reject,
    /// A key-held account signed the message; the request is authorized.
    Accept,
    /// A programmable account: the embedding application must make the
    /// standardized read-only validation call with these arguments and
    /// hand its result to [`erc1271_accepts`].
    ContractCall { account: Vec<u8>, message_hash: Vec<u8>, signature: Vec<u8> },
}

/// Decides a parsed request against the account's fetched on-chain code.
/// No code answer (a provider error) fails closed; empty code means a
/// key-held account, decided here by signer recovery; non-empty code
/// defers to the account's own validation method.
pub fn validate_signature_with_code(
    request: &AuthRequest,
    message: &str,
    code: &Option<Vec<u8>>,
) -> (r: AuthorizationStep)
    requires
        request.wf(),
    ensures
        code is None ==> r == AuthorizationStep::Reject,
        (code matches Some(c) && c@.len() == 0) ==> r == (if recover_of(message@, request.signature@)
            == Some(request.account@) {
            AuthorizationStep::Accept
        } else {
            AuthorizationStep::Reject
        }),
        (code matches Some(c) && c@.len() > 0) ==> (r matches AuthorizationStep::ContractCall {
            account,
            message_hash,
            signature,
        } && account@ == request.account@ && message_hash@ == eip191_of(message@) && signature@
            == request.signature@),
{
    match code {
        None => AuthorizationStep::Reject,
        Some(c) => {
            if c.len() == 0 {
                if validate_eoa_signature(&request.account, message, &request.signature) {
                    AuthorizationStep::Accept
                } else {
                    AuthorizationStep::Reject
                }
            } else {
                let account = clone_bytes(&request.account);
                let signature = clone_bytes(&request.signature);
                let message_hash = eip191_hash(message);
                AuthorizationStep::ContractCall { account, message_hash, signature }
            }
        },
    }
}

/// Copies a byte vector.
fn clone_bytes(v: &Vec<u8>) -> (r: Vec<u8>)
    ensures
        r@ == v@,
{
    let mut out: Vec<u8> = Vec::new();
    let n = v.len();
    let mut i: usize = 0;
    while i < n
        invariant
            i <= n,
            n == v@.len(),
            out@ == v@.subrange(0, i as int),
        decreases n - i,
    {
        out.push(v[i]);
        proof {
            assert(out@ =~= v@.subrange(0, i + 1));
        }
        i = i + 1;
    }
    proof {
        assert(out@ =~= v@);
    }
    out
}

/// The standardized validation call authorizes the request exactly when
/// it returned the fixed 4-byte magic value; any other value, or a failed
/// call, denies it.
pub fn erc1271_accepts(result: &Option<Vec<u8>>) -> (r: bool)
    ensures
        r == (result matches Some(v) && v@ == seq![0x16u8, 0x26u8, 0xbau8, 0x7eu8]),
{
    match result {
        Some(v) => {
            if v.len() == 4 && v[0] == 0x16 && v[1] == 0x26 && v[2] == 0xba && v[3] == 0x7e {
                proof {
                    assert(v@ =~= seq![0x16u8, 0x26u8, 0xbau8, 0x7eu8]);
                }
                true
            } else {
                proof {
                    if v@ == seq![0x16u8, 0x26u8, 0xbau8, 0x7eu8] {
                        assert(v@.len() == 4);
                        assert(v@[0] == 0x16u8);
                        assert(v@[1] == 0x26u8);
                        assert(v@[2] == 0xbau8);
                        assert(v@[3] == 0x7eu8);
                    }
                }
                false
            }
        },
        None => false,
    }
}

} // verus!
