//! Counter-signing of approved claims: the domain-separated structured
//! hash is assembled byte for byte here, and the custodied key signs it
//! without its bytes ever being returned to the caller.

use vstd::prelude::*;
use vstd::string::StringSliceAdditionalSpecFns;

use alloy_signer::SignerSync;

verus! {

use crate::custody::SecurePrivateKey;
use crate::errors::SecurityError;

/// The Keccak-256 digest of a byte string. A pure function of its input;
/// its pages-long definition is not restated here.
pub uninterp spec fn keccak_of(data: Seq<u8>) -> Seq<u8>;

/// The recoverable signature the local signer produces for a key string
/// and a 32-byte hash, or nothing when the key string does not parse (or
/// the hash is not 32 bytes). Deterministic signing: a pure function of
/// both inputs.
pub uninterp spec fn ecdsa_sign_of(key: Seq<u8>, hash: Seq<u8>) -> Option<Seq<u8>>;

/// Relies on alloy's keccak256.
#[verifier::external_body]
fn keccak256(data: &[u8]) -> (r: Vec<u8>)
    ensures
        r@ == keccak_of(data@),
        r@.len() == 32,
{
    alloy_primitives::keccak256(data).to_vec()
}

/// Relies on alloy's local signer: the key bytes are read as a hex key
/// string and the hash is signed with RFC 6979 deterministic nonces, so
/// the result depends on the key and hash alone.
#[verifier::external_body]
fn sign_hash_with_key(key_bytes: &[u8], hash: &Vec<u8>) -> (r: Option<Vec<u8>>)
    ensures
        r matches Some(sig) ==> ecdsa_sign_of(key_bytes@, hash@) == Some(sig@) && sig@.len()
            == 65,
        r is None ==> ecdsa_sign_of(key_bytes@, hash@) is None,
{
    if hash.len() != 32 {
        return None;
    }
    let key_str = core::str::from_utf8(key_bytes).ok()?;
    let signer: alloy_signer_local::PrivateKeySigner = key_str.parse().ok()?;
    let h = alloy_primitives::B256::from_slice(hash.as_slice());
    match signer.sign_hash_sync(&h) {
        Ok(sig) => Some(sig.as_bytes().to_vec()),
        Err(_) => None,
    }
}

/// The big-endian `n`-byte rendering of a value.
pub open spec fn spec_be_bytes(v: int, n: nat) -> Seq<u8>
    decreases n,
{
    if n == 0 {
        Seq::<u8>::empty()
    } else {
        spec_be_bytes(v / 256, (n - 1) as nat).push((v % 256) as u8)
    }
}

/// An address left-padded to an encoding word: 12 zero bytes, then the
/// 20 address bytes.
pub open spec fn spec_pad32_address(addr: Seq<u8>) -> Seq<u8> {
    Seq::new(12, |i: int| 0u8) + addr
}

/// The structured hash of one claim: the type hash of
/// `Claim(address claimer,uint256 total)` followed by both encoded
/// fields, digested.
pub open spec fn spec_claim_struct_hash(claimer: Seq<u8>, total: int) -> Seq<u8> {
    keccak_of(
        keccak_of("Claim(address claimer,uint256 total)".spec_bytes()) + spec_pad32_address(
            claimer,
        ) + spec_be_bytes(total, 32),
    )
}

/// The claim domain's separator: name `OpenxAIClaiming`, version `1`,
/// the chain, and the verifying contract.
pub open spec fn spec_claim_domain_separator(
    chain_id: int,
    verifying_contract: Seq<u8>,
) -> Seq<u8> {
    keccak_of(
        keccak_of(
            "EIP712Domain(string name,string version,uint256 chainId,address verifyingContract)".spec_bytes(),
        ) + keccak_of("OpenxAIClaiming".spec_bytes()) + keccak_of("1".spec_bytes())
            + spec_be_bytes(chain_id, 32) + spec_pad32_address(verifying_contract),
    )
}

/// The domain-separated signing hash of one claim.
pub open spec fn spec_claim_signing_hash(
    claimer: Seq<u8>,
    total: int,
    chain_id: int,
    verifying_contract: Seq<u8>,
) -> Seq<u8> {
    keccak_of(
        seq![0x19u8, 0x01u8] + spec_claim_domain_separator(chain_id, verifying_contract)
            + spec_claim_struct_hash(claimer, total),
    )
}

/// Appends a slice to a byte vector.
fn append_bytes(dst: &mut Vec<u8>, src: &[u8])
    ensures
        final(dst)@ == old(dst)@ + src@,
{
    let n = src.len();
    let mut i: usize = 0;
    while i < n
        invariant
            i <= n,
            n == src@.len(),
            dst@ == old(dst)@ + src@.subrange(0, i as int),
        decreases n - i,
    {
        dst.push(src[i]);
        proof {
            assert(dst@ =~= old(dst)@ + src@.subrange(0, i + 1));
        }
        i = i + 1;
    }
    proof {
        assert(dst@ =~= old(dst)@ + src@);
    }
}

/// Renders a value as `n` big-endian bytes.
fn be_bytes(v: u128, n: usize) -> (r: Vec<u8>)
    ensures
        r@ == spec_be_bytes(v as int, n as nat),
    decreases n,
{
    if n == 0 {
        Vec::new()
    } else {
        let mut r = be_bytes(v / 256, n - 1);
        r.push((v % 256) as u8);
        r
    }
}

/// An address left-padded to a 32-byte encoding word.
fn pad32_address(addr: &Vec<u8>) -> (r: Vec<u8>)
    requires
        addr@.len() == 20,
    ensures
        r@ == spec_pad32_address(addr@),
{
    let mut out: Vec<u8> = vec![0u8; 12];
    append_bytes(&mut out, addr.as_slice());
    proof {
        assert(out@ =~= spec_pad32_address(addr@));
    }
    out
}

/// Assembles the signing hash of one claim: `0x19 0x01`, the domain
/// separator, and the claim's structured hash, digested.
pub fn claim_signing_hash(
    claimer: &Vec<u8>,
    total: u128,
    chain_id: u64,
    verifying_contract: &Vec<u8>,
) -> (r: Vec<u8>)
    requires
        claimer@.len() == 20,
        verifying_contract@.len() == 20,
    ensures
        r@ == spec_claim_signing_hash(
            claimer@,
            total as int,
            chain_id as int,
            verifying_contract@,
        ),
        r@.len() == 32,
{
    let domain_type_hash = keccak256(
        "EIP712Domain(string name,string version,uint256 chainId,address verifyingContract)".as_bytes(),
    );
    let name_hash = keccak256("OpenxAIClaiming".as_bytes());
    let version_hash = keccak256("1".as_bytes());
    let mut domain_buf: Vec<u8> = Vec::new();
    append_bytes(&mut domain_buf, domain_type_hash.as_slice());
    append_bytes(&mut domain_buf, name_hash.as_slice());
    append_bytes(&mut domain_buf, version_hash.as_slice());
    let chain_word = be_bytes(chain_id as u128, 32);
    append_bytes(&mut domain_buf, chain_word.as_slice());
    let contract_word = pad32_address(verifying_contract);
    append_bytes(&mut domain_buf, contract_word.as_slice());
    let domain_separator = keccak256(domain_buf.as_slice());
    proof {
        assert(domain_separator@ == spec_claim_domain_separator(
            chain_id as int,
            verifying_contract@,
        )) by {
            assert(domain_buf@ =~= keccak_of(
                "EIP712Domain(string name,string version,uint256 chainId,address verifyingContract)".spec_bytes(),
            ) + keccak_of("OpenxAIClaiming".spec_bytes()) + keccak_of("1".spec_bytes())
                + spec_be_bytes(chain_id as int, 32) + spec_pad32_address(verifying_contract@));
        }
    }
    let type_hash = keccak256("Claim(address claimer,uint256 total)".as_bytes());
    let mut struct_buf: Vec<u8> = Vec::new();
    append_bytes(&mut struct_buf, type_hash.as_slice());
    let claimer_word = pad32_address(claimer);
    append_bytes(&mut struct_buf, claimer_word.as_slice());
    let total_word = be_bytes(total, 32);
    append_bytes(&mut struct_buf, total_word.as_slice());
    let struct_hash = keccak256(struct_buf.as_slice());
    proof {
        assert(struct_hash@ == spec_claim_struct_hash(claimer@, total as int)) by {
            assert(struct_buf@ =~= keccak_of("Claim(address claimer,uint256 total)".spec_bytes())
                + spec_pad32_address(claimer@) + spec_be_bytes(total as int, 32));
        }
    }
    let mut message: Vec<u8> = Vec::new();
    message.push(0x19);
    message.push(0x01);
    append_bytes(&mut message, domain_separator.as_slice());
    append_bytes(&mut message, struct_hash.as_slice());
    let out = keccak256(message.as_slice());
    proof {
        assert(message@ =~= seq![0x19u8, 0x01u8] + spec_claim_domain_separator(
            chain_id as int,
            verifying_contract@,
        ) + spec_claim_struct_hash(claimer@, total as int));
    }
    out
}

/// Signs a 32-byte hash with the custodied key. The key bytes are handed
/// only to the signer, inside the custodian's scoped access; the raw key
/// never reaches the caller.
pub fn sign_with_key(key: &SecurePrivateKey, hash: &Vec<u8>) -> (r: Result<Vec<u8>, SecurityError>)
    requires
        key.wf(),
    ensures
        (r == Err::<Vec<u8>, SecurityError>(SecurityError::MemoryCorruption))
            == !key.canaries_intact(),
        r matches Ok(sig) ==> ecdsa_sign_of(key.key_bytes(), hash@) == Some(sig@) && sig@.len()
            == 65,
        key.canaries_intact() && ecdsa_sign_of(key.key_bytes(), hash@) is Some ==> r is Ok,
        key.canaries_intact() && ecdsa_sign_of(key.key_bytes(), hash@) is None ==> r == Err::<
            Vec<u8>,
            SecurityError,
        >(SecurityError::InvalidInput),
{
    let operation = |bytes: &[u8]| -> (s: Option<Vec<u8>>)
        ensures
            (s matches Some(sig) ==> ecdsa_sign_of(bytes@, hash@) == Some(sig@) && sig@.len()
                == 65),
            (s is None ==> ecdsa_sign_of(bytes@, hash@) is None),
        {
            sign_hash_with_key(bytes, hash)
        };
    let result = key.with_key(operation);
    match result {
        Ok(Some(sig)) => Ok(sig),
        Ok(None) => Err(SecurityError::InvalidInput),
        Err(e) => Err(e),
    }
}

} // verus!
