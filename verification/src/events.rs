//! Decoding of raw on-chain logs into ledger rows. Decoding failures are
//! per-event: the one event is reported and dropped, the stream goes on.

use vstd::prelude::*;

verus! {

use crate::amounts::{to_6_decimals_i64, u256_to_i64, Uint256, DECIMAL_RESCALE};
use crate::rows::{DatabaseCredits, DatabaseParticipated, DatabaseTokensClaimed};
use crate::text::bytes_eq;

/// Why one raw log could not become a ledger row.
#[derive(Debug, Clone, Copy, PartialEq, Eq, Structural)]
pub enum DecodeError {
    /// The tier does not fit the ledger's 64-bit signed representation.
    TierOutOfRange,
    /// The amount does not fit the ledger's 64-bit signed representation.
    AmountOutOfRange,
    /// The log carries no transaction hash.
    MissingTransactionHash,
    /// The log carries no log index.
    MissingLogIndex,
    /// The log index does not fit the ledger's 64-bit signed
    /// representation.
    LogIndexOutOfRange,
    /// A transfer whose recipient is not the deposit address reached the
    /// deposit stream.
    NotDepositRecipient,
}

/// Decodes a genesis participation log. Each field is narrowed or checked
/// in turn; the first field that fails names the error.
pub fn decode_participated(
    tier: &Uint256,
    account: String,
    amount: &Uint256,
    transaction_hash: Option<String>,
    log_index: Option<u64>,
) -> (r: Result<DatabaseParticipated, DecodeError>)
    ensures
        (r == Err::<DatabaseParticipated, DecodeError>(DecodeError::TierOutOfRange)) == (
        tier.value() > i64::MAX as int),
        (r == Err::<DatabaseParticipated, DecodeError>(DecodeError::AmountOutOfRange)) == (
        tier.value() <= i64::MAX as int && amount.value() > i64::MAX as int),
        (r == Err::<DatabaseParticipated, DecodeError>(DecodeError::MissingTransactionHash)) == (
        tier.value() <= i64::MAX as int && amount.value() <= i64::MAX as int && transaction_hash
            is None),
        (r == Err::<DatabaseParticipated, DecodeError>(DecodeError::MissingLogIndex)) == (
        tier.value() <= i64::MAX as int && amount.value() <= i64::MAX as int && transaction_hash
            is Some && log_index is None),
        (r == Err::<DatabaseParticipated, DecodeError>(DecodeError::LogIndexOutOfRange)) == (
        tier.value() <= i64::MAX as int && amount.value() <= i64::MAX as int && transaction_hash
            is Some && (log_index matches Some(li) && li > i64::MAX as u64)),
        r matches Ok(ev) ==> {
            &&& ev.tier == tier.value()
            &&& ev.account@ == account@
            &&& ev.amount == amount.value()
            &&& ev.amount >= 0
            &&& Some(ev.transaction_hash) == transaction_hash
            &&& log_index matches Some(li) && ev.log_index == li
        },
        r is Ok <==> (tier.value() <= i64::MAX as int && amount.value() <= i64::MAX as int
            && transaction_hash is Some && (log_index matches Some(li) && li
            <= i64::MAX as u64)),
{
    let tier_i64 = match u256_to_i64(tier) {
        Some(t) => t,
        None => {
            return Err(DecodeError::TierOutOfRange);
        },
    };
    let amount_i64 = match u256_to_i64(amount) {
        Some(a) => a,
        None => {
            return Err(DecodeError::AmountOutOfRange);
        },
    };
    let transaction_hash = match transaction_hash {
        Some(h) => h,
        None => {
            return Err(DecodeError::MissingTransactionHash);
        },
    };
    let log_index_i64: i64 = match log_index {
        Some(li) => {
            if li > i64::MAX as u64 {
                return Err(DecodeError::LogIndexOutOfRange);
            } else {
                li as i64
            }
        },
        None => {
            return Err(DecodeError::MissingLogIndex);
        },
    };
    Ok(
        DatabaseParticipated {
            tier: tier_i64,
            account,
            amount: amount_i64,
            transaction_hash,
            log_index: log_index_i64,
        },
    )
}

/// Decodes a token-claim log. The chain reports `total` and `released`
/// in 18-decimal precision; both are rescaled to the ledger's 6 decimals
/// before narrowing.
pub fn decode_tokens_claimed(
    account: String,
    total: &Uint256,
    released: &Uint256,
    transaction_hash: Option<String>,
    log_index: Option<u64>,
) -> (r: Result<DatabaseTokensClaimed, DecodeError>)
    ensures
        (r == Err::<DatabaseTokensClaimed, DecodeError>(DecodeError::AmountOutOfRange)) == (
        total.value() / (DECIMAL_RESCALE as int) > i64::MAX as int || (total.value() / (
        DECIMAL_RESCALE as int) <= i64::MAX as int && released.value() / (DECIMAL_RESCALE as int)
            > i64::MAX as int)),
        (r == Err::<DatabaseTokensClaimed, DecodeError>(DecodeError::MissingTransactionHash)) == (
        total.value() / (DECIMAL_RESCALE as int) <= i64::MAX as int && released.value() / (
        DECIMAL_RESCALE as int) <= i64::MAX as int && transaction_hash is None),
        (r == Err::<DatabaseTokensClaimed, DecodeError>(DecodeError::MissingLogIndex)) == (
        total.value() / (DECIMAL_RESCALE as int) <= i64::MAX as int && released.value() / (
        DECIMAL_RESCALE as int) <= i64::MAX as int && transaction_hash is Some && log_index
            is None),
        (r == Err::<DatabaseTokensClaimed, DecodeError>(DecodeError::LogIndexOutOfRange)) == (
        total.value() / (DECIMAL_RESCALE as int) <= i64::MAX as int && released.value() / (
        DECIMAL_RESCALE as int) <= i64::MAX as int && transaction_hash is Some && (log_index
            matches Some(li) && li > i64::MAX as u64)),
        r matches Ok(ev) ==> {
            &&& ev.account@ == account@
            &&& ev.total == total.value() / (DECIMAL_RESCALE as int)
            &&& ev.released == released.value() / (DECIMAL_RESCALE as int)
            &&& Some(ev.transaction_hash) == transaction_hash
            &&& log_index matches Some(li) && ev.log_index == li
        },
        r is Ok <==> (total.value() / (DECIMAL_RESCALE as int) <= i64::MAX as int
            && released.value() / (DECIMAL_RESCALE as int) <= i64::MAX as int && transaction_hash
            is Some && (log_index matches Some(li) && li <= i64::MAX as u64)),
{
    let total_i64 = match to_6_decimals_i64(total) {
        Some(t) => t,
        None => {
            return Err(DecodeError::AmountOutOfRange);
        },
    };
    let released_i64 = match to_6_decimals_i64(released) {
        Some(v) => v,
        None => {
            return Err(DecodeError::AmountOutOfRange);
        },
    };
    let transaction_hash = match transaction_hash {
        Some(h) => h,
        None => {
            return Err(DecodeError::MissingTransactionHash);
        },
    };
    let log_index_i64: i64 = match log_index {
        Some(li) => {
            if li > i64::MAX as u64 {
                return Err(DecodeError::LogIndexOutOfRange);
            } else {
                li as i64
            }
        },
        None => {
            return Err(DecodeError::MissingLogIndex);
        },
    };
    Ok(
        DatabaseTokensClaimed {
            account,
            total: total_i64,
            released: released_i64,
            transaction_hash,
            log_index: log_index_i64,
        },
    )
}

/// Decodes one stablecoin transfer into a credit purchase: only
/// transfers to the deposit address count, and the transferred value must
/// fit the ledger's signed column.
pub fn decode_credit_deposit(
    from: String,
    to: &[u8],
    deposit: &[u8],
    value: &Uint256,
    date: i64,
) -> (r: Result<DatabaseCredits, DecodeError>)
    ensures
        (r == Err::<DatabaseCredits, DecodeError>(DecodeError::NotDepositRecipient)) == (to@
            != deposit@),
        (r == Err::<DatabaseCredits, DecodeError>(DecodeError::AmountOutOfRange)) == (to@
            == deposit@ && value.value() > i64::MAX as int),
        r matches Ok(row) ==> {
            &&& to@ == deposit@
            &&& row.account@ == from@
            &&& row.credits == value.value()
            &&& row.description@ == "USDC deposit on base"@
            &&& row.date == date
        },
        r is Ok <==> (to@ == deposit@ && value.value() <= i64::MAX as int),
{
    if !bytes_eq(to, deposit) {
        return Err(DecodeError::NotDepositRecipient);
    }
    let amount = match u256_to_i64(value) {
        Some(a) => a,
        None => {
            return Err(DecodeError::AmountOutOfRange);
        },
    };
    Ok(
        DatabaseCredits {
            account: from,
            credits: amount,
            description: String::from_str("USDC deposit on base"),
            date,
        },
    )
}

/// The all-zero address, from which freshly minted tokens arrive.
pub fn is_zero_address(address: &[u8]) -> (r: bool)
    ensures
        r == (address@.len() == 20 && forall|i: int|
            0 <= i < address@.len() ==> address@[i] == 0u8),
{
    if address.len() != 20 {
        return false;
    }
    let mut i: usize = 0;
    while i < 20
        invariant
            i <= 20,
            address@.len() == 20,
            forall|j: int| 0 <= j < i ==> address@[j] == 0u8,
        decreases 20 - i,
    {
        if address[i] != 0 {
            return false;
        }
        i = i + 1;
    }
    true
}

} // verus!
