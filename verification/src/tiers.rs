use vstd::prelude::*;

verus! {

/// Fixed-point scale of the multiplier tables: a multiplier of 9.7087 is
/// stored as 97087 ten-thousandths.
pub const MULTIPLIER_SCALE: u64 = 10000;

/// Claim multiplier for a participation tier, in ten-thousandths.
/// Tiers outside [0, 15] map to 0.
pub open spec fn spec_claim_multiplier(tier: int) -> int {
    if tier == 0 {
        100000
    } else if tier == 1 {
        98522
    } else if tier == 2 {
        97087
    } else if tier == 3 {
        95694
    } else if tier == 4 {
        94340
    } else if tier == 5 {
        93023
    } else if tier == 6 {
        91743
    } else if tier == 7 {
        90498
    } else if tier == 8 {
        89286
    } else if tier == 9 {
        88106
    } else if tier == 10 {
        86957
    } else if tier == 11 {
        85837
    } else if tier == 12 {
        84746
    } else if tier == 13 {
        83682
    } else if tier == 14 {
        82645
    } else if tier == 15 {
        80000
    } else {
        0
    }
}

/// Credit multiplier for a participation tier, in ten-thousandths.
/// Tiers outside [0, 15] map to 0, and tier 15 itself earns no credits.
pub open spec fn spec_credit_multiplier(tier: int) -> int {
    if tier == 0 {
        1559
    } else if tier == 1 {
        1102
    } else if tier == 2 {
        900
    } else if tier == 3 {
        780
    } else if tier == 4 {
        697
    } else if tier == 5 {
        637
    } else if tier == 6 {
        589
    } else if tier == 7 {
        551
    } else if tier == 8 {
        520
    } else if tier == 9 {
        493
    } else if tier == 10 {
        470
    } else if tier == 11 {
        450
    } else if tier == 12 {
        432
    } else if tier == 13 {
        417
    } else if tier == 14 {
        403
    } else {
        0
    }
}

/// Claim multiplier lookup, in ten-thousandths.
pub fn claim_multiplier(tier: i64) -> (r: u64)
    ensures
        r == spec_claim_multiplier(tier as int),
{
    match tier {
        0 => 100000,
        1 => 98522,
        2 => 97087,
        3 => 95694,
        4 => 94340,
        5 => 93023,
        6 => 91743,
        7 => 90498,
        8 => 89286,
        9 => 88106,
        10 => 86957,
        11 => 85837,
        12 => 84746,
        13 => 83682,
        14 => 82645,
        15 => 80000,
        _ => 0,
    }
}

/// Credit multiplier lookup, in ten-thousandths.
pub fn credit_multiplier(tier: i64) -> (r: u64)
    ensures
        r == spec_credit_multiplier(tier as int),
{
    match tier {
        0 => 1559,
        1 => 1102,
        2 => 900,
        3 => 780,
        4 => 697,
        5 => 637,
        6 => 589,
        7 => 551,
        8 => 520,
        9 => 493,
        10 => 470,
        11 => 450,
        12 => 432,
        13 => 417,
        14 => 403,
        _ => 0,
    }
}

/// The claim amount a participation event earns: the event amount scaled by
/// the tier's claim multiplier, truncated toward zero, and capped at the
/// widest value the ledger column can hold.
pub open spec fn spec_derive_claim(amount: int, tier: int) -> int {
    let scaled = (amount * spec_claim_multiplier(tier)) / (MULTIPLIER_SCALE as int);
    if scaled > i64::MAX as int {
        i64::MAX as int
    } else {
        scaled
    }
}

/// The credit amount a participation event earns, by the credit column of
/// the same table.
pub open spec fn spec_derive_credit(amount: int, tier: int) -> int {
    let scaled = (amount * spec_credit_multiplier(tier)) / (MULTIPLIER_SCALE as int);
    if scaled > i64::MAX as int {
        i64::MAX as int
    } else {
        scaled
    }
}

/// `amount * claim_multiplier[tier]`, truncated toward zero.
pub fn derive_claim(amount: i64, tier: i64) -> (r: i64)
    requires
        amount >= 0,
    ensures
        r == spec_derive_claim(amount as int, tier as int),
        r >= 0,
{
    let m = claim_multiplier(tier);
    let product: i128 = (amount as i128) * (m as i128);
    proof {
        assert(product <= i64::MAX * 100000 && product >= 0) by (nonlinear_arith)
            requires
                product == amount * spec_claim_multiplier(tier as int),
                0 <= amount <= i64::MAX,
                0 <= spec_claim_multiplier(tier as int) <= 100000,
        ;
    }
    let scaled: i128 = product / (MULTIPLIER_SCALE as i128);
    if scaled > i64::MAX as i128 {
        i64::MAX
    } else {
        scaled as i64
    }
}

/// `amount * credit_multiplier[tier]`, truncated toward zero.
pub fn derive_credit(amount: i64, tier: i64) -> (r: i64)
    requires
        amount >= 0,
    ensures
        r == spec_derive_credit(amount as int, tier as int),
        r >= 0,
{
    let m = credit_multiplier(tier);
    let product: i128 = (amount as i128) * (m as i128);
    proof {
        assert(product <= i64::MAX * 100000 && product >= 0) by (nonlinear_arith)
            requires
                product == amount * spec_credit_multiplier(tier as int),
                0 <= amount <= i64::MAX,
                0 <= spec_credit_multiplier(tier as int) <= 100000,
        ;
    }
    let scaled: i128 = product / (MULTIPLIER_SCALE as i128);
    if scaled > i64::MAX as i128 {
        i64::MAX
    } else {
        scaled as i64
    }
}

/// The claim multiplier table decays: a higher tier never earns a larger
/// multiplier than a lower one.
pub proof fn lemma_claim_multiplier_non_increasing(t1: int, t2: int)
    requires
        0 <= t1 <= t2 <= 15,
    ensures
        spec_claim_multiplier(t1) >= spec_claim_multiplier(t2),
{
}

/// The credit multiplier table decays in the same way.
pub proof fn lemma_credit_multiplier_non_increasing(t1: int, t2: int)
    requires
        0 <= t1 <= t2 <= 15,
    ensures
        spec_credit_multiplier(t1) >= spec_credit_multiplier(t2),
{
}

/// Any tier outside [0, 15] earns nothing, on both columns.
pub proof fn lemma_multiplier_outside_range_is_zero(tier: int)
    requires
        tier < 0 || tier > 15,
    ensures
        spec_claim_multiplier(tier) == 0,
        spec_credit_multiplier(tier) == 0,
        forall|amount: int| spec_derive_claim(amount, tier) == 0,
        forall|amount: int| spec_derive_credit(amount, tier) == 0,
{
    assert forall|amount: int| spec_derive_claim(amount, tier) == 0 by {
        assert(amount * 0 == 0);
    }
    assert forall|amount: int| spec_derive_credit(amount, tier) == 0 by {
        assert(amount * 0 == 0);
    }
}

} // verus!
