//! The idempotent ledger: each chain event is recorded exactly once under
//! its natural dedup key `(transaction_hash, log_index)`, and per-account
//! running totals are maintained by an additive, conflict-resolved upsert.

use vstd::prelude::*;

verus! {

use crate::rows::{DatabaseClaimer, DatabaseParticipated};
use crate::tiers::{derive_claim, derive_credit, spec_derive_claim, spec_derive_credit};

/// The events seen so far contain this dedup key.
pub open spec fn spec_contains_key(
    events: Seq<DatabaseParticipated>,
    transaction_hash: Seq<char>,
    log_index: int,
) -> bool {
    exists|i: int|
        0 <= i < events.len() && #[trigger] events[i].transaction_hash@ == transaction_hash
            && events[i].log_index == log_index
}

/// No two recorded events share a dedup key.
pub open spec fn spec_unique_keys(events: Seq<DatabaseParticipated>) -> bool {
    forall|i: int, j: int|
        0 <= i < j < events.len() ==> !(#[trigger] events[i].transaction_hash@
            == #[trigger] events[j].transaction_hash@ && events[i].log_index
            == events[j].log_index)
}

/// Each account owns at most one running-total row.
pub open spec fn spec_unique_accounts(totals: Seq<DatabaseClaimer>) -> bool {
    forall|i: int, j: int|
        0 <= i < j < totals.len() ==> #[trigger] totals[i].claimer@ != #[trigger] totals[j].claimer@
}

/// Whether an account owns a running-total row.
pub open spec fn spec_has_account(totals: Seq<DatabaseClaimer>, account: Seq<char>) -> bool
    decreases totals.len(),
{
    if totals.len() == 0 {
        false
    } else if totals[0].claimer@ == account {
        true
    } else {
        spec_has_account(totals.drop_first(), account)
    }
}

/// The running total recorded for an account; an account without a row
/// stands at zero.
pub open spec fn spec_total_in(totals: Seq<DatabaseClaimer>, account: Seq<char>) -> int
    decreases totals.len(),
{
    if totals.len() == 0 {
        0
    } else if totals[0].claimer@ == account {
        totals[0].total as int
    } else {
        spec_total_in(totals.drop_first(), account)
    }
}

/// The ledger's abstract state: the dedup keys seen, and both families of
/// per-account totals.
#[verifier::ext_equal]
pub ghost struct LedgerModel {
    pub keys: Set<(Seq<char>, int)>,
    pub claims: Map<Seq<char>, int>,
    pub credits: Map<Seq<char>, int>,
}

/// A total map brought up to date by one additive write: the delta lands
/// on the account unless the sum would leave the storable range, in which
/// case that single write is dropped (and nothing else changes).
pub open spec fn spec_apply_delta(m: Map<Seq<char>, int>, account: Seq<char>, delta: int) -> Map<
    Seq<char>,
    int,
> {
    let current = if m.dom().contains(account) {
        m[account]
    } else {
        0
    };
    if current + delta <= i64::MAX as int {
        m.insert(account, current + delta)
    } else {
        m
    }
}

/// One event applied to the abstract ledger state: a key already seen
/// changes nothing at all; a new key is recorded and both derived amounts
/// are added to the account's totals.
pub open spec fn spec_ledger_insert(
    m: LedgerModel,
    tier: int,
    account: Seq<char>,
    amount: int,
    transaction_hash: Seq<char>,
    log_index: int,
) -> LedgerModel {
    let k = (transaction_hash, log_index);
    if m.keys.contains(k) {
        m
    } else {
        LedgerModel {
            keys: m.keys.insert(k),
            claims: spec_apply_delta(m.claims, account, spec_derive_claim(amount, tier)),
            credits: spec_apply_delta(m.credits, account, spec_derive_credit(amount, tier)),
        }
    }
}

/// Redelivery changes nothing: applying the same event twice leaves the
/// abstract ledger state exactly as applying it once does.
pub proof fn lemma_ledger_insert_idempotent(
    m: LedgerModel,
    tier: int,
    account: Seq<char>,
    amount: int,
    transaction_hash: Seq<char>,
    log_index: int,
)
    ensures
        spec_ledger_insert(
            spec_ledger_insert(m, tier, account, amount, transaction_hash, log_index),
            tier,
            account,
            amount,
            transaction_hash,
            log_index,
        ) == spec_ledger_insert(m, tier, account, amount, transaction_hash, log_index),
{
    let once = spec_ledger_insert(m, tier, account, amount, transaction_hash, log_index);
    assert(once.keys.contains((transaction_hash, log_index)));
}

proof fn lemma_total_in_first_match(totals: Seq<DatabaseClaimer>, account: Seq<char>, i: int)
    requires
        0 <= i < totals.len(),
        totals[i].claimer@ == account,
        forall|j: int| 0 <= j < i ==> #[trigger] totals[j].claimer@ != account,
    ensures
        spec_has_account(totals, account),
        spec_total_in(totals, account) == totals[i].total as int,
    decreases totals.len(),
{
    if i > 0 {
        lemma_total_in_first_match(totals.drop_first(), account, i - 1);
    }
}

proof fn lemma_total_in_absent(totals: Seq<DatabaseClaimer>, account: Seq<char>)
    requires
        forall|j: int| 0 <= j < totals.len() ==> #[trigger] totals[j].claimer@ != account,
    ensures
        !spec_has_account(totals, account),
        spec_total_in(totals, account) == 0,
    decreases totals.len(),
{
    if totals.len() > 0 {
        lemma_total_in_absent(totals.drop_first(), account);
    }
}

proof fn lemma_total_in_update(
    totals: Seq<DatabaseClaimer>,
    i: int,
    row: DatabaseClaimer,
    account: Seq<char>,
)
    requires
        0 <= i < totals.len(),
        row.claimer@ == totals[i].claimer@,
        forall|j: int| 0 <= j < i ==> #[trigger] totals[j].claimer@ != totals[i].claimer@,
    ensures
        spec_has_account(totals.update(i, row), account) == spec_has_account(totals, account),
        spec_total_in(totals.update(i, row), account) == if account == row.claimer@ {
            row.total as int
        } else {
            spec_total_in(totals, account)
        },
    decreases totals.len(),
{
    if i == 0 {
        assert(totals.update(i, row).drop_first() =~= totals.drop_first());
    } else {
        assert(totals.update(i, row).drop_first() =~= totals.drop_first().update(i - 1, row));
        lemma_total_in_update(totals.drop_first(), i - 1, row, account);
    }
}

proof fn lemma_total_in_push(totals: Seq<DatabaseClaimer>, row: DatabaseClaimer, account: Seq<char>)
    ensures
        spec_has_account(totals.push(row), account) == (spec_has_account(totals, account)
            || account == row.claimer@),
        spec_total_in(totals.push(row), account) == if spec_has_account(totals, account) {
            spec_total_in(totals, account)
        } else if account == row.claimer@ {
            row.total as int
        } else {
            0
        },
    decreases totals.len(),
{
    let pushed = totals.push(row);
    if totals.len() == 0 {
        assert(pushed.len() == 1);
        assert(pushed[0] == row);
        assert(pushed.drop_first() =~= Seq::<DatabaseClaimer>::empty());
        assert(!spec_has_account(pushed.drop_first(), account));
        assert(spec_total_in(pushed.drop_first(), account) == 0);
        assert(!spec_has_account(totals, account));
        assert(spec_total_in(totals, account) == 0);
    } else {
        assert(pushed[0] == totals[0]);
        assert(pushed.drop_first() =~= totals.drop_first().push(row));
        lemma_total_in_push(totals.drop_first(), row, account);
    }
}

/// The running totals realize the abstract additive write: reading the
/// rows after an upsert is reading the map after `spec_apply_delta`.
proof fn lemma_upsert_matches_apply_delta(
    old_totals: Seq<DatabaseClaimer>,
    new_totals: Seq<DatabaseClaimer>,
    account: Seq<char>,
    delta: int,
    applied: bool,
)
    requires
        applied == (spec_total_in(old_totals, account) + delta <= i64::MAX as int),
        !applied ==> new_totals == old_totals,
        applied ==> spec_total_in(new_totals, account) == spec_total_in(old_totals, account)
            + delta && spec_has_account(new_totals, account) && (forall|a: Seq<char>|
            a != account ==> spec_total_in(new_totals, a) == spec_total_in(old_totals, a)
                && spec_has_account(new_totals, a) == spec_has_account(old_totals, a)),
    ensures
        Map::new(
            |a: Seq<char>| spec_has_account(new_totals, a),
            |a: Seq<char>| spec_total_in(new_totals, a),
        ) =~= spec_apply_delta(
            Map::new(
                |a: Seq<char>| spec_has_account(old_totals, a),
                |a: Seq<char>| spec_total_in(old_totals, a),
            ),
            account,
            delta,
        ),
{
    let lhs = Map::new(
        |a: Seq<char>| spec_has_account(new_totals, a),
        |a: Seq<char>| spec_total_in(new_totals, a),
    );
    let m = Map::new(
        |a: Seq<char>| spec_has_account(old_totals, a),
        |a: Seq<char>| spec_total_in(old_totals, a),
    );
    let rhs = spec_apply_delta(m, account, delta);
    if !spec_has_account(old_totals, account) {
        lemma_total_in_absent_value(old_totals, account);
    }
    let current = if m.dom().contains(account) {
        m[account]
    } else {
        0
    };
    assert(current == spec_total_in(old_totals, account));
    if applied {
        assert(rhs =~= m.insert(account, current + delta));
        assert forall|a: Seq<char>| lhs.dom().contains(a) == rhs.dom().contains(a) by {
            if a != account {
                assert(spec_has_account(new_totals, a) == spec_has_account(old_totals, a));
            }
        }
        assert(lhs.dom() =~= rhs.dom());
        assert forall|a: Seq<char>| rhs.dom().contains(a) implies lhs[a] == rhs[a] by {
            if a != account {
                assert(spec_total_in(new_totals, a) == spec_total_in(old_totals, a));
            }
        }
        assert(lhs =~= rhs);
    } else {
        assert(lhs =~= m);
        assert(rhs =~= m);
    }
}

/// Reports whether this dedup key was seen already.
fn has_key(events: &Vec<DatabaseParticipated>, transaction_hash: &String, log_index: i64) -> (r:
    bool)
    ensures
        r == spec_contains_key(events@, transaction_hash@, log_index as int),
{
    let n = events.len();
    let mut i: usize = 0;
    while i < n
        invariant
            i <= n,
            n == events@.len(),
            forall|j: int|
                0 <= j < i ==> !(#[trigger] events@[j].transaction_hash@ == transaction_hash@
                    && events@[j].log_index == log_index),
        decreases n - i,
    {
        if events[i].transaction_hash == *transaction_hash && events[i].log_index == log_index {
            return true;
        }
        i = i + 1;
    }
    false
}

/// Finds the index of an account's running-total row, scanning in order.
fn find_account(totals: &Vec<DatabaseClaimer>, account: &String) -> (r: Option<usize>)
    ensures
        r matches Some(i) ==> 0 <= i < totals@.len() && totals@[i as int].claimer@ == account@
            && (forall|j: int| 0 <= j < i ==> #[trigger] totals@[j].claimer@ != account@),
        r is None ==> forall|j: int|
            0 <= j < totals@.len() ==> #[trigger] totals@[j].claimer@ != account@,
{
    let n = totals.len();
    let mut i: usize = 0;
    while i < n
        invariant
            i <= n,
            n == totals@.len(),
            forall|j: int| 0 <= j < i ==> #[trigger] totals@[j].claimer@ != account@,
        decreases n - i,
    {
        if totals[i].claimer == *account {
            return Some(i);
        }
        i = i + 1;
    }
    None
}

/// The additive, conflict-resolved upsert: adds `delta` to the account's
/// running total, creating the row when absent. A sum that would leave
/// the storable range is dropped whole and reported.
fn upsert_add(totals: &mut Vec<DatabaseClaimer>, account: &String, delta: i64) -> (applied: bool)
    requires
        spec_unique_accounts(old(totals)@),
        delta >= 0,
    ensures
        spec_unique_accounts(final(totals)@),
        applied == (spec_total_in(old(totals)@, account@) + delta <= i64::MAX as int),
        !applied ==> final(totals)@ == old(totals)@,
        applied ==> {
            &&& spec_total_in(final(totals)@, account@) == spec_total_in(old(totals)@, account@)
                + delta
            &&& spec_has_account(final(totals)@, account@)
            &&& forall|a: Seq<char>|
                a != account@ ==> spec_total_in(final(totals)@, a) == spec_total_in(
                    old(totals)@,
                    a,
                ) && spec_has_account(final(totals)@, a) == spec_has_account(old(totals)@, a)
        },
{
    match find_account(totals, account) {
        Some(i) => {
            proof {
                lemma_total_in_first_match(totals@, account@, i as int);
            }
            let current: i64 = totals[i].total;
            match current.checked_add(delta) {
                Some(next) => {
                    let name = totals[i].claimer.clone();
                    let row = DatabaseClaimer { claimer: name, total: next };
                    totals[i] = row;
                    proof {
                        assert forall|a: Seq<char>| true implies {
                            &&& spec_total_in(final(totals)@, a) == if a == account@ {
                                next as int
                            } else {
                                spec_total_in(old(totals)@, a)
                            }
                            &&& spec_has_account(final(totals)@, a) == spec_has_account(
                                old(totals)@,
                                a,
                            )
                        } by {
                            lemma_total_in_update(old(totals)@, i as int, row, a);
                        }
                    }
                    true
                },
                None => false,
            }
        },
        None => {
            proof {
                lemma_total_in_absent(totals@, account@);
            }
            let row = DatabaseClaimer { claimer: account.clone(), total: delta };
            totals.push(row);
            proof {
                assert forall|a: Seq<char>| true implies {
                    &&& spec_total_in(final(totals)@, a) == if a == account@ {
                        delta as int
                    } else {
                        spec_total_in(old(totals)@, a)
                    }
                    &&& spec_has_account(final(totals)@, a) == (spec_has_account(old(totals)@, a)
                        || a == account@)
                } by {
                    lemma_total_in_push(old(totals)@, row, a);
                    if a != account@ && spec_has_account(old(totals)@, a) {
                    } else if a != account@ {
                        lemma_total_in_absent_value(old(totals)@, a);
                    }
                }
            }
            true
        },
    }
}

/// An account without a row, by the recursive reading, stands at zero.
proof fn lemma_total_in_absent_value(totals: Seq<DatabaseClaimer>, account: Seq<char>)
    requires
        !spec_has_account(totals, account),
    ensures
        spec_total_in(totals, account) == 0,
    decreases totals.len(),
{
    if totals.len() > 0 {
        lemma_total_in_absent_value(totals.drop_first(), account);
    }
}

/// What one attempted insert reports: the key was seen before and nothing
/// happened, or the event was recorded, with a flag per aggregate family
/// saying whether its additive write fit the storable range.
#[derive(Debug, Clone, Copy, PartialEq, Eq, Structural)]
pub enum InsertOutcome {
    Duplicate,
    Inserted { claim_applied: bool, credit_applied: bool },
}

/// The ledger: recorded events plus both families of per-account running
/// totals.
pub struct Ledger {
    events: Vec<DatabaseParticipated>,
    claim_totals: Vec<DatabaseClaimer>,
    credit_totals: Vec<DatabaseClaimer>,
}

impl Ledger {
    /// Internal consistency: dedup keys and total rows are unique.
    pub closed spec fn wf(self) -> bool {
        &&& spec_unique_keys(self.events@)
        &&& spec_unique_accounts(self.claim_totals@)
        &&& spec_unique_accounts(self.credit_totals@)
    }

    /// The events recorded so far, in arrival order.
    pub closed spec fn events_view(self) -> Seq<DatabaseParticipated> {
        self.events@
    }

    /// This dedup key was recorded already.
    pub open spec fn spec_has_event(self, transaction_hash: Seq<char>, log_index: int) -> bool {
        spec_contains_key(self.events_view(), transaction_hash, log_index)
    }

    /// The account's claim running total.
    pub closed spec fn spec_claim_total(self, account: Seq<char>) -> int {
        spec_total_in(self.claim_totals@, account)
    }

    /// The account's credit running total.
    pub closed spec fn spec_credit_total(self, account: Seq<char>) -> int {
        spec_total_in(self.credit_totals@, account)
    }

    /// The abstract state this ledger realizes.
    pub closed spec fn model(self) -> LedgerModel {
        LedgerModel {
            keys: Set::new(|k: (Seq<char>, int)| spec_contains_key(self.events@, k.0, k.1)),
            claims: Map::new(
                |a: Seq<char>| spec_has_account(self.claim_totals@, a),
                |a: Seq<char>| spec_total_in(self.claim_totals@, a),
            ),
            credits: Map::new(
                |a: Seq<char>| spec_has_account(self.credit_totals@, a),
                |a: Seq<char>| spec_total_in(self.credit_totals@, a),
            ),
        }
    }

    /// How the abstract state reads back through the ledger's own
    /// accessors: membership in the key set is exactly `spec_has_event`,
    /// and each total map entry is exactly the account's running total
    /// (with absent accounts standing at zero).
    pub proof fn lemma_model_reads(self, account: Seq<char>, transaction_hash: Seq<char>, log_index: int)
        ensures
            self.model().keys.contains((transaction_hash, log_index)) == self.spec_has_event(
                transaction_hash,
                log_index,
            ),
            self.model().claims.dom().contains(account) ==> self.model().claims[account]
                == self.spec_claim_total(account),
            !self.model().claims.dom().contains(account) ==> self.spec_claim_total(account) == 0,
            self.model().credits.dom().contains(account) ==> self.model().credits[account]
                == self.spec_credit_total(account),
            !self.model().credits.dom().contains(account) ==> self.spec_credit_total(account)
                == 0,
    {
        if !spec_has_account(self.claim_totals@, account) {
            lemma_total_in_absent_value(self.claim_totals@, account);
        }
        if !spec_has_account(self.credit_totals@, account) {
            lemma_total_in_absent_value(self.credit_totals@, account);
        }
    }

    /// An empty ledger.
    pub fn new() -> (r: Ledger)
        ensures
            r.wf(),
            r.events_view() == Seq::<DatabaseParticipated>::empty(),
            forall|a: Seq<char>| r.spec_claim_total(a) == 0 && r.spec_credit_total(a) == 0,
    {
        Ledger { events: Vec::new(), claim_totals: Vec::new(), credit_totals: Vec::new() }
    }

    /// Reads the account's claim running total.
    pub fn claim_total(&self, account: &String) -> (r: i64)
        requires
            self.wf(),
        ensures
            r == self.spec_claim_total(account@),
    {
        match find_account(&self.claim_totals, account) {
            Some(i) => {
                proof {
                    lemma_total_in_first_match(self.claim_totals@, account@, i as int);
                }
                self.claim_totals[i].total
            },
            None => {
                proof {
                    lemma_total_in_absent(self.claim_totals@, account@);
                }
                0
            },
        }
    }

    /// Reads the account's credit running total.
    pub fn credit_total(&self, account: &String) -> (r: i64)
        requires
            self.wf(),
        ensures
            r == self.spec_credit_total(account@),
    {
        match find_account(&self.credit_totals, account) {
            Some(i) => {
                proof {
                    lemma_total_in_first_match(self.credit_totals@, account@, i as int);
                }
                self.credit_totals[i].total
            },
            None => {
                proof {
                    lemma_total_in_absent(self.credit_totals@, account@);
                }
                0
            },
        }
    }

    /// Records one event exactly once. A key seen before changes nothing
    /// at all; a new event lands in the record and both derived amounts
    /// are merged into the account's totals by the additive upsert.
    pub fn insert_event(&mut self, event: &DatabaseParticipated) -> (r: InsertOutcome)
        requires
            old(self).wf(),
            event.amount >= 0,
        ensures
            final(self).wf(),
            final(self).model() == spec_ledger_insert(
                old(self).model(),
                event.tier as int,
                event.account@,
                event.amount as int,
                event.transaction_hash@,
                event.log_index as int,
            ),
            (r == InsertOutcome::Duplicate) == old(self).spec_has_event(
                event.transaction_hash@,
                event.log_index as int,
            ),
            r == InsertOutcome::Duplicate ==> *final(self) == *old(self),
            r matches InsertOutcome::Inserted { claim_applied, credit_applied } ==> {
                &&& final(self).events_view() == old(self).events_view().push(*event)
                &&& claim_applied == (old(self).spec_claim_total(event.account@)
                    + spec_derive_claim(event.amount as int, event.tier as int) <= i64::MAX as int)
                &&& claim_applied ==> final(self).spec_claim_total(event.account@) == old(
                    self,
                ).spec_claim_total(event.account@) + spec_derive_claim(
                    event.amount as int,
                    event.tier as int,
                )
                &&& !claim_applied ==> final(self).spec_claim_total(event.account@) == old(
                    self,
                ).spec_claim_total(event.account@)
                &&& credit_applied == (old(self).spec_credit_total(event.account@)
                    + spec_derive_credit(event.amount as int, event.tier as int) <= i64::MAX as int)
                &&& credit_applied ==> final(self).spec_credit_total(event.account@) == old(
                    self,
                ).spec_credit_total(event.account@) + spec_derive_credit(
                    event.amount as int,
                    event.tier as int,
                )
                &&& !credit_applied ==> final(self).spec_credit_total(event.account@) == old(
                    self,
                ).spec_credit_total(event.account@)
                &&& forall|a: Seq<char>|
                    a != event.account@ ==> final(self).spec_claim_total(a) == old(
                        self,
                    ).spec_claim_total(a) && final(self).spec_credit_total(a) == old(
                        self,
                    ).spec_credit_total(a)
            },
    {
        if has_key(&self.events, &event.transaction_hash, event.log_index) {
            return InsertOutcome::Duplicate;
        }
        let recorded = DatabaseParticipated {
            tier: event.tier,
            account: event.account.clone(),
            amount: event.amount,
            transaction_hash: event.transaction_hash.clone(),
            log_index: event.log_index,
        };
        self.events.push(recorded);
        let dc = derive_claim(event.amount, event.tier);
        let dr = derive_credit(event.amount, event.tier);
        let claim_applied = upsert_add(&mut self.claim_totals, &event.account, dc);
        let credit_applied = upsert_add(&mut self.credit_totals, &event.account, dr);
        proof {
            let of = old(self);
            let k = (event.transaction_hash@, event.log_index as int);
            let target = spec_ledger_insert(
                of.model(),
                event.tier as int,
                event.account@,
                event.amount as int,
                event.transaction_hash@,
                event.log_index as int,
            );
            assert(self.events@ =~= of.events@.push(*event));
            assert(final(self).model().keys =~= target.keys) by {
                assert forall|k2: (Seq<char>, int)|
                    final(self).model().keys.contains(k2) == target.keys.contains(k2) by {
                    if spec_contains_key(self.events@, k2.0, k2.1) {
                        let i = choose|i: int|
                            0 <= i < self.events@.len() && #[trigger] self.events@[i].transaction_hash@
                                == k2.0 && self.events@[i].log_index == k2.1;
                        if i < of.events@.len() {
                            assert(spec_contains_key(of.events@, k2.0, k2.1));
                        } else {
                            assert(k2 == k);
                        }
                    }
                    if spec_contains_key(of.events@, k2.0, k2.1) {
                        let i = choose|i: int|
                            0 <= i < of.events@.len() && #[trigger] of.events@[i].transaction_hash@
                                == k2.0 && of.events@[i].log_index == k2.1;
                        assert(self.events@[i].transaction_hash@ == k2.0);
                        assert(spec_contains_key(self.events@, k2.0, k2.1));
                    }
                    if k2 == k {
                        assert(self.events@[of.events@.len() as int].transaction_hash@ == k2.0);
                        assert(spec_contains_key(self.events@, k2.0, k2.1));
                    }
                }
            }
            assert(final(self).model().claims =~= target.claims) by {
                lemma_upsert_matches_apply_delta(
                    of.claim_totals@,
                    self.claim_totals@,
                    event.account@,
                    spec_derive_claim(event.amount as int, event.tier as int),
                    claim_applied,
                );
            }
            assert(final(self).model().credits =~= target.credits) by {
                lemma_upsert_matches_apply_delta(
                    of.credit_totals@,
                    self.credit_totals@,
                    event.account@,
                    spec_derive_credit(event.amount as int, event.tier as int),
                    credit_applied,
                );
            }
            assert(final(self).model() =~= target);
            assert(spec_unique_keys(self.events@)) by {
                assert forall|i: int, j: int| 0 <= i < j < self.events@.len() implies !(
                #[trigger] self.events@[i].transaction_hash@
                    == #[trigger] self.events@[j].transaction_hash@ && self.events@[i].log_index
                    == self.events@[j].log_index) by {
                    if j == of.events@.len() as int {
                        assert(!spec_contains_key(
                            of.events@,
                            event.transaction_hash@,
                            event.log_index as int,
                        ));
                        assert(of.events@[i].transaction_hash@ == self.events@[i].transaction_hash@);
                    }
                }
            }
        }
        InsertOutcome::Inserted { claim_applied, credit_applied }
    }
}

} // verus!
