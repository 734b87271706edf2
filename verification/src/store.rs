//! The loan record store: identifier minting, insertion, lookup, and the
//! status-transition operations.
//!
//! The store owns every record ever created (no operation removes one) and a
//! monotonic counter that mints identifiers.  A store built with
//! [`LoanStore::new`] performs the transitions as unconditional status
//! overwrites; one built with [`LoanStore::new_guarded`] first checks that
//! the record's current status is the required predecessor and reports
//! [`LoanError::InvalidTransition`] otherwise.

use vstd::prelude::*;

use crate::ids::lemma_loan_id_injective;
use crate::ids::make_loan_id;
use crate::ids::spec_loan_id;
use crate::loan::LoanError;
use crate::loan::LoanRequest;
use crate::loan::LoanRequestView;
use crate::loan::LoanStatus;
use crate::stats::count_status;
use crate::stats::lemma_count_status_push;
use crate::stats::PlatformStats;

verus! {

/// The index of the first record in `s` whose identifier is `id`.
pub open spec fn spec_find(s: Seq<LoanRequestView>, id: Seq<char>) -> Option<int>
    decreases s.len(),
{
    if s.len() == 0 {
        None
    } else if s[0].id == id {
        Some(0int)
    } else {
        match spec_find(s.drop_first(), id) {
            Some(i) => Some(i + 1),
            None => None,
        }
    }
}

/// The first record in `s` whose identifier is `id`, if any.
pub open spec fn spec_lookup(s: Seq<LoanRequestView>, id: Seq<char>) -> Option<LoanRequestView> {
    match spec_find(s, id) {
        Some(i) => Some(s[i]),
        None => None,
    }
}

/// `s` with the status of the first record whose identifier is `id` replaced
/// by `status`; `s` unchanged when no record has that identifier.
pub open spec fn spec_set_status(
    s: Seq<LoanRequestView>,
    id: Seq<char>,
    status: LoanStatus,
) -> Seq<LoanRequestView> {
    match spec_find(s, id) {
        Some(i) => s.update(i, LoanRequestView { status, ..s[i] }),
        None => s,
    }
}

/// What `spec_find` returns is a genuine first match: an index in range
/// holding `id`, with no earlier match; `None` means no record has `id`.
pub proof fn lemma_find_properties(s: Seq<LoanRequestView>, id: Seq<char>)
    ensures
        match spec_find(s, id) {
            Some(i) => 0 <= i < s.len() && s[i].id == id && (forall|j: int|
                0 <= j < i ==> s[j].id != id),
            None => forall|j: int| 0 <= j < s.len() ==> s[j].id != id,
        },
    decreases s.len(),
{
    if s.len() == 0 {
    } else if s[0].id == id {
    } else {
        lemma_find_properties(s.drop_first(), id);
        assert(forall|j: int| 0 <= j < s.drop_first().len() ==> s.drop_first()[j] == s[j + 1]);
        match spec_find(s.drop_first(), id) {
            Some(i) => {
                assert(s[i + 1].id == id);
                assert forall|j: int| 0 <= j < i + 1 implies s[j].id != id by {
                    if j > 0 {
                        assert(s.drop_first()[j - 1] == s[j]);
                    }
                }
            },
            None => {
                assert forall|j: int| 0 <= j < s.len() implies s[j].id != id by {
                    if j > 0 {
                        assert(s.drop_first()[j - 1] == s[j]);
                    }
                }
            },
        }
    }
}

/// If `s[i]` holds `id` and no earlier record does, the first match is `i`.
pub proof fn lemma_find_at(s: Seq<LoanRequestView>, id: Seq<char>, i: int)
    requires
        0 <= i < s.len(),
        s[i].id == id,
        forall|j: int| 0 <= j < i ==> s[j].id != id,
    ensures
        spec_find(s, id) == Some(i),
    decreases i,
{
    if i == 0 {
    } else {
        assert(s.drop_first()[i - 1] == s[i]);
        assert(forall|j: int| 0 <= j < i - 1 ==> s.drop_first()[j] == s[j + 1]);
        lemma_find_at(s.drop_first(), id, i - 1);
    }
}

/// If no record in `s` holds `id`, the search finds nothing.
pub proof fn lemma_find_none(s: Seq<LoanRequestView>, id: Seq<char>)
    requires
        forall|j: int| 0 <= j < s.len() ==> s[j].id != id,
    ensures
        spec_find(s, id) is None,
    decreases s.len(),
{
    if s.len() == 0 {
    } else {
        assert(forall|j: int| 0 <= j < s.drop_first().len() ==> s.drop_first()[j] == s[j + 1]);
        lemma_find_none(s.drop_first(), id);
    }
}

/// The in-memory loan record store.
pub struct LoanStore {
    records: Vec<LoanRequest>,
    counter: u64,
    guarded: bool,
}

/// The outcome required of every transition operation (approve, activate,
/// repay): `pre` and `post` are the store before and after the call, `msg`
/// the success message owed, `required` the predecessor status a guarded
/// store demands, and `target` the status written on success.
pub open spec fn transition_post(
    pre: LoanStore,
    post: LoanStore,
    id: Seq<char>,
    required: LoanStatus,
    target: LoanStatus,
    r: Result<String, LoanError>,
    msg: Seq<char>,
) -> bool {
    &&& post.issued() == pre.issued()
    &&& post.is_guarded() == pre.is_guarded()
    &&& match r {
        Ok(m) => match spec_lookup(pre.loans(), id) {
            Some(rec) => {
                &&& m@ == msg
                &&& pre.is_guarded() ==> rec.status == required
                &&& post.loans() == spec_set_status(pre.loans(), id, target)
            },
            None => false,
        },
        Err(LoanError::NotFound) => {
            &&& spec_lookup(pre.loans(), id) is None
            &&& post.loans() == pre.loans()
        },
        Err(LoanError::InvalidTransition) => match spec_lookup(pre.loans(), id) {
            Some(rec) => {
                &&& pre.is_guarded()
                &&& rec.status != required
                &&& post.loans() == pre.loans()
            },
            None => false,
        },
    }
}

impl LoanStore {
    /// The records currently held, in creation order.
    pub closed spec fn loans(self) -> Seq<LoanRequestView> {
        self.records@.map_values(|r: LoanRequest| r@)
    }

    /// How many identifiers have ever been minted.
    pub closed spec fn issued(self) -> nat {
        self.counter as nat
    }

    /// Whether this store validates the predecessor status on transitions.
    pub closed spec fn is_guarded(self) -> bool {
        self.guarded
    }

    /// Well-formedness: the counter counts the records, and the record at
    /// index `i` carries the identifier minted for counter value `i + 1`.
    pub closed spec fn wf(self) -> bool {
        &&& self.issued() == self.loans().len()
        &&& forall|i: int|
            0 <= i < self.loans().len() ==> (#[trigger] self.loans()[i]).id == spec_loan_id(
                (i + 1) as nat,
            )
    }

    /// An empty store that performs transitions as unconditional status
    /// overwrites.
    pub fn new() -> (s: LoanStore)
        ensures
            s.wf(),
            s.loans() == Seq::<LoanRequestView>::empty(),
            s.issued() == 0,
            !s.is_guarded(),
    {
        let s = LoanStore { records: Vec::new(), counter: 0, guarded: false };
        proof {
            assert(s.loans() =~= Seq::<LoanRequestView>::empty());
        }
        s
    }

    /// An empty store that demands the proper predecessor status on every
    /// transition.
    pub fn new_guarded() -> (s: LoanStore)
        ensures
            s.wf(),
            s.loans() == Seq::<LoanRequestView>::empty(),
            s.issued() == 0,
            s.is_guarded(),
    {
        let s = LoanStore { records: Vec::new(), counter: 0, guarded: true };
        proof {
            assert(s.loans() =~= Seq::<LoanRequestView>::empty());
        }
        s
    }

    /// How many identifiers this store has ever minted.  The counter only
    /// grows: it is never reset and never decremented.
    pub fn issued_count(&self) -> (n: u64)
        ensures
            n as nat == self.issued(),
    {
        self.counter
    }

    /// Create a loan request: mint the next identifier, insert a record with
    /// the given fields and status `Pending`, and return the identifier.
    ///
    /// Always succeeds; inputs are accepted as given.  The identifier is
    /// fresh: no record held before the call carries it.
    pub fn create_loan_request(
        &mut self,
        borrower: String,
        amount: u64,
        collateral_amount: u64,
        interest_rate_bits: u64,
        duration_days: u32,
    ) -> (loan_id: String)
        requires
            old(self).wf(),
            old(self).issued() < u64::MAX,
        ensures
            final(self).wf(),
            final(self).is_guarded() == old(self).is_guarded(),
            final(self).issued() == old(self).issued() + 1,
            loan_id@ == spec_loan_id(final(self).issued()),
            spec_lookup(old(self).loans(), loan_id@) is None,
            final(self).loans() == old(self).loans().push(
                LoanRequestView {
                    id: loan_id@,
                    borrower: borrower@,
                    amount,
                    collateral_amount,
                    interest_rate_bits,
                    duration_days,
                    status: LoanStatus::Pending,
                },
            ),
    {
        self.counter = self.counter + 1;
        let loan_id = make_loan_id(self.counter);
        let record = LoanRequest {
            id: loan_id.clone(),
            borrower,
            amount,
            collateral_amount,
            interest_rate_bits,
            duration_days,
            status: LoanStatus::Pending,
        };
        let ghost rec_v = record@;
        self.records.push(record);
        proof {
            let pre = *old(self);
            assert(self.loans() =~= pre.loans().push(rec_v));
            assert forall|i: int|
                0 <= i < self.loans().len() implies (#[trigger] self.loans()[i]).id
                == spec_loan_id((i + 1) as nat) by {
                if i < pre.loans().len() {
                    assert(pre.loans()[i].id == spec_loan_id((i + 1) as nat));
                }
            }
            assert forall|j: int| 0 <= j < pre.loans().len() implies pre.loans()[j].id
                != loan_id@ by {
                if pre.loans()[j].id == loan_id@ {
                    lemma_loan_id_injective((j + 1) as nat, (pre.issued() + 1) as nat);
                }
            }
            lemma_find_none(pre.loans(), loan_id@);
        }
        loan_id
    }

    /// Look up a record by identifier and return a copy of it, or
    /// `NotFound` when no record carries the identifier.  Read-only.
    pub fn get_loan_request(&self, loan_id: &String) -> (r: Result<LoanRequest, LoanError>)
        ensures
            match r {
                Ok(rec) => spec_lookup(self.loans(), loan_id@) == Some(rec@),
                Err(e) => e == LoanError::NotFound && spec_lookup(self.loans(), loan_id@) is None,
            },
    {
        let n = self.records.len();
        let mut i: usize = 0;
        while i < n
            invariant
                n == self.records.len(),
                i <= n,
                forall|j: int| 0 <= j < i ==> (#[trigger] self.loans()[j]).id != loan_id@,
            decreases n - i,
        {
            if self.records[i].id == *loan_id {
                proof {
                    lemma_find_at(self.loans(), loan_id@, i as int);
                }
                return Ok(self.records[i].clone());
            }
            i = i + 1;
        }
        proof {
            lemma_find_none(self.loans(), loan_id@);
        }
        Err(LoanError::NotFound)
    }

    /// A copy of every record currently held, in creation order.
    /// Read-only.
    pub fn get_all_loans(&self) -> (r: Vec<LoanRequest>)
        ensures
            r@.len() == self.loans().len(),
            forall|i: int| 0 <= i < r@.len() ==> (#[trigger] r@[i])@ == self.loans()[i],
    {
        let n = self.records.len();
        let mut out: Vec<LoanRequest> = Vec::new();
        let mut i: usize = 0;
        while i < n
            invariant
                n == self.records.len(),
                i <= n,
                out@.len() == i,
                forall|j: int| 0 <= j < i ==> (#[trigger] out@[j])@ == self.loans()[j],
            decreases n - i,
        {
            out.push(self.records[i].clone());
            i = i + 1;
        }
        out
    }

    /// Write `target` into the status of the record carrying `loan_id`.
    /// On a guarded store the record's current status must be `required`.
    fn set_status(&mut self, loan_id: &String, required: LoanStatus, target: LoanStatus) -> (r:
        Result<(), LoanError>)
        ensures
            final(self).issued() == old(self).issued(),
            final(self).is_guarded() == old(self).is_guarded(),
            old(self).wf() ==> final(self).wf(),
            match r {
                Ok(()) => match spec_lookup(old(self).loans(), loan_id@) {
                    Some(rec) => {
                        &&& old(self).is_guarded() ==> rec.status == required
                        &&& final(self).loans() == spec_set_status(
                            old(self).loans(),
                            loan_id@,
                            target,
                        )
                    },
                    None => false,
                },
                Err(LoanError::NotFound) => {
                    &&& spec_lookup(old(self).loans(), loan_id@) is None
                    &&& final(self).loans() == old(self).loans()
                },
                Err(LoanError::InvalidTransition) => match spec_lookup(
                    old(self).loans(),
                    loan_id@,
                ) {
                    Some(rec) => {
                        &&& old(self).is_guarded()
                        &&& rec.status != required
                        &&& final(self).loans() == old(self).loans()
                    },
                    None => false,
                },
            },
    {
        let n = self.records.len();
        let mut i: usize = 0;
        while i < n
            invariant
                n == self.records.len(),
                i <= n,
                *self == *old(self),
                forall|j: int| 0 <= j < i ==> (#[trigger] self.loans()[j]).id != loan_id@,
            decreases n - i,
        {
            if self.records[i].id == *loan_id {
                proof {
                    lemma_find_at(self.loans(), loan_id@, i as int);
                }
                if self.guarded && !(self.records[i].status == required) {
                    return Err(LoanError::InvalidTransition);
                }
                let updated = self.records[i].with_status(target);
                let ghost updated_v = updated@;
                self.records[i] = updated;
                proof {
                    let pre = *old(self);
                    assert(self.loans() =~= pre.loans().update(i as int, updated_v));
                    assert(self.loans() == spec_set_status(pre.loans(), loan_id@, target));
                    if pre.wf() {
                        assert forall|k: int|
                            0 <= k < self.loans().len() implies (#[trigger] self.loans()[k]).id
                            == spec_loan_id((k + 1) as nat) by {
                            assert(pre.loans()[k].id == spec_loan_id((k + 1) as nat));
                        }
                    }
                }
                return Ok(());
            }
            i = i + 1;
        }
        proof {
            lemma_find_none(self.loans(), loan_id@);
        }
        Err(LoanError::NotFound)
    }

    /// The aggregate counts over the current record set: every record in
    /// `total_loans`, and the `Pending`, `Active` and `Repaid` records in
    /// their own counts.  Read-only; an empty store yields all-zero counts.
    ///
    /// On a well-formed store the total also equals the number of
    /// identifiers ever minted: no operation removes a record.
    pub fn get_platform_stats(&self) -> (stats: PlatformStats)
        ensures
            stats.total_loans == self.loans().len(),
            stats.pending_loans == count_status(self.loans(), LoanStatus::Pending),
            stats.active_loans == count_status(self.loans(), LoanStatus::Active),
            stats.repaid_loans == count_status(self.loans(), LoanStatus::Repaid),
            self.wf() ==> stats.total_loans == self.issued(),
    {
        let n = self.records.len();
        let mut pending: u64 = 0;
        let mut active: u64 = 0;
        let mut repaid: u64 = 0;
        let mut i: usize = 0;
        while i < n
            invariant
                n == self.records.len(),
                i <= n,
                pending == count_status(self.loans().take(i as int), LoanStatus::Pending),
                active == count_status(self.loans().take(i as int), LoanStatus::Active),
                repaid == count_status(self.loans().take(i as int), LoanStatus::Repaid),
                pending <= i,
                active <= i,
                repaid <= i,
            decreases n - i,
        {
            proof {
                let prefix = self.loans().take(i as int);
                assert(self.loans().take(i as int + 1) =~= prefix.push(self.loans()[i as int]));
                lemma_count_status_push(prefix, self.loans()[i as int], LoanStatus::Pending);
                lemma_count_status_push(prefix, self.loans()[i as int], LoanStatus::Active);
                lemma_count_status_push(prefix, self.loans()[i as int], LoanStatus::Repaid);
            }
            let status = self.records[i].status;
            if status == LoanStatus::Pending {
                pending = pending + 1;
            } else if status == LoanStatus::Active {
                active = active + 1;
            } else if status == LoanStatus::Repaid {
                repaid = repaid + 1;
            }
            i = i + 1;
        }
        proof {
            assert(self.loans().take(n as int) =~= self.loans());
        }
        PlatformStats {
            total_loans: n as u64,
            pending_loans: pending,
            active_loans: active,
            repaid_loans: repaid,
        }
    }

    /// Approve the loan carrying `loan_id`: set its status to `Approved`.
    ///
    /// Fails with `NotFound` when the identifier is absent.  An unguarded
    /// store overwrites whatever status the record had; a guarded store
    /// demands `Pending` and fails with `InvalidTransition` otherwise.
    /// A failed call leaves the store unchanged.
    pub fn approve_loan(&mut self, loan_id: &String) -> (r: Result<String, LoanError>)
        ensures
            old(self).wf() ==> final(self).wf(),
            transition_post(
                *old(self),
                *final(self),
                loan_id@,
                LoanStatus::Pending,
                LoanStatus::Approved,
                r,
                "Loan approved successfully"@,
            ),
    {
        match self.set_status(loan_id, LoanStatus::Pending, LoanStatus::Approved) {
            Ok(()) => Ok(String::from_str("Loan approved successfully")),
            Err(e) => Err(e),
        }
    }

    /// Activate the loan carrying `loan_id`: set its status to `Active`.
    ///
    /// Fails with `NotFound` when the identifier is absent.  An unguarded
    /// store overwrites whatever status the record had; a guarded store
    /// demands `Approved` and fails with `InvalidTransition` otherwise.
    /// A failed call leaves the store unchanged.
    pub fn activate_loan(&mut self, loan_id: &String) -> (r: Result<String, LoanError>)
        ensures
            old(self).wf() ==> final(self).wf(),
            transition_post(
                *old(self),
                *final(self),
                loan_id@,
                LoanStatus::Approved,
                LoanStatus::Active,
                r,
                "Loan activated successfully"@,
            ),
    {
        match self.set_status(loan_id, LoanStatus::Approved, LoanStatus::Active) {
            Ok(()) => Ok(String::from_str("Loan activated successfully")),
            Err(e) => Err(e),
        }
    }

    /// Repay the loan carrying `loan_id`: set its status to `Repaid`.
    ///
    /// Fails with `NotFound` when the identifier is absent.  An unguarded
    /// store overwrites whatever status the record had; a guarded store
    /// demands `Active` and fails with `InvalidTransition` otherwise.
    /// A failed call leaves the store unchanged.
    pub fn repay_loan(&mut self, loan_id: &String) -> (r: Result<String, LoanError>)
        ensures
            old(self).wf() ==> final(self).wf(),
            transition_post(
                *old(self),
                *final(self),
                loan_id@,
                LoanStatus::Active,
                LoanStatus::Repaid,
                r,
                "Loan repaid successfully"@,
            ),
    {
        match self.set_status(loan_id, LoanStatus::Active, LoanStatus::Repaid) {
            Ok(()) => Ok(String::from_str("Loan repaid successfully")),
            Err(e) => Err(e),
        }
    }
}

/// Identifier uniqueness: in a well-formed store the records carry
/// pairwise distinct identifiers.  Every store starts empty and every
/// operation preserves well-formedness, so the identifiers returned by any
/// sequence of creations are pairwise distinct.
pub proof fn lemma_identifier_uniqueness(store: LoanStore)
    requires
        store.wf(),
    ensures
        forall|i: int, j: int|
            0 <= i < store.loans().len() && 0 <= j < store.loans().len() && i != j ==> (
            #[trigger] store.loans()[i]).id != (#[trigger] store.loans()[j]).id,
{
    assert forall|i: int, j: int|
        0 <= i < store.loans().len() && 0 <= j < store.loans().len() && i != j implies (
    #[trigger] store.loans()[i]).id != (#[trigger] store.loans()[j]).id by {
        if store.loans()[i].id == store.loans()[j].id {
            lemma_loan_id_injective((i + 1) as nat, (j + 1) as nat);
        }
    }
}

/// Round trip: looking up a freshly minted identifier right after a
/// creation finds exactly the created record.  `rec` here is the record
/// `create_loan_request` appends, whose identifier is minted for the next
/// counter value; no older record can carry it.
pub proof fn lemma_create_round_trip(store: LoanStore, rec: LoanRequestView)
    requires
        store.wf(),
        rec.id == spec_loan_id((store.issued() + 1) as nat),
    ensures
        spec_lookup(store.loans().push(rec), rec.id) == Some(rec),
{
    let s = store.loans().push(rec);
    assert forall|j: int| 0 <= j < store.loans().len() implies (#[trigger] s[j]).id != rec.id by {
        assert(s[j] == store.loans()[j]);
        if store.loans()[j].id == rec.id {
            lemma_loan_id_injective((j + 1) as nat, (store.issued() + 1) as nat);
        }
    }
    assert(s[store.loans().len() as int] == rec);
    lemma_find_at(s, rec.id, store.loans().len() as int);
}

/// An identifier that no creation ever returned is absent, so `get`,
/// `approve`, `activate` and `repay` all fail with `NotFound` on it: a
/// well-formed store holds only identifiers minted for counter values up
/// to the number issued.
pub proof fn lemma_unknown_id_not_found(store: LoanStore, id: Seq<char>)
    requires
        store.wf(),
        forall|n: nat| 1 <= n <= store.issued() ==> id != spec_loan_id(n),
    ensures
        spec_lookup(store.loans(), id) is None,
{
    assert forall|j: int| 0 <= j < store.loans().len() implies (#[trigger] store.loans()[j]).id
        != id by {
        assert(id != spec_loan_id((j + 1) as nat));
    }
    lemma_find_none(store.loans(), id);
}

} // verus!
