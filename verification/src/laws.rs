//! Laws that hold of the record set as a whole: how the per-status counts
//! partition it, and how status overwrites interact with lookup.

use vstd::prelude::*;

use crate::loan::LoanRequestView;
use crate::loan::LoanStatus;
use crate::stats::count_status;
use crate::store::lemma_find_properties;
use crate::store::spec_find;
use crate::store::spec_lookup;
use crate::store::spec_set_status;

verus! {

/// Every record has exactly one status, so the five per-status counts
/// partition the record set.
pub proof fn lemma_status_partition(s: Seq<LoanRequestView>)
    ensures
        count_status(s, LoanStatus::Pending) + count_status(s, LoanStatus::Approved)
            + count_status(s, LoanStatus::Active) + count_status(s, LoanStatus::Repaid)
            + count_status(s, LoanStatus::Defaulted) == s.len(),
    decreases s.len(),
{
    if s.len() > 0 {
        lemma_status_partition(s.drop_last());
    }
}

/// The reported breakdown (pending, active, repaid) never exceeds the
/// total record count, and reaches it exactly when no record is
/// `Approved` or `Defaulted` — the two statuses the aggregate leaves out.
pub proof fn lemma_reported_counts_bound(s: Seq<LoanRequestView>)
    ensures
        count_status(s, LoanStatus::Pending) + count_status(s, LoanStatus::Active)
            + count_status(s, LoanStatus::Repaid) <= s.len(),
        (count_status(s, LoanStatus::Pending) + count_status(s, LoanStatus::Active)
            + count_status(s, LoanStatus::Repaid) == s.len()) <==> (count_status(
            s,
            LoanStatus::Approved,
        ) + count_status(s, LoanStatus::Defaulted) == 0),
{
    lemma_status_partition(s);
}

/// Replacing a record by one carrying the same identifier leaves the first
/// match of every identifier where it was.
proof fn lemma_find_update_same_id(
    s: Seq<LoanRequestView>,
    i: int,
    r: LoanRequestView,
    id: Seq<char>,
)
    requires
        0 <= i < s.len(),
        r.id == s[i].id,
    ensures
        spec_find(s.update(i, r), id) == spec_find(s, id),
    decreases s.len(),
{
    let t = s.update(i, r);
    assert(t[0].id == s[0].id);
    if s[0].id != id {
        if i == 0 {
            assert(t.drop_first() =~= s.drop_first());
        } else {
            assert(t.drop_first() =~= s.drop_first().update(i - 1, r));
            assert(s.drop_first()[i - 1] == s[i]);
            lemma_find_update_same_id(s.drop_first(), i - 1, r, id);
        }
    }
}

/// A status overwrite never changes which identifiers are present, nor
/// which index any identifier is first found at.
pub proof fn lemma_set_status_preserves_find(
    s: Seq<LoanRequestView>,
    id: Seq<char>,
    target_id: Seq<char>,
    status: LoanStatus,
)
    ensures
        spec_find(spec_set_status(s, target_id, status), id) == spec_find(s, id),
{
    match spec_find(s, target_id) {
        Some(i) => {
            lemma_find_properties(s, target_id);
            lemma_find_update_same_id(s, i, LoanRequestView { status, ..s[i] }, id);
        },
        None => {},
    }
}

/// Idempotence of the terminal overwrite: when an identifier is present,
/// repaying it leaves it present with status `Repaid` — so a second repay
/// succeeds as well — and repaying it a second time changes nothing.
pub proof fn lemma_terminal_overwrite_idempotent(s: Seq<LoanRequestView>, id: Seq<char>)
    requires
        spec_lookup(s, id) is Some,
    ensures
        match spec_lookup(spec_set_status(s, id, LoanStatus::Repaid), id) {
            Some(rec) => rec.status == LoanStatus::Repaid,
            None => false,
        },
        spec_set_status(spec_set_status(s, id, LoanStatus::Repaid), id, LoanStatus::Repaid)
            == spec_set_status(s, id, LoanStatus::Repaid),
{
    let s1 = spec_set_status(s, id, LoanStatus::Repaid);
    lemma_set_status_preserves_find(s, id, id, LoanStatus::Repaid);
    match spec_find(s, id) {
        Some(i) => {
            lemma_find_properties(s, id);
            assert(s1[i] == LoanRequestView { status: LoanStatus::Repaid, ..s[i] });
            assert(LoanRequestView { status: LoanStatus::Repaid, ..s1[i] } == s1[i]);
            assert(s1.update(i, s1[i]) =~= s1);
        },
        None => {},
    }
}

} // verus!
