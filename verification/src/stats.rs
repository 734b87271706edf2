//! Aggregate statistics over the current record set.

use vstd::prelude::*;

use crate::loan::LoanRequestView;
use crate::loan::LoanStatus;

verus! {

/// How many records in `s` currently have status `status`.
pub open spec fn count_status(s: Seq<LoanRequestView>, status: LoanStatus) -> nat
    decreases s.len(),
{
    if s.len() == 0 {
        0
    } else {
        count_status(s.drop_last(), status) + if s.last().status == status {
            1nat
        } else {
            0nat
        }
    }
}

/// The aggregate counts reported over a store's contents.
///
/// `total_loans` counts every record; the other fields count the records
/// currently in the named status.  `Approved` and `Defaulted` records are
/// counted in the total but have no field of their own: the reported
/// breakdown is deliberately selective.
pub struct PlatformStats {
    pub total_loans: u64,
    pub pending_loans: u64,
    pub active_loans: u64,
    pub repaid_loans: u64,
}

/// Appending one record grows exactly the count of its status.
pub proof fn lemma_count_status_push(s: Seq<LoanRequestView>, rec: LoanRequestView, status: LoanStatus)
    ensures
        count_status(s.push(rec), status) == count_status(s, status) + if rec.status == status {
            1nat
        } else {
            0nat
        },
{
    assert(s.push(rec).drop_last() =~= s);
    assert(s.push(rec).last() == rec);
}

} // verus!
