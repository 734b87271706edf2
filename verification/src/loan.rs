//! The loan record type, its lifecycle status, and the store's error kinds.

use vstd::prelude::*;

verus! {

/// Lifecycle state of a loan record.
///
/// `Pending` is the initial state of every freshly created record.
/// `Repaid` and `Defaulted` are terminal: no exposed operation leads out of
/// them.  `Defaulted` belongs to the status domain but no operation ever
/// produces it; it is a reserved state, deliberately left unreachable.
#[derive(Clone, Copy, Debug, PartialEq, Eq, Structural)]
pub enum LoanStatus {
    Pending,
    Approved,
    Active,
    Repaid,
    Defaulted,
}

/// Every failure the store can report.
///
/// `NotFound` means the identifier is absent from the store.
/// `InvalidTransition` is reported only by a store constructed in guarded
/// mode, when the record's current status is not the required predecessor
/// of the requested transition.  A failed operation never changes the store.
#[derive(Clone, Copy, Debug, PartialEq, Eq, Structural)]
pub enum LoanError {
    NotFound,
    InvalidTransition,
}

impl LoanError {
    /// The caller-facing message for this error.
    pub fn message(&self) -> (m: String)
        ensures
            *self == LoanError::NotFound ==> m@ == "Loan not found"@,
            *self == LoanError::InvalidTransition ==> m@ == "Invalid loan status transition"@,
    {
        match self {
            LoanError::NotFound => String::from_str("Loan not found"),
            LoanError::InvalidTransition => String::from_str("Invalid loan status transition"),
        }
    }
}

/// One loan request and its current lifecycle state.
///
/// All fields except `status` are fixed at creation time; the store mutates
/// only `status`, and only through its transition operations.  The core does
/// not enforce any ratio between `amount` and `collateral_amount`, nor any
/// range on the rate or duration: inputs are stored as given.
#[derive(Debug)]
pub struct LoanRequest {
    /// Identifier assigned by the store at creation; unique within the store.
    pub id: String,
    /// Opaque identifier of the requesting party; never interpreted.
    pub borrower: String,
    /// Principal requested, in the platform's smallest unit.
    pub amount: u64,
    /// Pledged collateral, in the same unit domain as `amount`.
    pub collateral_amount: u64,
    /// The interest rate as an opaque 64-bit encoding chosen by the caller
    /// (for example the bit pattern of the host layer's rate value).  The
    /// core stores it as given and never interprets it.
    pub interest_rate_bits: u64,
    /// Requested duration, in days; stored as given.
    pub duration_days: u32,
    /// Current lifecycle state; `LoanStatus::Pending` at creation.
    pub status: LoanStatus,
}

/// The mathematical value of a [`LoanRequest`]: its strings as character
/// sequences, every other field as the plain value it holds.
pub ghost struct LoanRequestView {
    pub id: Seq<char>,
    pub borrower: Seq<char>,
    pub amount: u64,
    pub collateral_amount: u64,
    pub interest_rate_bits: u64,
    pub duration_days: u32,
    pub status: LoanStatus,
}

impl View for LoanRequest {
    type V = LoanRequestView;

    open spec fn view(&self) -> LoanRequestView {
        LoanRequestView {
            id: self.id@,
            borrower: self.borrower@,
            amount: self.amount,
            collateral_amount: self.collateral_amount,
            interest_rate_bits: self.interest_rate_bits,
            duration_days: self.duration_days,
            status: self.status,
        }
    }
}

impl Clone for LoanRequest {
    /// A clone is equal to the original, field for field.
    fn clone(&self) -> (r: Self)
        ensures
            r == *self,
    {
        LoanRequest {
            id: self.id.clone(),
            borrower: self.borrower.clone(),
            amount: self.amount,
            collateral_amount: self.collateral_amount,
            interest_rate_bits: self.interest_rate_bits,
            duration_days: self.duration_days,
            status: self.status,
        }
    }
}

impl LoanRequest {
    /// A copy of this record whose status is `status`, every other field
    /// unchanged.
    pub fn with_status(&self, status: LoanStatus) -> (r: LoanRequest)
        ensures
            r@ == (LoanRequestView { status, ..self@ }),
    {
        LoanRequest {
            id: self.id.clone(),
            borrower: self.borrower.clone(),
            amount: self.amount,
            collateral_amount: self.collateral_amount,
            interest_rate_bits: self.interest_rate_bits,
            duration_days: self.duration_days,
            status,
        }
    }
}

} // verus!
