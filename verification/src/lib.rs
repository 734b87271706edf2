//! A collateral-backed loan record store.
//!
//! Loan records move through a fixed lifecycle (request, approval,
//! activation, repayment).  The store mints unique identifiers from a
//! monotonic counter, holds every record ever created, validates status
//! transitions when configured to, and answers aggregate queries over the
//! current record set.

pub mod ids;
pub mod laws;
pub mod loan;
pub mod stats;
pub mod store;

pub use loan::LoanError;
pub use loan::LoanRequest;
pub use loan::LoanRequestView;
pub use loan::LoanStatus;
pub use stats::PlatformStats;
pub use store::LoanStore;
