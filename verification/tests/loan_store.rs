use btc_loan::LoanError;
use btc_loan::LoanStatus;
use btc_loan::LoanStore;

#[test]
fn full_lifecycle_scenario() {
    let mut store = LoanStore::new();
    let id = store.create_loan_request(
        String::from("borrower_1"),
        1000,
        1500,
        (0.05f64).to_bits(),
        30,
    );
    assert_eq!(id, "loan_1");

    let rec = store.get_loan_request(&id).unwrap();
    assert!(matches!(rec.status, LoanStatus::Pending));

    let msg = store.approve_loan(&id).unwrap();
    assert_eq!(msg, "Loan approved successfully");
    let rec = store.get_loan_request(&id).unwrap();
    assert!(matches!(rec.status, LoanStatus::Approved));

    let msg = store.activate_loan(&id).unwrap();
    assert_eq!(msg, "Loan activated successfully");
    let rec = store.get_loan_request(&id).unwrap();
    assert!(matches!(rec.status, LoanStatus::Active));

    let msg = store.repay_loan(&id).unwrap();
    assert_eq!(msg, "Loan repaid successfully");
    let rec = store.get_loan_request(&id).unwrap();
    assert!(matches!(rec.status, LoanStatus::Repaid));

    let stats = store.get_platform_stats();
    assert_eq!(stats.total_loans, 1);
    assert_eq!(stats.repaid_loans, 1);
    assert_eq!(stats.pending_loans, 0);
    assert_eq!(stats.active_loans, 0);
}

#[test]
fn get_on_empty_store_not_found() {
    let store = LoanStore::new();
    let err = store
        .get_loan_request(&String::from("loan_999"))
        .unwrap_err();
    assert_eq!(err, LoanError::NotFound);
}

#[test]
fn create_then_get_round_trip() {
    let mut store = LoanStore::new();
    let rate = (0.07f64).to_bits();
    let id = store.create_loan_request(String::from("alice"), 250_000, 400_000, rate, 365);
    let rec = store.get_loan_request(&id).unwrap();
    assert_eq!(rec.id, id);
    assert_eq!(rec.borrower, "alice");
    assert_eq!(rec.amount, 250_000);
    assert_eq!(rec.collateral_amount, 400_000);
    assert_eq!(rec.interest_rate_bits, rate);
    assert_eq!(f64::from_bits(rec.interest_rate_bits), 0.07f64);
    assert_eq!(rec.duration_days, 365);
    assert!(matches!(rec.status, LoanStatus::Pending));
}

#[test]
fn created_identifiers_are_pairwise_distinct() {
    let mut store = LoanStore::new();
    let mut ids: Vec<String> = Vec::new();
    for k in 0..25u64 {
        ids.push(store.create_loan_request(String::from("b"), k, k, 0, 1));
    }
    for i in 0..ids.len() {
        for j in 0..ids.len() {
            if i != j {
                assert_ne!(ids[i], ids[j]);
            }
        }
    }
}

#[test]
fn identifier_format_is_prefix_and_counter() {
    let mut store = LoanStore::new();
    let mut last = String::new();
    for _ in 0..11 {
        last = store.create_loan_request(String::from("b"), 1, 1, 0, 1);
    }
    assert_eq!(last, "loan_11");
    let rec = store.get_loan_request(&String::from("loan_7")).unwrap();
    assert_eq!(rec.id, "loan_7");
}

#[test]
fn unknown_identifier_fails_everywhere() {
    let mut store = LoanStore::new();
    store.create_loan_request(String::from("b"), 1, 1, 0, 1);
    let probe = String::from("loan_2");
    assert_eq!(store.get_loan_request(&probe).unwrap_err(), LoanError::NotFound);
    assert_eq!(store.approve_loan(&probe).unwrap_err(), LoanError::NotFound);
    assert_eq!(store.activate_loan(&probe).unwrap_err(), LoanError::NotFound);
    assert_eq!(store.repay_loan(&probe).unwrap_err(), LoanError::NotFound);
    // A failed operation leaves the store unchanged.
    assert_eq!(store.get_platform_stats().total_loans, 1);
    assert_eq!(store.issued_count(), 1);
}

#[test]
fn repay_twice_succeeds_and_stays_repaid() {
    let mut store = LoanStore::new();
    let id = store.create_loan_request(String::from("b"), 10, 20, 0, 5);
    assert!(store.repay_loan(&id).is_ok());
    assert!(store.repay_loan(&id).is_ok());
    let rec = store.get_loan_request(&id).unwrap();
    assert!(matches!(rec.status, LoanStatus::Repaid));
}

#[test]
fn unguarded_store_overwrites_any_status() {
    let mut store = LoanStore::new();
    let id = store.create_loan_request(String::from("b"), 10, 20, 0, 5);
    // The literal contract never checks the predecessor status: a pending
    // loan can be repaid, and a repaid loan approved again.
    assert!(store.repay_loan(&id).is_ok());
    assert!(store.approve_loan(&id).is_ok());
    let rec = store.get_loan_request(&id).unwrap();
    assert!(matches!(rec.status, LoanStatus::Approved));
}

#[test]
fn guarded_store_rejects_out_of_order_transitions() {
    let mut store = LoanStore::new_guarded();
    let id = store.create_loan_request(String::from("b"), 10, 20, 0, 5);
    assert_eq!(store.activate_loan(&id).unwrap_err(), LoanError::InvalidTransition);
    assert_eq!(store.repay_loan(&id).unwrap_err(), LoanError::InvalidTransition);
    assert!(store.approve_loan(&id).is_ok());
    assert_eq!(store.approve_loan(&id).unwrap_err(), LoanError::InvalidTransition);
    assert!(store.activate_loan(&id).is_ok());
    assert!(store.repay_loan(&id).is_ok());
    // Repaid is terminal on a guarded store.
    assert_eq!(store.repay_loan(&id).unwrap_err(), LoanError::InvalidTransition);
    let rec = store.get_loan_request(&id).unwrap();
    assert!(matches!(rec.status, LoanStatus::Repaid));
}

#[test]
fn aggregate_counts_by_status() {
    let mut store = LoanStore::new();
    let a = store.create_loan_request(String::from("a"), 1, 1, 0, 1);
    let b = store.create_loan_request(String::from("b"), 2, 2, 0, 2);
    let c = store.create_loan_request(String::from("c"), 3, 3, 0, 3);
    let _d = store.create_loan_request(String::from("d"), 4, 4, 0, 4);
    store.approve_loan(&a).unwrap();
    store.activate_loan(&a).unwrap();
    store.approve_loan(&b).unwrap();
    store.activate_loan(&b).unwrap();
    store.repay_loan(&b).unwrap();
    store.approve_loan(&c).unwrap();

    let stats = store.get_platform_stats();
    assert_eq!(stats.total_loans, 4);
    assert_eq!(stats.pending_loans, 1);
    assert_eq!(stats.active_loans, 1);
    assert_eq!(stats.repaid_loans, 1);
    // One loan is Approved: the reported breakdown undercounts the total.
    assert!(stats.pending_loans + stats.active_loans + stats.repaid_loans < stats.total_loans);
}

#[test]
fn empty_store_yields_zero_counts() {
    let store = LoanStore::new();
    let stats = store.get_platform_stats();
    assert_eq!(stats.total_loans, 0);
    assert_eq!(stats.pending_loans, 0);
    assert_eq!(stats.active_loans, 0);
    assert_eq!(stats.repaid_loans, 0);
}

#[test]
fn get_all_loans_returns_every_record() {
    let mut store = LoanStore::new();
    store.create_loan_request(String::from("a"), 1, 10, 0, 1);
    store.create_loan_request(String::from("b"), 2, 20, 0, 2);
    let all = store.get_all_loans();
    assert_eq!(all.len(), 2);
    assert_eq!(all[0].id, "loan_1");
    assert_eq!(all[0].borrower, "a");
    assert_eq!(all[1].id, "loan_2");
    assert_eq!(all[1].amount, 2);
}

#[test]
fn error_messages() {
    assert_eq!(LoanError::NotFound.message(), "Loan not found");
    assert_eq!(
        LoanError::InvalidTransition.message(),
        "Invalid loan status transition"
    );
}
