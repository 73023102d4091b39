use icrc_backend::account::Account;
use icrc_backend::ledger::Ledger;
use icrc_backend::ledger::LedgerError;

#[test]
fn new_ledger_is_empty() {
    let l = Ledger::new();
    assert_eq!(l.total_supply(), 0);
    assert!(l.is_well_formed());
}

#[test]
fn default_ledger_is_empty() {
    let l = Ledger::default();
    assert_eq!(l.total_supply(), 0);
    assert_eq!(l.balance_of("anyone".to_string()), 0);
}

#[test]
fn unknown_account_reads_zero() {
    let l = Ledger::new();
    assert_eq!(l.balance_of("never-seen".to_string()), 0);
}

#[test]
fn mint_increases_balance_and_supply_by_exactly_n() {
    let mut l = Ledger::new();
    assert_eq!(l.mint("alice".to_string(), 100), Ok(()));
    assert_eq!(l.balance_of("alice".to_string()), 100);
    assert_eq!(l.total_supply(), 100);

    let balance_before = l.balance_of("alice".to_string());
    let supply_before = l.total_supply();
    assert_eq!(l.mint("alice".to_string(), 42), Ok(()));
    assert_eq!(l.balance_of("alice".to_string()), balance_before + 42);
    assert_eq!(l.total_supply(), supply_before + 42);
    assert!(l.is_well_formed());
}

#[test]
fn mint_zero_still_creates_the_account() {
    let mut l = Ledger::new();
    assert_eq!(l.mint("bob".to_string(), 0), Ok(()));
    assert_eq!(l.balance_of("bob".to_string()), 0);
    assert_eq!(l.total_supply(), 0);
    // The account exists: a zero transfer from it succeeds, while the same
    // transfer from a never-seen account is refused.
    assert_eq!(l.transfer("bob".to_string(), "carol".to_string(), 0), Ok(()));
    assert_eq!(
        l.transfer("dave".to_string(), "carol".to_string(), 0),
        Err(LedgerError::AccountNotFound)
    );
}

#[test]
fn transfer_success_moves_exactly_n() {
    let mut l = Ledger::new();
    l.mint("alice".to_string(), 100).unwrap();
    l.mint("bob".to_string(), 7).unwrap();
    let supply_before = l.total_supply();
    assert_eq!(l.transfer("alice".to_string(), "bob".to_string(), 40), Ok(()));
    assert_eq!(l.balance_of("alice".to_string()), 60);
    assert_eq!(l.balance_of("bob".to_string()), 47);
    assert_eq!(l.total_supply(), supply_before);
    assert!(l.is_well_formed());
}

#[test]
fn transfer_to_new_account_creates_it() {
    let mut l = Ledger::new();
    l.mint("alice".to_string(), 10).unwrap();
    assert_eq!(l.transfer("alice".to_string(), "fresh".to_string(), 4), Ok(()));
    assert_eq!(l.balance_of("alice".to_string()), 6);
    assert_eq!(l.balance_of("fresh".to_string()), 4);
    assert_eq!(l.total_supply(), 10);
}

#[test]
fn transfer_insufficient_funds_changes_nothing() {
    let mut l = Ledger::new();
    l.mint("alice".to_string(), 30).unwrap();
    l.mint("bob".to_string(), 5).unwrap();
    assert_eq!(
        l.transfer("alice".to_string(), "bob".to_string(), 31),
        Err(LedgerError::InsufficientBalance)
    );
    assert_eq!(l.balance_of("alice".to_string()), 30);
    assert_eq!(l.balance_of("bob".to_string()), 5);
    assert_eq!(l.total_supply(), 35);
}

#[test]
fn transfer_unknown_sender_changes_nothing() {
    let mut l = Ledger::new();
    l.mint("bob".to_string(), 5).unwrap();
    assert_eq!(
        l.transfer("nobody".to_string(), "bob".to_string(), 1),
        Err(LedgerError::AccountNotFound)
    );
    assert_eq!(l.balance_of("nobody".to_string()), 0);
    assert_eq!(l.balance_of("bob".to_string()), 5);
    assert_eq!(l.total_supply(), 5);
}

#[test]
fn self_transfer_is_a_net_zero_change() {
    let mut l = Ledger::new();
    l.mint("alice".to_string(), 100).unwrap();
    assert_eq!(l.transfer("alice".to_string(), "alice".to_string(), 30), Ok(()));
    assert_eq!(l.balance_of("alice".to_string()), 100);
    assert_eq!(l.total_supply(), 100);
}

#[test]
fn self_transfer_still_needs_funds() {
    let mut l = Ledger::new();
    l.mint("alice".to_string(), 10).unwrap();
    assert_eq!(
        l.transfer("alice".to_string(), "alice".to_string(), 11),
        Err(LedgerError::InsufficientBalance)
    );
    assert_eq!(l.balance_of("alice".to_string()), 10);
}

#[test]
fn transfer_of_exact_balance_leaves_account_addressable() {
    let mut l = Ledger::new();
    l.mint("alice".to_string(), 25).unwrap();
    assert_eq!(l.transfer("alice".to_string(), "bob".to_string(), 25), Ok(()));
    assert_eq!(l.balance_of("alice".to_string()), 0);
    assert_eq!(l.balance_of("bob".to_string()), 25);
    // The drained account is still a record, not an unknown id.
    assert_eq!(l.transfer("alice".to_string(), "bob".to_string(), 0), Ok(()));
}

#[test]
fn concrete_scenario() {
    let mut l = Ledger::new();
    assert_eq!(l.mint("alice".to_string(), 100), Ok(()));
    assert_eq!(l.mint("bob".to_string(), 0), Ok(()));
    assert_eq!(l.transfer("alice".to_string(), "bob".to_string(), 40), Ok(()));
    assert_eq!(l.balance_of("alice".to_string()), 60);
    assert_eq!(l.balance_of("bob".to_string()), 40);
    assert_eq!(l.total_supply(), 100);
    assert_eq!(
        l.transfer("bob".to_string(), "alice".to_string(), 1000),
        Err(LedgerError::InsufficientBalance)
    );
    assert_eq!(l.balance_of("alice".to_string()), 60);
    assert_eq!(l.balance_of("bob".to_string()), 40);
    assert_eq!(l.total_supply(), 100);
}

#[test]
fn mint_past_the_balance_width_is_refused() {
    let mut l = Ledger::new();
    assert_eq!(l.mint("alice".to_string(), u64::MAX), Ok(()));
    assert_eq!(l.mint("alice".to_string(), 1), Err(LedgerError::Overflow));
    // The whole supply is taken, so any account's mint overflows.
    assert_eq!(l.mint("bob".to_string(), 1), Err(LedgerError::Overflow));
    assert_eq!(l.balance_of("alice".to_string()), u64::MAX);
    assert_eq!(l.total_supply(), u64::MAX);
    // A zero mint still fits.
    assert_eq!(l.mint("bob".to_string(), 0), Ok(()));
}

#[test]
fn transfer_of_the_whole_supply_cannot_overflow() {
    let mut l = Ledger::new();
    l.mint("alice".to_string(), u64::MAX).unwrap();
    assert_eq!(
        l.transfer("alice".to_string(), "bob".to_string(), u64::MAX),
        Ok(())
    );
    assert_eq!(l.balance_of("alice".to_string()), 0);
    assert_eq!(l.balance_of("bob".to_string()), u64::MAX);
    assert_eq!(l.total_supply(), u64::MAX);
}

#[test]
fn well_formedness_check_accepts_reachable_states() {
    let mut l = Ledger::new();
    assert!(l.is_well_formed());
    l.mint("alice".to_string(), 3).unwrap();
    l.mint("bob".to_string(), 4).unwrap();
    l.transfer("alice".to_string(), "bob".to_string(), 1).unwrap();
    assert!(l.is_well_formed());
}

#[test]
fn well_formedness_check_rejects_a_wrong_supply() {
    let l = Ledger {
        accounts: vec![Account { id: "alice".to_string(), balance: 3 }],
        total_supply: 4,
    };
    assert!(!l.is_well_formed());
}

#[test]
fn well_formedness_check_rejects_duplicate_ids() {
    let l = Ledger {
        accounts: vec![
            Account { id: "alice".to_string(), balance: 1 },
            Account { id: "alice".to_string(), balance: 1 },
        ],
        total_supply: 2,
    };
    assert!(!l.is_well_formed());
}

#[test]
fn well_formedness_check_rejects_an_overflowing_sum() {
    let l = Ledger {
        accounts: vec![
            Account { id: "alice".to_string(), balance: u64::MAX },
            Account { id: "bob".to_string(), balance: 1 },
        ],
        total_supply: 0,
    };
    assert!(!l.is_well_formed());
}

#[test]
fn error_messages() {
    assert_eq!(LedgerError::AccountNotFound.message(), "Sender account not found");
    assert_eq!(LedgerError::InsufficientBalance.message(), "Insufficient balance");
    assert_eq!(LedgerError::Overflow.message(), "Balance overflow");
}
