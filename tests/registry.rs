use microloan::ids::Address;
use microloan::registry::LoanRegistry;

fn account(n: u8) -> Address {
    Address::from_bytes([n; 20])
}

fn alice() -> Address {
    account(1)
}

fn bob() -> Address {
    account(2)
}

fn charlie() -> Address {
    account(3)
}

fn django() -> Address {
    account(4)
}

fn eve() -> Address {
    account(5)
}

#[test]
fn new_sets_owner_and_config() {
    let registry = LoanRegistry::new(alice(), eve(), 650);
    assert_eq!(registry.get_owner(), alice());
    assert_eq!(registry.get_trust_oracle(), eve());
    assert_eq!(registry.get_min_trust_score(), 650);
    assert!(registry.get_all_loans().is_empty());
}

#[test]
fn owner_controls_admin_updates() {
    let mut registry = LoanRegistry::new(alice(), eve(), 600);

    let changed = registry.set_min_trust_score(alice(), 700).unwrap();
    assert_eq!((changed.old, changed.new), (600, 700));
    assert_eq!(registry.get_min_trust_score(), 700);

    assert!(registry.set_trust_oracle(alice(), charlie()).is_some());
    assert_eq!(registry.get_trust_oracle(), charlie());

    assert!(registry.set_min_trust_score(bob(), 400).is_none());
    assert!(registry.set_trust_oracle(bob(), django()).is_none());

    assert_eq!(registry.get_min_trust_score(), 700);
    assert_eq!(registry.get_trust_oracle(), charlie());
}

#[test]
fn create_loan_records_indices() {
    let mut registry = LoanRegistry::new(alice(), eve(), 500);
    assert!(registry.meets_min_trust_score(700));
    let loan = registry.create_loan(alice(), 700, 1_000, 12_000, 100);

    assert_eq!(registry.get_all_loans(), vec![loan]);
    assert_eq!(registry.get_loans_by_borrower(alice()), vec![loan]);
    assert!(registry.get_loans_by_lender(bob()).is_empty());
}

#[test]
fn create_loan_enforces_trust_score() {
    let registry = LoanRegistry::new(alice(), eve(), 750);
    assert!(!registry.meets_min_trust_score(500));
}

#[test]
fn loan_addresses_count_up() {
    let mut registry = LoanRegistry::new(alice(), eve(), 0);
    let first = registry.create_loan(alice(), 0, 1, 10_000, 1);
    let second = registry.create_loan(bob(), 0, 1, 10_000, 1);
    let mut expected = [0u8; 20];
    expected[19] = 1;
    assert_eq!(first, Address::from_bytes(expected));
    expected[19] = 2;
    assert_eq!(second, Address::from_bytes(expected));
    assert_eq!(registry.get_loans_by_borrower(bob()), vec![second]);
    assert_eq!(registry.get_all_loans(), vec![first, second]);
}
