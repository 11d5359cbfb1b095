use std::collections::HashMap;

use microloan::ids::Address;
use microloan::loan::{Instruction, LoanError, LoanInstance, LoanState};

fn account(n: u8) -> Address {
    Address::from_bytes([n; 20])
}

fn alice() -> Address {
    account(1)
}

fn bob() -> Address {
    account(2)
}

fn charlie() -> Address {
    account(3)
}

fn django() -> Address {
    account(4)
}

fn eve() -> Address {
    account(5)
}

fn transfers(instructions: &[Instruction]) -> Vec<(Address, u128)> {
    instructions
        .iter()
        .filter_map(|i| match i {
            Instruction::Transfer { to, amount } => Some((*to, *amount)),
            _ => None,
        })
        .collect()
}

fn new_loan() -> LoanInstance {
    LoanInstance::new(alice(), 1_000, 12_000, 30, eve(), 0)
}

/// Three lenders put in 400 each; returns every instruction issued.
fn activate_with_three_lenders(contract: &mut LoanInstance, score: i32) -> Vec<Instruction> {
    let mut out = Vec::new();
    for lender in [bob(), charlie(), django()] {
        out.extend(contract.contribute(lender, 400, 0, score).unwrap());
    }
    out
}

#[test]
fn constructor_sets_defaults() {
    let contract = new_loan();
    assert_eq!(contract.get_state(), LoanState::Funding);
    assert_eq!(contract.get_principal(), 1_000);
    assert_eq!(contract.get_remaining_debt(), 1_000);
    assert_eq!(contract.get_trust_oracle(), eve());
    assert_eq!(contract.get_total_required(), 1_200);
}

#[test]
fn funding_goes_active_after_threshold() {
    let mut contract = new_loan();
    let issued = activate_with_three_lenders(&mut contract, 800);

    assert_eq!(contract.get_state(), LoanState::Active);
    assert_eq!(contract.get_reserve(), 200);
    assert_eq!(transfers(&issued), vec![(alice(), 1_000)]);
    assert_eq!(contract.get_trust_score_at_issuance(), 800);
}

#[test]
fn full_repayment_completes_loan() {
    let mut contract = new_loan();
    let mut issued = activate_with_three_lenders(&mut contract, 820);
    let repaid = contract.repay(1_000, 10).unwrap();

    assert_eq!(contract.get_state(), LoanState::Completed);
    assert_eq!(contract.get_remaining_debt(), 0);
    assert_eq!(contract.get_reserve(), 0);
    assert_eq!(repaid[0], Instruction::NotifyInstallment { borrower: alice(), amount: 1_000 });

    issued.extend(repaid);
    let sent = transfers(&issued);
    assert_eq!(sent[0], (alice(), 1_000));

    let mut payouts: HashMap<Address, u128> = HashMap::new();
    for (to, amount) in sent.into_iter().skip(1) {
        *payouts.entry(to).or_default() += amount;
    }
    assert_eq!(payouts.len(), 3);
    for lender in [bob(), charlie(), django()] {
        assert!(payouts.get(&lender).copied().unwrap_or(0) > 0);
    }
    let total: u128 = payouts.values().copied().sum();
    assert!(total <= contract.get_total_required());
    assert!(total >= contract.get_total_required() - 5);
}

#[test]
fn default_path_emits_events() {
    let mut contract = new_loan();
    activate_with_three_lenders(&mut contract, 790);
    let issued = contract.check_default(10, 100);

    assert_eq!(contract.get_state(), LoanState::Defaulted);
    assert_eq!(contract.get_reserve(), 0);
    assert!(issued.contains(&Instruction::NotifyDefault { borrower: alice() }));
}

#[test]
fn completion_pays_each_lender_its_share() {
    let mut contract = new_loan();
    activate_with_three_lenders(&mut contract, 0);
    let repaid = contract.repay(1_000, 10).unwrap();
    let sent = transfers(&repaid);
    assert_eq!(
        sent,
        vec![
            (bob(), 333),
            (bob(), 66),
            (charlie(), 333),
            (charlie(), 66),
            (django(), 333),
            (django(), 66),
        ]
    );
    let principal_paid: u128 = sent.iter().step_by(2).map(|t| t.1).sum();
    let yield_paid: u128 = sent.iter().skip(1).step_by(2).map(|t| t.1).sum();
    assert!(principal_paid <= 1_000 && 1_000 - principal_paid <= 3);
    assert!(yield_paid <= 200 && 200 - yield_paid <= 3);
}

#[test]
fn default_without_repayment_records_loss() {
    let mut contract = new_loan();
    activate_with_three_lenders(&mut contract, 0);
    let issued = contract.check_default(86_400, 86_401);

    assert_eq!(contract.get_state(), LoanState::Defaulted);
    assert_eq!(contract.get_remaining_debt(), 800);
    assert_eq!(contract.get_unrecovered_loss(), 800);
    assert_eq!(contract.get_reserve(), 0);
    assert!(transfers(&issued).is_empty());
    assert_eq!(issued, vec![Instruction::NotifyDefault { borrower: alice() }]);
}

#[test]
fn default_check_before_grace_period_does_nothing() {
    let mut contract = new_loan();
    activate_with_three_lenders(&mut contract, 0);
    assert!(contract.check_default(100, 100).is_empty());
    assert_eq!(contract.get_state(), LoanState::Active);
}

#[test]
fn default_with_reserve_covering_debt_returns_leftover() {
    let mut contract = new_loan();
    activate_with_three_lenders(&mut contract, 0);
    contract.repay(900, 5).unwrap();
    assert_eq!(contract.get_remaining_debt(), 100);
    let issued = contract.check_default(10, 20);
    assert_eq!(contract.get_state(), LoanState::Defaulted);
    assert_eq!(contract.get_remaining_debt(), 0);
    assert_eq!(contract.get_unrecovered_loss(), 0);
    assert_eq!(
        transfers(&issued),
        vec![(bob(), 33), (charlie(), 33), (django(), 33)]
    );
}

#[test]
fn check_default_twice_is_idempotent() {
    let mut contract = new_loan();
    activate_with_three_lenders(&mut contract, 0);
    contract.check_default(10, 100);
    let debt = contract.get_remaining_debt();
    let second = contract.check_default(10, 1_000);
    assert!(second.is_empty());
    assert_eq!(contract.get_state(), LoanState::Defaulted);
    assert_eq!(contract.get_remaining_debt(), debt);
}

#[test]
fn activation_needs_distinct_lenders() {
    let mut contract = new_loan();
    assert_eq!(contract.contribute(bob(), 600, 0, 0), Ok(vec![]));
    assert_eq!(contract.contribute(bob(), 600, 0, 0), Err(LoanError::NotEnoughLenders));
    assert_eq!(contract.get_state(), LoanState::Funding);
    assert_eq!(contract.get_total_contributed(), 1_200);
    assert_eq!(contract.get_contributions().len(), 2);
    assert_eq!(contract.contribute(charlie(), 1, 0, 0), Err(LoanError::NotEnoughLenders));
    let issued = contract.contribute(django(), 1, 0, 0).unwrap();
    assert_eq!(transfers(&issued), vec![(alice(), 1_000)]);
    assert_eq!(contract.get_state(), LoanState::Active);
    assert_eq!(contract.get_reserve(), 202);
}

#[test]
fn contribute_rejects_zero_and_wrong_state() {
    let mut contract = new_loan();
    assert_eq!(contract.contribute(bob(), 0, 0, 0), Err(LoanError::ZeroAmount));
    assert_eq!(contract.repay(10, 0), Err(LoanError::InvalidState));
    activate_with_three_lenders(&mut contract, 0);
    assert_eq!(contract.contribute(bob(), 5, 0, 0), Err(LoanError::InvalidState));
    assert_eq!(contract.repay(0, 0), Err(LoanError::ZeroAmount));
}

#[test]
fn partial_repayment_keeps_loan_active() {
    let mut contract = new_loan();
    activate_with_three_lenders(&mut contract, 0);
    let issued = contract.repay(250, 42).unwrap();
    assert_eq!(issued, vec![Instruction::NotifyInstallment { borrower: alice(), amount: 250 }]);
    assert_eq!(contract.get_state(), LoanState::Active);
    assert_eq!(contract.get_remaining_debt(), 750);
    assert_eq!(contract.get_repaid_amount(), 250);
    assert_eq!(contract.get_last_payment_at(), 42);
    assert!(contract.get_buffer_deposited());
}

#[test]
fn split_contribution_pays_about_the_same() {
    let mut whole = new_loan();
    whole.contribute(bob(), 400, 0, 0).unwrap();
    whole.contribute(charlie(), 400, 0, 0).unwrap();
    whole.contribute(django(), 400, 0, 0).unwrap();
    let one: u128 = transfers(&whole.repay(1_000, 1).unwrap())
        .iter()
        .filter(|t| t.0 == bob())
        .map(|t| t.1)
        .sum();

    let mut split = new_loan();
    split.contribute(bob(), 200, 0, 0).unwrap();
    split.contribute(bob(), 200, 0, 0).unwrap();
    split.contribute(charlie(), 400, 0, 0).unwrap();
    split.contribute(django(), 400, 0, 0).unwrap();
    let two: u128 = transfers(&split.repay(1_000, 1).unwrap())
        .iter()
        .filter(|t| t.0 == bob())
        .map(|t| t.1)
        .sum();
    assert!(two <= one);
    assert!(one - two <= 2);
}

#[test]
fn activation_sets_due_time() {
    let mut contract = LoanInstance::new(alice(), 1_000, 10_000, 500, eve(), 7);
    contract.contribute(bob(), 400, 100, 0).unwrap();
    contract.contribute(charlie(), 300, 100, 0).unwrap();
    contract.contribute(django(), 300, 100, 0).unwrap();
    assert_eq!(contract.get_state(), LoanState::Active);
    assert_eq!(contract.get_reserve(), 0);
    assert_eq!(contract.get_due_time(), 600);
    assert!(!contract.get_buffer_deposited());
    assert_eq!(contract.get_borrower(), alice());
}

#[test]
fn state_only_moves_forward() {
    let mut contract = new_loan();
    let mut seen = vec![contract.get_state()];
    activate_with_three_lenders(&mut contract, 0);
    seen.push(contract.get_state());
    contract.repay(1_000, 1).unwrap();
    seen.push(contract.get_state());
    assert_eq!(contract.contribute(bob(), 10, 2, 0), Err(LoanError::InvalidState));
    assert!(contract.check_default(0, 1_000_000).is_empty());
    seen.push(contract.get_state());
    assert_eq!(
        seen,
        vec![LoanState::Funding, LoanState::Active, LoanState::Completed, LoanState::Completed]
    );
}
