use microloan::ids::Address;
use microloan::oracle::{EventKind, Role, TrustOracle};

fn account(n: u8) -> Address {
    Address::from_bytes([n; 20])
}

fn alice() -> Address {
    account(1)
}

fn bob() -> Address {
    account(2)
}

fn charlie() -> Address {
    account(3)
}

fn init_with_alice_owner() -> TrustOracle {
    TrustOracle::new(alice())
}

#[test]
fn new_sets_owner_and_authorization() {
    let contract = init_with_alice_owner();
    assert_eq!(contract.get_owner(), alice());
    assert_eq!(contract.get_role(alice()), Some(Role::Owner));
    assert_eq!(contract.get_role(bob()), None);
}

#[test]
fn owner_can_authorize_and_revoke_caller() {
    let mut contract = init_with_alice_owner();
    contract.authorize_caller(alice(), bob());
    assert_eq!(contract.get_role(bob()), Some(Role::Authorized));
    contract.revoke_caller(alice(), bob());
    assert_eq!(contract.get_role(bob()), None);
}

#[test]
fn non_owner_cannot_change_weights_or_authorizations() {
    let mut contract = init_with_alice_owner();
    let initial_weights = contract.get_weights();
    contract.set_weights(bob(), 10, -10, 10, 10);
    contract.authorize_caller(bob(), bob());
    assert_eq!(contract.get_weights(), initial_weights);
    assert_eq!(contract.get_role(bob()), None);
}

#[test]
fn authorized_caller_can_record_installment_paid() {
    let mut contract = init_with_alice_owner();
    let borrower = charlie();
    let amount: u128 = 100;
    assert_eq!(contract.get_trust_score(borrower), 0);
    let event = contract.record_installment_paid(alice(), borrower, amount, 7).unwrap();
    let (installment_weight, _, _, _) = contract.get_weights();
    assert_eq!(contract.get_trust_score(borrower), installment_weight);
    assert_eq!(event.new_score, installment_weight);
    assert_eq!(event.kind, EventKind::InstallmentPaid);
    assert_eq!(event.amount, Some(100));
    assert_eq!(event.timestamp, 7);
}

#[test]
fn unauthorized_caller_cannot_record_events() {
    let mut contract = init_with_alice_owner();
    let borrower = charlie();
    assert!(contract.record_installment_paid(bob(), borrower, 100, 0).is_none());
    assert!(contract.record_missed_payment(bob(), borrower, 0).is_none());
    assert!(contract.record_guarantor_added(bob(), borrower, 0).is_none());
    assert!(contract.record_identity_verified(bob(), borrower, 0).is_none());
    assert_eq!(contract.get_trust_score(borrower), 0);
}

#[test]
fn missed_payment_does_not_go_below_zero() {
    let mut contract = init_with_alice_owner();
    let borrower = bob();
    assert_eq!(contract.get_trust_score(borrower), 0);
    contract.record_missed_payment(alice(), borrower, 0);
    contract.record_missed_payment(alice(), borrower, 0);
    assert_eq!(contract.get_trust_score(borrower), 0);
}

#[test]
fn positive_and_negative_events_combine_correctly() {
    let mut contract = init_with_alice_owner();
    let borrower = bob();
    let (w_installment, w_missed, w_guarantor, w_identity) = contract.get_weights();
    contract.record_identity_verified(alice(), borrower, 0);
    contract.record_guarantor_added(alice(), borrower, 0);
    contract.record_installment_paid(alice(), borrower, 100, 0);
    contract.record_missed_payment(alice(), borrower, 0);
    let expected = (0i32)
        .saturating_add(w_identity)
        .saturating_add(w_guarantor)
        .saturating_add(w_installment)
        .saturating_add(w_missed)
        .max(0);
    assert_eq!(contract.get_trust_score(borrower), expected);
    assert_eq!(expected, 5);
}

#[test]
fn set_weights_changes_scoring_model_for_future_events() {
    let mut contract = init_with_alice_owner();
    let borrower = bob();
    assert_eq!(contract.get_trust_score(borrower), 0);
    contract.set_weights(alice(), 10, -1, 4, 7);
    assert_eq!(contract.get_weights(), (10, -1, 4, 7));
    contract.record_installment_paid(alice(), borrower, 50, 0);
    assert_eq!(contract.get_trust_score(borrower), 10);
}

#[test]
fn score_saturates_at_the_top() {
    let mut contract = init_with_alice_owner();
    contract.set_weights(alice(), i32::MAX, -1, 4, 7);
    contract.record_installment_paid(alice(), bob(), 1, 0);
    contract.record_installment_paid(alice(), bob(), 1, 0);
    assert_eq!(contract.get_trust_score(bob()), i32::MAX);
    contract.record_missed_payment(alice(), bob(), 0);
    assert_eq!(contract.get_trust_score(bob()), i32::MAX - 1);
}
