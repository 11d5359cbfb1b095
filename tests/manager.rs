use microloan::config::ProtocolInfo;
use microloan::ids::{Address, LoanId};
use microloan::loan::Instruction;
use microloan::manager::{Error, Loan, LoanManager, LoanStatus};

fn parse_address(hex: &str) -> Address {
    let mut bytes = [0u8; 20];
    for (i, b) in bytes.iter_mut().enumerate() {
        *b = u8::from_str_radix(&hex[2 * i..2 * i + 2], 16).expect("valid H160");
    }
    Address::from_bytes(bytes)
}

fn parse_id(hex: &str) -> LoanId {
    let mut bytes = [0u8; 32];
    for (i, b) in bytes.iter_mut().enumerate() {
        *b = u8::from_str_radix(&hex[2 * i..2 * i + 2], 16).unwrap();
    }
    LoanId { bytes }
}

fn alice() -> Address {
    parse_address("d43593c715fdd31c61141abd04a99fd6822c8558")
}

fn bob() -> Address {
    parse_address("8eaf04151687736326c9fea17e25fc5287613693")
}

fn charlie() -> Address {
    parse_address("306721211d5404bd9da88e0204360a1a9ab8b87c")
}

fn dave() -> Address {
    parse_address("84b0a6355c4b526f559371aea8da3a288760b9a3")
}

fn config_contract() -> Address {
    parse_address("0000000000000000000000000000000000000001")
}

fn trust_contract() -> Address {
    parse_address("0000000000000000000000000000000000000002")
}

fn terms() -> ProtocolInfo {
    ProtocolInfo {
        min_lenders: 2,
        overfunding_factor: 150,
        base_interest_rate: 500,
        late_penalty_rate: 1000,
        max_loan_duration: 604_800,
    }
}

fn zero_id() -> LoanId {
    LoanId { bytes: [0u8; 32] }
}

fn sample_loan(requested_amount: u128, duration: u64) -> Loan {
    Loan {
        loan_id: zero_id(),
        borrower: alice(),
        requested_amount,
        funded_amount: 0,
        lender_count: 0,
        interest_rate: 500,
        penalty_rate: 1000,
        duration,
        start_time: 0,
        due_time: 0,
        repaid_amount: 0,
        status: LoanStatus::Pending,
        reserve: 0,
    }
}

#[test]
fn test_constructor() {
    let manager = LoanManager::new(config_contract(), trust_contract());
    assert_eq!(manager.get_credit_score(charlie()), 0);
}

#[test]
fn test_create_loan_zero_amount() {
    let mut manager = LoanManager::new(config_contract(), trust_contract());
    let result = manager.create_loan(charlie(), 0, 100, 0, true, terms());
    assert_eq!(result, Err(Error::ZeroAmount));
}

#[test]
fn test_credit_score_initialization() {
    let manager = LoanManager::new(config_contract(), trust_contract());
    assert_eq!(manager.get_credit_score(charlie()), 0);
}

#[test]
fn test_get_user_loans_empty() {
    let manager = LoanManager::new(config_contract(), trust_contract());
    assert_eq!(manager.get_user_loans(charlie()).len(), 0);
}

#[test]
fn test_get_loan_not_found() {
    let manager = LoanManager::new(config_contract(), trust_contract());
    assert_eq!(manager.get_loan(zero_id()), None);
}

#[test]
fn test_loan_status_equality() {
    assert_eq!(LoanStatus::Pending, LoanStatus::Pending);
    assert_ne!(LoanStatus::Pending, LoanStatus::Active);
    assert_ne!(LoanStatus::Active, LoanStatus::Repaid);
    assert_ne!(LoanStatus::Repaid, LoanStatus::Defaulted);
}

#[test]
fn test_loan_creation_attributes() {
    let requested = 1000u128;
    let duration = 86400u64;
    assert!(requested > 0);
    assert!(duration > 0);
}

#[test]
fn test_loan_struct_fields() {
    let loan = sample_loan(1000, 86400);
    assert_eq!(loan.requested_amount, 1000);
    assert_eq!(loan.funded_amount, 0);
    assert_eq!(loan.lender_count, 0);
    assert_eq!(loan.status, LoanStatus::Pending);
    assert_eq!(loan.reserve, 0);
}

#[test]
fn test_error_types() {
    assert_eq!(Error::NotTrusted, Error::NotTrusted);
    assert_ne!(Error::NotTrusted, Error::LoanNotFound);
    assert_ne!(Error::ZeroAmount, Error::Unauthorized);
}

#[test]
fn test_pay_loan_zero_amount() {
    let mut manager = LoanManager::new(config_contract(), trust_contract());
    let result = manager.pay_loan(charlie(), zero_id(), 0, 0);
    assert_eq!(result.err(), Some(Error::ZeroAmount));
}

#[test]
fn test_check_default_loan_not_found() {
    let mut manager = LoanManager::new(config_contract(), trust_contract());
    let result = manager.check_default(zero_id(), 0);
    assert_eq!(result.err(), Some(Error::LoanNotFound));
}

#[test]
fn test_independent_credit_scores() {
    let manager = LoanManager::new(config_contract(), trust_contract());
    assert_eq!(manager.get_credit_score(charlie()), 0);
    assert_eq!(manager.get_credit_score(dave()), 0);
}

#[test]
fn test_loan_struct_initialization() {
    let loan = sample_loan(5000u128, 604800u64);
    assert_eq!(loan.requested_amount, 5000u128);
    assert_eq!(loan.interest_rate, 500u64);
    assert_eq!(loan.penalty_rate, 1000u64);
    assert_eq!(loan.duration, 604800u64);
    assert_eq!(loan.status, LoanStatus::Pending);
}

#[test]
fn test_loan_status_transitions() {
    let mut loan = sample_loan(1000, 86400);
    assert_eq!(loan.status, LoanStatus::Pending);
    loan.status = LoanStatus::Active;
    assert_eq!(loan.status, LoanStatus::Active);
    loan.status = LoanStatus::Repaid;
    assert_eq!(loan.status, LoanStatus::Repaid);
    loan.status = LoanStatus::Defaulted;
    assert_eq!(loan.status, LoanStatus::Defaulted);
}

#[test]
fn create_loan_derives_id_from_borrower_and_time() {
    let mut manager = LoanManager::new(config_contract(), trust_contract());
    let id = manager.create_loan(charlie(), 1_000, 86_400, 0, true, terms()).unwrap();
    assert_eq!(id, parse_id("db0d7ebd075f04636b55701e561f0863ada7c3115af4742a80cf8d08d1d59878"));
    let later = manager.create_loan(charlie(), 1_000, 86_400, 1_000, true, terms()).unwrap();
    assert_eq!(later, parse_id("3a45cd2797eb1550cffa6791dab17c06d9f54fba00d8afdd6c49fdf0716dbafe"));
    assert_eq!(manager.get_user_loans(charlie()), vec![id, later]);
    assert_eq!(manager.get_credit_score(charlie()), 100);
    let loan = manager.get_loan(id).unwrap();
    assert_eq!(loan.status, LoanStatus::Pending);
    assert_eq!(loan.interest_rate, 500);
    assert_eq!(loan.penalty_rate, 1000);
}

#[test]
fn create_loan_refusals_change_nothing() {
    let mut manager = LoanManager::new(config_contract(), trust_contract());
    assert_eq!(manager.create_loan(charlie(), 10, 100, 0, false, terms()), Err(Error::NotTrusted));
    assert_eq!(manager.create_loan(charlie(), 10, 0, 0, true, terms()), Err(Error::InvalidDuration));
    assert_eq!(
        manager.create_loan(charlie(), 10, 604_801, 0, true, terms()),
        Err(Error::InvalidDuration)
    );
    assert_eq!(manager.get_credit_score(charlie()), 0);
    assert!(manager.get_user_loans(charlie()).is_empty());
}

#[test]
fn funding_activates_and_repayment_ends_loan() {
    let mut manager = LoanManager::new(config_contract(), trust_contract());
    let id = manager.create_loan(charlie(), 1_000, 86_400, 0, true, terms()).unwrap();

    assert_eq!(manager.fund_loan(alice(), id, 500, 10, false, terms()).err(), Some(Error::NotTrusted));
    let first = manager.fund_loan(alice(), id, 900, 10, true, terms()).unwrap();
    assert!(first.activated.is_none());
    assert!(first.transfer.is_none());
    assert_eq!(first.funded.amount, 900);
    assert_eq!(manager.get_trusted_loans(&vec![charlie()]).len(), 1);

    let second = manager.fund_loan(bob(), id, 600, 20, true, terms()).unwrap();
    assert!(second.activated.is_some());
    assert_eq!(second.transfer, Some(Instruction::Transfer { to: charlie(), amount: 1_000 }));
    let loan = manager.get_loan(id).unwrap();
    assert_eq!(loan.status, LoanStatus::Active);
    assert_eq!(loan.funded_amount, 1_500);
    assert_eq!(loan.lender_count, 2);
    assert_eq!(loan.reserve, 500);
    assert_eq!(loan.start_time, 20);
    assert_eq!(loan.due_time, 20 + 86_400_000);
    assert!(manager.get_trusted_loans(&vec![charlie()]).is_empty());
    assert_eq!(manager.fund_loan(bob(), id, 1, 30, true, terms()).err(), Some(Error::LoanNotPending));

    assert_eq!(manager.pay_loan(alice(), id, 10, 30).err(), Some(Error::Unauthorized));
    let part = manager.pay_loan(charlie(), id, 1_000, 30).unwrap();
    assert!(part.ended.is_none());
    assert_eq!(manager.get_loan(id).unwrap().repaid_amount, 1_000);
    let rest = manager.pay_loan(charlie(), id, 50, 40).unwrap();
    assert_eq!(rest.ended.map(|e| e.loan_id), Some(id));
    let repaid = manager.get_loan(id).unwrap();
    assert_eq!(repaid.status, LoanStatus::Repaid);
    assert_eq!(repaid.repaid_amount, 1_050);
    assert_eq!(manager.get_user_loans(charlie()), vec![id]);
    assert_eq!(manager.pay_loan(charlie(), id, 1, 50).err(), Some(Error::LoanNotActive));
    assert_eq!(manager.check_default(id, u64::MAX).unwrap().map(|d| d.loan_id), None);
}

#[test]
fn late_payment_owes_penalty() {
    let manager = LoanManager::new(config_contract(), trust_contract());
    let mut loan = sample_loan(1_000, 86_400);
    loan.due_time = 1_000;
    assert_eq!(manager.amount_due(&loan, 1_000), 1_050);
    assert_eq!(manager.amount_due(&loan, 1_000 + 259_200_000), 1_155);
    assert_eq!(manager.amount_due(&loan, 1_000 + 2 * 259_200_000 + 5), 1_260);

    let daily = LoanManager::with_periods(config_contract(), trust_contract(), 86_400_000, 0);
    assert_eq!(daily.amount_due(&loan, 1_000 + 86_400_000), 1_155);
    assert_eq!(daily.amount_due(&loan, 1_000 + 3 * 86_400_000), 1_365);
}

#[test]
fn default_only_after_grace_period() {
    let mut manager = LoanManager::new(config_contract(), trust_contract());
    let id = manager.create_loan(charlie(), 1_000, 1, 0, true, terms()).unwrap();
    assert!(manager.check_default(id, 0).unwrap().is_none());
    manager.fund_loan(alice(), id, 800, 0, true, terms()).unwrap();
    manager.fund_loan(bob(), id, 800, 0, true, terms()).unwrap();
    let due = manager.get_loan(id).unwrap().due_time;
    assert_eq!(due, 1_000);
    let grace = 60 * 86_400_000;
    assert_eq!(manager.check_default(id, due + grace).err(), Some(Error::Overdue));
    assert_eq!(manager.check_default(id, due + grace + 1).unwrap().unwrap().loan_id, id);
    assert_eq!(manager.get_loan(id).unwrap().status, LoanStatus::Defaulted);
    assert!(manager.check_default(id, due + grace + 2).unwrap().is_none());
    assert_eq!(manager.get_loan(id).unwrap().status, LoanStatus::Defaulted);
}

#[test]
fn activation_below_requested_amount_is_refused() {
    let mut manager = LoanManager::new(config_contract(), trust_contract());
    let low = ProtocolInfo { overfunding_factor: 50, ..terms() };
    let id = manager.create_loan(charlie(), 1_000, 10, 0, true, low).unwrap();
    manager.fund_loan(alice(), id, 300, 0, true, low).unwrap();
    assert_eq!(
        manager.fund_loan(bob(), id, 300, 0, true, low).err(),
        Some(Error::InsufficientOverfunding)
    );
    assert_eq!(manager.get_loan(id).unwrap().funded_amount, 300);
}
