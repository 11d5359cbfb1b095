//! The loan manager: loans kept by identifier, funded by trusted lenders,
//! repaid with interest and late penalties, and declared in default after a
//! grace period.
use vstd::prelude::*;
use crate::config::ProtocolInfo;
use crate::ids::{be_bytes, push_address_bytes, push_be_bytes, Address, Key, LoanId};
use crate::keyed::{values_for, KeyedList, PairList};
use crate::loan::Instruction;

verus! {

/// Where a managed loan stands.
#[derive(Clone, Copy, Debug, PartialEq, Eq, Structural)]
pub enum LoanStatus {
    Pending,
    Active,
    Repaid,
    Defaulted,
}

/// A managed loan's record.
#[derive(Clone, Copy, Debug, PartialEq, Eq)]
pub struct Loan {
    pub loan_id: LoanId,
    pub borrower: Address,
    pub requested_amount: u128,
    pub funded_amount: u128,
    /// Distinct lenders that funded the loan.
    pub lender_count: u32,
    /// Interest, in basis points of the requested amount.
    pub interest_rate: u64,
    /// Penalty per late period, in basis points of what is due.
    pub penalty_rate: u64,
    /// The loan's duration in seconds.
    pub duration: u64,
    /// Activation time, in milliseconds.
    pub start_time: u64,
    /// Due time, in milliseconds.
    pub due_time: u64,
    pub repaid_amount: u128,
    pub status: LoanStatus,
    /// What was funded beyond the requested amount.
    pub reserve: u128,
}

/// Why an operation of the manager was refused.
#[derive(Clone, Copy, Debug, PartialEq, Eq, Structural)]
pub enum Error {
    NotTrusted,
    LoanNotFound,
    InvalidDuration,
    InsufficientOverfunding,
    NotEnoughLenders,
    Unauthorized,
    LoanNotPending,
    LoanNotActive,
    Overdue,
    InsufficientPayment,
    CrossContractCallFailed,
    TransferFailed,
    ZeroAmount,
    AlreadyDefaulted,
}

/// A loan was requested.
#[derive(Clone, Copy, Debug)]
pub struct LoanCreated {
    pub loan_id: LoanId,
    pub borrower: Address,
}

/// A lender funded a loan.
#[derive(Clone, Copy, Debug)]
pub struct LoanFunded {
    pub loan_id: LoanId,
    pub lender: Address,
    pub amount: u128,
}

/// A loan met its funding threshold and became active.
#[derive(Clone, Copy, Debug)]
pub struct LoanActivated {
    pub loan_id: LoanId,
    pub borrower: Address,
}

/// A borrower paid towards a loan.
#[derive(Clone, Copy, Debug)]
pub struct LoanRepaid {
    pub loan_id: LoanId,
    pub amount: u128,
}

/// A loan was declared in default.
#[derive(Clone, Copy, Debug)]
pub struct LoanDefaulted {
    pub loan_id: LoanId,
}

/// A loan was repaid in full and ended; its record stays, for reading.
#[derive(Clone, Copy, Debug)]
pub struct LoanEnded {
    pub loan_id: LoanId,
}

/// What a successful funding call reports: the funding itself, the
/// activation it caused if any, and the transfer of the requested amount to
/// the borrower that activation asks for.
#[derive(Clone, Copy, Debug)]
pub struct FundOutcome {
    pub funded: LoanFunded,
    pub activated: Option<LoanActivated>,
    pub transfer: Option<Instruction>,
}

/// What a successful payment reports: the payment, and the end of the loan
/// when the payment clears what is due.
#[derive(Clone, Copy, Debug)]
pub struct PayOutcome {
    pub repaid: LoanRepaid,
    pub ended: Option<LoanEnded>,
}

/// Which lender funded which loan.
#[derive(Clone, Copy, Debug)]
pub struct LenderKey {
    pub loan_id: LoanId,
    pub lender: Address,
}

impl Key for LenderKey {
    fn same(&self, other: &Self) -> (r: bool) {
        self.loan_id.same(&other.loan_id) && self.lender.same(&other.lender)
    }
}

/// The credit score a borrower starts with.
pub const INITIAL_CREDIT_SCORE: u32 = 100;

/// The length of a late-penalty period that `LoanManager::new` sets, in
/// milliseconds: three days.
pub const DEFAULT_PENALTY_PERIOD_MS: u64 = 259_200_000;

/// How long after its due time a loan may be declared in default, as
/// `LoanManager::new` sets it, in milliseconds: sixty days.
pub const DEFAULT_GRACE_PERIOD_MS: u64 = 5_184_000_000;

/// The identifier of a loan is the BLAKE2 hash, 256 bits, of these bytes.
pub uninterp spec fn blake2x256_of(input: Seq<u8>) -> Seq<u8>;

/// Relies on `ink::env::hash_bytes` with `Blake2x256`: the 32-byte BLAKE2b
/// digest of the input, which depends on the input alone.
#[verifier::external_body]
fn blake2x256(input: &Vec<u8>) -> (r: [u8; 32])
    ensures
        r@ == blake2x256_of(input@),
{
    let mut out = [0u8; 32];
    ink::env::hash_bytes::<ink::env::hash::Blake2x256>(input.as_slice(), &mut out);
    out
}

/// The bytes a loan identifier is derived from: the borrower's address and
/// the creation time.
pub open spec fn loan_id_seed(borrower: Address, now: u64) -> Seq<u8> {
    borrower.bytes@ + be_bytes(now)
}

/// `a + b`, or `u128::MAX` when that does not fit.
pub open spec fn sat_add(a: int, b: int) -> int {
    if a + b <= u128::MAX {
        a + b
    } else {
        u128::MAX as int
    }
}

/// `a * b`, or `u128::MAX` when that does not fit.
pub open spec fn sat_mul(a: int, b: int) -> int {
    if a * b <= u128::MAX {
        a * b
    } else {
        u128::MAX as int
    }
}

fn saturating_mul(a: u128, b: u128) -> (r: u128)
    ensures
        r == sat_mul(a as int, b as int),
{
    match a.checked_mul(b) {
        Some(x) => x,
        None => u128::MAX,
    }
}

/// The funding a loan needs to activate: the requested amount scaled by
/// the overfunding factor, in percent.
pub open spec fn required_funding(requested: u128, factor: u64) -> int {
    sat_mul(requested as int, factor as int) / 100
}

/// What a loan owes at `now`: the requested amount with interest, plus, past
/// the due time, a penalty on that for each whole penalty period of
/// `period` milliseconds elapsed (a zero period charges none; managers are
/// built with a positive one). Amounts past `u128::MAX` stay at
/// `u128::MAX`.
pub open spec fn total_due(loan: Loan, now: u64, period: u64) -> int {
    let base = sat_add(
        loan.requested_amount as int,
        sat_mul(loan.requested_amount as int, loan.interest_rate as int) / 10000,
    );
    if now > loan.due_time && period > 0 {
        let periods = (now - loan.due_time) / (period as int);
        sat_add(base, sat_mul(sat_mul(base, loan.penalty_rate as int) / 10000, periods))
    } else {
        base
    }
}

/// The mathematical content of the manager.
pub struct ManagerModel {
    pub config_address: Address,
    pub trust_graph_address: Address,
    /// The length of a late-penalty period, in milliseconds.
    pub penalty_period_ms: u64,
    /// How long after its due time a loan may be declared in default, in
    /// milliseconds.
    pub default_grace_ms: u64,
    pub credit_score: Map<Address, u32>,
    pub loans: Map<LoanId, Loan>,
    pub borrower_loans: Seq<(Address, LoanId)>,
    pub lenders: Map<LenderKey, u128>,
}

/// The records of a manager.
#[derive(Clone, Debug)]
pub struct LoanManager {
    config_address: Address,
    trust_graph_address: Address,
    penalty_period_ms: u64,
    default_grace_ms: u64,
    credit_score: KeyedList<Address, u32>,
    loans: KeyedList<LoanId, Loan>,
    borrower_loans: PairList<Address, LoanId>,
    lenders: KeyedList<LenderKey, u128>,
}

impl View for LoanManager {
    type V = ManagerModel;

    closed spec fn view(&self) -> ManagerModel {
        ManagerModel {
            config_address: self.config_address,
            trust_graph_address: self.trust_graph_address,
            penalty_period_ms: self.penalty_period_ms,
            default_grace_ms: self.default_grace_ms,
            credit_score: self.credit_score@,
            loans: self.loans@,
            borrower_loans: self.borrower_loans@,
            lenders: self.lenders@,
        }
    }
}

impl ManagerModel {
    /// The manager after a new loan is recorded under `loan_id`.
    pub open spec fn opened(
        self,
        loan_id: LoanId,
        borrower: Address,
        requested_amount: u128,
        duration: u64,
        info: ProtocolInfo,
    ) -> ManagerModel {
        ManagerModel {
            credit_score: if self.credit_score.contains_key(borrower) {
                self.credit_score
            } else {
                self.credit_score.insert(borrower, INITIAL_CREDIT_SCORE)
            },
            loans: self.loans.insert(
                loan_id,
                Loan {
                    loan_id,
                    borrower,
                    requested_amount,
                    funded_amount: 0,
                    lender_count: 0,
                    interest_rate: info.base_interest_rate,
                    penalty_rate: info.late_penalty_rate,
                    duration,
                    start_time: 0,
                    due_time: 0,
                    repaid_amount: 0,
                    status: LoanStatus::Pending,
                    reserve: 0,
                },
            ),
            borrower_loans: self.borrower_loans.push((borrower, loan_id)),
            ..self
        }
    }

    /// Why a loan request would be refused, if it would.
    pub open spec fn create_refusal(
        self,
        requested_amount: u128,
        duration: u64,
        has_trusted: bool,
        info: ProtocolInfo,
    ) -> Option<Error> {
        if requested_amount == 0 {
            Some(Error::ZeroAmount)
        } else if !has_trusted {
            Some(Error::NotTrusted)
        } else if duration > info.max_loan_duration || duration == 0 {
            Some(Error::InvalidDuration)
        } else {
            None
        }
    }

    /// The loan after `lender`, who had put in `existing` before, funds it
    /// with `amount`.
    pub open spec fn funded(loan: Loan, existing: u128, amount: u128) -> Loan {
        Loan {
            funded_amount: sat_add(loan.funded_amount as int, amount as int) as u128,
            lender_count: if existing == 0 {
                if loan.lender_count < u32::MAX {
                    (loan.lender_count + 1) as u32
                } else {
                    u32::MAX
                }
            } else {
                loan.lender_count
            },
            ..loan
        }
    }

    /// Whether a funded loan meets the activation threshold.
    pub open spec fn meets_threshold(loan: Loan, info: ProtocolInfo) -> bool {
        loan.funded_amount >= required_funding(loan.requested_amount, info.overfunding_factor)
            && loan.lender_count >= info.min_lenders
    }

    /// The loan after activation at `now`.
    pub open spec fn activated(loan: Loan, now: u64) -> Loan {
        let span = if loan.duration * 1000 <= u64::MAX {
            (loan.duration * 1000) as u64
        } else {
            u64::MAX
        };
        Loan {
            status: LoanStatus::Active,
            start_time: now,
            due_time: if now + span <= u64::MAX {
                (now + span) as u64
            } else {
                u64::MAX
            },
            reserve: (loan.funded_amount - loan.requested_amount) as u128,
            ..loan
        }
    }

    /// What `lender` has put into a loan so far.
    pub open spec fn lender_total(self, key: LenderKey) -> u128 {
        if self.lenders.contains_key(key) {
            self.lenders[key]
        } else {
            0
        }
    }

    /// Why a funding call would be refused, if it would.
    pub open spec fn fund_refusal(
        self,
        caller: Address,
        loan_id: LoanId,
        amount: u128,
        lender_trusts_borrower: bool,
        info: ProtocolInfo,
    ) -> Option<Error> {
        if amount == 0 {
            Some(Error::ZeroAmount)
        } else if !self.loans.contains_key(loan_id) {
            Some(Error::LoanNotFound)
        } else if self.loans[loan_id].status != LoanStatus::Pending {
            Some(Error::LoanNotPending)
        } else if !lender_trusts_borrower {
            Some(Error::NotTrusted)
        } else {
            let key = LenderKey { loan_id, lender: caller };
            let f = Self::funded(self.loans[loan_id], self.lender_total(key), amount);
            if Self::meets_threshold(f, info) && f.funded_amount < f.requested_amount {
                Some(Error::InsufficientOverfunding)
            } else {
                None
            }
        }
    }

    /// Why a payment would be refused, if it would.
    pub open spec fn pay_refusal(self, caller: Address, loan_id: LoanId, amount: u128) -> Option<
        Error,
    > {
        if amount == 0 {
            Some(Error::ZeroAmount)
        } else if !self.loans.contains_key(loan_id) {
            Some(Error::LoanNotFound)
        } else if self.loans[loan_id].borrower != caller {
            Some(Error::Unauthorized)
        } else if self.loans[loan_id].status != LoanStatus::Active {
            Some(Error::LoanNotActive)
        } else {
            None
        }
    }

    /// Why a default check would be refused, if it would.
    pub open spec fn default_refusal(self, loan_id: LoanId, now: u64) -> Option<Error> {
        if !self.loans.contains_key(loan_id) {
            Some(Error::LoanNotFound)
        } else if self.loans[loan_id].status == LoanStatus::Active && now
            <= self.loans[loan_id].due_time + self.default_grace_ms {
            Some(Error::Overdue)
        } else {
            None
        }
    }

    /// The loans of `ids` that exist and are pending, in order.
    pub open spec fn pending_among(self, ids: Seq<LoanId>) -> Seq<Loan>
        decreases ids.len(),
    {
        if ids.len() == 0 {
            Seq::empty()
        } else {
            let rest = self.pending_among(ids.drop_last());
            let id = ids.last();
            if self.loans.contains_key(id) && self.loans[id].status == LoanStatus::Pending {
                rest.push(self.loans[id])
            } else {
                rest
            }
        }
    }

    /// The pending loans of the borrowers in `trusted`, borrower by
    /// borrower, each borrower's in the order they were created.
    pub open spec fn pending_of(self, trusted: Seq<Address>) -> Seq<Loan>
        decreases trusted.len(),
    {
        if trusted.len() == 0 {
            Seq::empty()
        } else {
            self.pending_of(trusted.drop_last()) + self.pending_among(
                values_for(self.borrower_loans, trusted.last()),
            )
        }
    }
}

impl LoanManager {
    /// A manager with no loans, consulting the configuration and the trust
    /// graph at the given addresses, with the default penalty period and
    /// grace period.
    pub fn new(config_address: Address, trust_graph_address: Address) -> (r: LoanManager)
        ensures
            r@ == (ManagerModel {
                config_address,
                trust_graph_address,
                penalty_period_ms: DEFAULT_PENALTY_PERIOD_MS,
                default_grace_ms: DEFAULT_GRACE_PERIOD_MS,
                credit_score: Map::empty(),
                loans: Map::empty(),
                borrower_loans: Seq::empty(),
                lenders: Map::empty(),
            }),
    {
        Self::with_periods(
            config_address,
            trust_graph_address,
            DEFAULT_PENALTY_PERIOD_MS,
            DEFAULT_GRACE_PERIOD_MS,
        )
    }

    /// A manager with no loans, with a late penalty for each
    /// `penalty_period_ms` past the due time, and default possible
    /// `default_grace_ms` after it.
    pub fn with_periods(
        config_address: Address,
        trust_graph_address: Address,
        penalty_period_ms: u64,
        default_grace_ms: u64,
    ) -> (r: LoanManager)
        requires
            penalty_period_ms > 0,
        ensures
            r@ == (ManagerModel {
                config_address,
                trust_graph_address,
                penalty_period_ms,
                default_grace_ms,
                credit_score: Map::empty(),
                loans: Map::empty(),
                borrower_loans: Seq::empty(),
                lenders: Map::empty(),
            }),
    {
        LoanManager {
            config_address,
            trust_graph_address,
            penalty_period_ms,
            default_grace_ms,
            credit_score: KeyedList::new(),
            loans: KeyedList::new(),
            borrower_loans: PairList::new(),
            lenders: KeyedList::new(),
        }
    }

    /// Records a new pending loan of `borrower` under `loan_id`, on the
    /// terms of `info`; a borrower seen for the first time gets the initial
    /// credit score.
    pub fn open_loan(
        &mut self,
        loan_id: LoanId,
        borrower: Address,
        requested_amount: u128,
        duration: u64,
        info: ProtocolInfo,
    ) -> (r: LoanCreated)
        ensures
            r == (LoanCreated { loan_id, borrower }),
            final(self)@ == old(self)@.opened(loan_id, borrower, requested_amount, duration, info),
    {
        if !self.credit_score.contains(&borrower) {
            self.credit_score.insert(borrower, INITIAL_CREDIT_SCORE);
        }
        let loan = Loan {
            loan_id,
            borrower,
            requested_amount,
            funded_amount: 0,
            lender_count: 0,
            interest_rate: info.base_interest_rate,
            penalty_rate: info.late_penalty_rate,
            duration,
            start_time: 0,
            due_time: 0,
            repaid_amount: 0,
            status: LoanStatus::Pending,
            reserve: 0,
        };
        self.loans.insert(loan_id, loan);
        self.borrower_loans.push(borrower, loan_id);
        LoanCreated { loan_id, borrower }
    }

    /// Creates a loan request by `caller` at `now`. `has_trusted` tells
    /// whether the trust graph lists anyone the caller trusts, and `info`
    /// holds the configuration's current terms. The loan's identifier is the
    /// BLAKE2 hash of the caller's address and the time.
    ///
    /// Refused, in this order, for a zero amount, for a caller who trusts
    /// nobody, and for a duration of zero or above the maximum; a refused
    /// call changes nothing.
    pub fn create_loan(
        &mut self,
        caller: Address,
        requested_amount: u128,
        duration: u64,
        now: u64,
        has_trusted: bool,
        info: ProtocolInfo,
    ) -> (r: Result<LoanId, Error>)
        ensures
            old(self)@.create_refusal(requested_amount, duration, has_trusted, info) matches Some(e)
                ==> r == Err::<LoanId, Error>(e) && final(self)@ == old(self)@,
            old(self)@.create_refusal(requested_amount, duration, has_trusted, info) is None ==> r is Ok
                && r->Ok_0.bytes@ == blake2x256_of(loan_id_seed(caller, now)) && final(self)@ == old(
                self,
            )@.opened(r->Ok_0, caller, requested_amount, duration, info),
    {
        if requested_amount == 0 {
            return Err(Error::ZeroAmount);
        }
        if !has_trusted {
            return Err(Error::NotTrusted);
        }
        if duration > info.max_loan_duration || duration == 0 {
            return Err(Error::InvalidDuration);
        }
        let mut seed: Vec<u8> = Vec::new();
        push_address_bytes(&mut seed, &caller);
        push_be_bytes(&mut seed, now);
        let loan_id = LoanId { bytes: blake2x256(&seed) };
        self.open_loan(loan_id, caller, requested_amount, duration, info);
        Ok(loan_id)
    }

    /// Funds a pending loan with `amount` from `caller` at `now`.
    /// `lender_trusts_borrower` tells whether the trust graph lists the
    /// borrower among those the caller trusts, and `info` holds the
    /// configuration's current terms. Once the funding reaches the
    /// overfunding threshold and enough distinct lenders took part, the loan
    /// activates: what was funded beyond the requested amount becomes the
    /// reserve, and the requested amount is to go to the borrower.
    ///
    /// Refused, changing nothing, for a zero amount, an unknown loan, a loan
    /// that is not pending, a lender who does not trust the borrower, and an
    /// activation whose funding falls short of the requested amount.
    pub fn fund_loan(
        &mut self,
        caller: Address,
        loan_id: LoanId,
        amount: u128,
        now: u64,
        lender_trusts_borrower: bool,
        info: ProtocolInfo,
    ) -> (r: Result<FundOutcome, Error>)
        ensures
            old(self)@.fund_refusal(caller, loan_id, amount, lender_trusts_borrower, info) matches Some(
                e,
            ) ==> r == Err::<FundOutcome, Error>(e) && final(self)@ == old(self)@,
            old(self)@.fund_refusal(caller, loan_id, amount, lender_trusts_borrower, info) is None
                ==> ({
                let key = LenderKey { loan_id, lender: caller };
                let f = ManagerModel::funded(
                    old(self)@.loans[loan_id],
                    old(self)@.lender_total(key),
                    amount,
                );
                let lenders = old(self)@.lenders.insert(
                    key,
                    sat_add(old(self)@.lender_total(key) as int, amount as int) as u128,
                );
                &&& r is Ok
                &&& r->Ok_0.funded == (LoanFunded { loan_id, lender: caller, amount })
                &&& if ManagerModel::meets_threshold(f, info) {
                    &&& r->Ok_0.activated == Some(LoanActivated { loan_id, borrower: f.borrower })
                    &&& r->Ok_0.transfer == Some(
                        Instruction::Transfer { to: f.borrower, amount: f.requested_amount },
                    )
                    &&& final(self)@ == (ManagerModel {
                        loans: old(self)@.loans.insert(loan_id, ManagerModel::activated(f, now)),
                        lenders,
                        ..old(self)@
                    })
                } else {
                    &&& r->Ok_0.activated == None::<LoanActivated>
                    &&& r->Ok_0.transfer == None::<Instruction>
                    &&& final(self)@ == (ManagerModel {
                        loans: old(self)@.loans.insert(loan_id, f),
                        lenders,
                        ..old(self)@
                    })
                }
            }),
    {
        if amount == 0 {
            return Err(Error::ZeroAmount);
        }
        let mut loan = match self.loans.get(&loan_id) {
            Some(l) => l,
            None => {
                return Err(Error::LoanNotFound);
            },
        };
        if loan.status != LoanStatus::Pending {
            return Err(Error::LoanNotPending);
        }
        if !lender_trusts_borrower {
            return Err(Error::NotTrusted);
        }
        let key = LenderKey { loan_id, lender: caller };
        let existing = match self.lenders.get(&key) {
            Some(x) => x,
            None => 0,
        };
        if existing == 0 {
            loan.lender_count = loan.lender_count.saturating_add(1);
        }
        loan.funded_amount = loan.funded_amount.saturating_add(amount);
        let required = saturating_mul(loan.requested_amount, info.overfunding_factor as u128) / 100;
        let mut activated: Option<LoanActivated> = None;
        let mut transfer: Option<Instruction> = None;
        if loan.funded_amount >= required && loan.lender_count >= info.min_lenders {
            if loan.funded_amount < loan.requested_amount {
                return Err(Error::InsufficientOverfunding);
            }
            loan.status = LoanStatus::Active;
            loan.start_time = now;
            let span = match loan.duration.checked_mul(1000) {
                Some(x) => x,
                None => u64::MAX,
            };
            loan.due_time = now.saturating_add(span);
            loan.reserve = loan.funded_amount - loan.requested_amount;
            activated = Some(LoanActivated { loan_id, borrower: loan.borrower });
            transfer = Some(Instruction::Transfer { to: loan.borrower, amount: loan.requested_amount });
        }
        self.lenders.insert(key, existing.saturating_add(amount));
        self.loans.insert(loan_id, loan);
        Ok(FundOutcome { funded: LoanFunded { loan_id, lender: caller, amount }, activated, transfer })
    }

    /// What `loan` owes at `now`, with this manager's penalty period.
    pub fn amount_due(&self, loan: &Loan, now: u64) -> (r: u128)
        ensures
            r == total_due(*loan, now, self@.penalty_period_ms),
    {
        let interest = saturating_mul(loan.requested_amount, loan.interest_rate as u128) / 10000;
        let base = loan.requested_amount.saturating_add(interest);
        if now > loan.due_time && self.penalty_period_ms > 0 {
            let periods = ((now - loan.due_time) / self.penalty_period_ms) as u128;
            let per_period = saturating_mul(base, loan.penalty_rate as u128) / 10000;
            base.saturating_add(saturating_mul(per_period, periods))
        } else {
            base
        }
    }

    /// Closes a repaid or defaulted loan. Its record stays, for reading.
    fn end_loan(&self, loan_id: LoanId) -> (r: Result<LoanEnded, Error>)
        ensures
            !self@.loans.contains_key(loan_id) ==> r == Err::<LoanEnded, Error>(Error::LoanNotFound),
            self@.loans.contains_key(loan_id) && (self@.loans[loan_id].status == LoanStatus::Repaid
                || self@.loans[loan_id].status == LoanStatus::Defaulted) ==> r == Ok::<
                LoanEnded,
                Error,
            >(LoanEnded { loan_id }),
            self@.loans.contains_key(loan_id) && !(self@.loans[loan_id].status == LoanStatus::Repaid
                || self@.loans[loan_id].status == LoanStatus::Defaulted) ==> r == Err::<
                LoanEnded,
                Error,
            >(Error::InsufficientPayment),
    {
        let loan = match self.loans.get(&loan_id) {
            Some(l) => l,
            None => {
                return Err(Error::LoanNotFound);
            },
        };
        if loan.status == LoanStatus::Repaid || loan.status == LoanStatus::Defaulted {
            Ok(LoanEnded { loan_id })
        } else {
            Err(Error::InsufficientPayment)
        }
    }

    /// Takes a payment of `amount` from `caller` at `now` towards an active
    /// loan. A payment that brings what was repaid up to what is due
    /// marks the loan repaid and ends it; its record stays, for reading.
    ///
    /// Refused, changing nothing, for a zero amount, an unknown loan, a
    /// caller who is not the borrower, and a loan that is not active.
    pub fn pay_loan(&mut self, caller: Address, loan_id: LoanId, amount: u128, now: u64) -> (r:
        Result<PayOutcome, Error>)
        ensures
            old(self)@.pay_refusal(caller, loan_id, amount) matches Some(e) ==> r == Err::<
                PayOutcome,
                Error,
            >(e) && final(self)@ == old(self)@,
            old(self)@.pay_refusal(caller, loan_id, amount) is None ==> ({
                let loan = old(self)@.loans[loan_id];
                let paid = Loan {
                    repaid_amount: sat_add(loan.repaid_amount as int, amount as int) as u128,
                    ..loan
                };
                &&& r is Ok
                &&& r->Ok_0.repaid == (LoanRepaid { loan_id, amount })
                &&& if paid.repaid_amount >= total_due(loan, now, old(self)@.penalty_period_ms) {
                    r->Ok_0.ended == Some(LoanEnded { loan_id }) && final(self)@ == (ManagerModel {
                        loans: old(self)@.loans.insert(
                            loan_id,
                            Loan { status: LoanStatus::Repaid, ..paid },
                        ),
                        ..old(self)@
                    })
                } else {
                    r->Ok_0.ended == None::<LoanEnded> && final(self)@ == (ManagerModel {
                        loans: old(self)@.loans.insert(loan_id, paid),
                        ..old(self)@
                    })
                }
            }),
    {
        if amount == 0 {
            return Err(Error::ZeroAmount);
        }
        let mut loan = match self.loans.get(&loan_id) {
            Some(l) => l,
            None => {
                return Err(Error::LoanNotFound);
            },
        };
        if !loan.borrower.same(&caller) {
            return Err(Error::Unauthorized);
        }
        if loan.status != LoanStatus::Active {
            return Err(Error::LoanNotActive);
        }
        let due = self.amount_due(&loan, now);
        loan.repaid_amount = loan.repaid_amount.saturating_add(amount);
        let repaid = LoanRepaid { loan_id, amount };
        if loan.repaid_amount >= due {
            loan.status = LoanStatus::Repaid;
            self.loans.insert(loan_id, loan);
            match self.end_loan(loan_id) {
                Ok(e) => Ok(PayOutcome { repaid, ended: Some(e) }),
                Err(e) => Err(e),
            }
        } else {
            self.loans.insert(loan_id, loan);
            Ok(PayOutcome { repaid, ended: None })
        }
    }

    /// Declares an active loan in default once, at `now`, the grace period
    /// after its due time has passed. On a loan that is not active it does
    /// nothing and reports no default.
    ///
    /// Refused, changing nothing, for an unknown loan, and with `Overdue`
    /// for an active loan while the grace period lasts.
    pub fn check_default(&mut self, loan_id: LoanId, now: u64) -> (r: Result<
        Option<LoanDefaulted>,
        Error,
    >)
        ensures
            old(self)@.default_refusal(loan_id, now) matches Some(e) ==> r == Err::<
                Option<LoanDefaulted>,
                Error,
            >(e) && final(self)@ == old(self)@,
            old(self)@.default_refusal(loan_id, now) is None && old(self)@.loans[loan_id].status
                != LoanStatus::Active ==> r == Ok::<Option<LoanDefaulted>, Error>(None)
                && final(self)@ == old(self)@,
            old(self)@.default_refusal(loan_id, now) is None && old(self)@.loans[loan_id].status
                == LoanStatus::Active ==> r == Ok::<Option<LoanDefaulted>, Error>(
                Some(LoanDefaulted { loan_id }),
            ) && final(self)@ == (ManagerModel {
                loans: old(self)@.loans.insert(
                    loan_id,
                    Loan { status: LoanStatus::Defaulted, ..old(self)@.loans[loan_id] },
                ),
                ..old(self)@
            }),
    {
        let mut loan = match self.loans.get(&loan_id) {
            Some(l) => l,
            None => {
                return Err(Error::LoanNotFound);
            },
        };
        if loan.status != LoanStatus::Active {
            return Ok(None);
        }
        let within_grace = match loan.due_time.checked_add(self.default_grace_ms) {
            Some(threshold) => now <= threshold,
            None => true,
        };
        if within_grace {
            return Err(Error::Overdue);
        }
        loan.status = LoanStatus::Defaulted;
        self.loans.insert(loan_id, loan);
        Ok(Some(LoanDefaulted { loan_id }))
    }

    /// The identifiers of the loans of `borrower`, in the order created.
    pub fn get_user_loans(&self, borrower: Address) -> (r: Vec<LoanId>)
        ensures
            r@ == values_for(self@.borrower_loans, borrower),
    {
        self.borrower_loans.values(&borrower)
    }

    pub fn get_loan(&self, loan_id: LoanId) -> (r: Option<Loan>)
        ensures
            r == (if self@.loans.contains_key(loan_id) {
                Some(self@.loans[loan_id])
            } else {
                None::<Loan>
            }),
    {
        self.loans.get(&loan_id)
    }

    /// A borrower's credit score; zero for one never seen.
    pub fn get_credit_score(&self, addr: Address) -> (r: u32)
        ensures
            r == (if self@.credit_score.contains_key(addr) {
                self@.credit_score[addr]
            } else {
                0
            }),
    {
        match self.credit_score.get(&addr) {
            Some(x) => x,
            None => 0,
        }
    }

    /// The pending loans of the borrowers that a lender trusts, where
    /// `trusted` is the lender's list from the trust graph (empty when it
    /// has none).
    pub fn get_trusted_loans(&self, trusted: &Vec<Address>) -> (r: Vec<Loan>)
        ensures
            r@ == self@.pending_of(trusted@),
    {
        let mut result: Vec<Loan> = Vec::new();
        let n = trusted.len();
        for i in 0..n
            invariant
                n == trusted.len(),
                result@ == self@.pending_of(trusted@.subrange(0, i as int)),
        {
            let ids = self.borrower_loans.values(&trusted[i]);
            let ghost before = result@;
            let m = ids.len();
            for j in 0..m
                invariant
                    m == ids.len(),
                    result@ == before + self@.pending_among(ids@.subrange(0, j as int)),
            {
                proof {
                    assert(ids@.subrange(0, j + 1).drop_last() =~= ids@.subrange(0, j as int));
                    assert(ids@.subrange(0, j + 1).last() == ids@[j as int]);
                }
                match self.loans.get(&ids[j]) {
                    Some(l) => {
                        if l.status == LoanStatus::Pending {
                            result.push(l);
                        }
                    },
                    None => {},
                }
                assert(result@ =~= before + self@.pending_among(ids@.subrange(0, j + 1)));
            }
            proof {
                assert(ids@.subrange(0, m as int) =~= ids@);
                assert(trusted@.subrange(0, i + 1).drop_last() =~= trusted@.subrange(0, i as int));
                assert(trusted@.subrange(0, i + 1).last() == trusted@[i as int]);
            }
        }
        proof {
            assert(trusted@.subrange(0, n as int) =~= trusted@);
        }
        result
    }
}

} // verus!
