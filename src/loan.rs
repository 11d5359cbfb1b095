//! One loan: its ledger of contributions and balances, the funding,
//! repayment and default operations, and the settlement they end in.
use vstd::prelude::*;
use crate::ids::{contains_address, Address, Key};
use crate::settlement::{
    lemma_amount_le_sum, lemma_part_bounds, lemma_payout_transfers_total, lemma_pool_conservation,
    lemma_share_bounds, lemma_transfer_total_concat, payout_transfers, sum_amounts, sum_payouts,
    transfer_if_positive, transfer_total, MAX_FUNDING, SCALE,
};

verus! {

/// Where a loan stands in its life.
#[derive(Clone, Copy, Debug, PartialEq, Eq, Structural)]
pub enum LoanState {
    Funding,
    Active,
    Defaulted,
    Completed,
}

/// One contribution: who lent, and how much.
#[derive(Clone, Copy, Debug)]
pub struct LenderContribution {
    pub lender: Address,
    pub amount: u128,
}

/// What an operation asks of the world outside the ledger, in order.
#[derive(Clone, Copy, Debug)]
pub enum Instruction {
    /// Move `amount` out of the loan's balance to `to`.
    Transfer { to: Address, amount: u128 },
    /// Tell the trust oracle that `borrower` paid `amount`.
    NotifyInstallment { borrower: Address, amount: u128 },
    /// Tell the trust oracle that `borrower` defaulted.
    NotifyDefault { borrower: Address },
}

impl PartialEq for Instruction {
    fn eq(&self, other: &Instruction) -> (r: bool) {
        match (self, other) {
            (Instruction::Transfer { to: a, amount: x }, Instruction::Transfer { to: b, amount: y }) => {
                a.same(b) && *x == *y
            },
            (
                Instruction::NotifyInstallment { borrower: a, amount: x },
                Instruction::NotifyInstallment { borrower: b, amount: y },
            ) => a.same(b) && *x == *y,
            (Instruction::NotifyDefault { borrower: a }, Instruction::NotifyDefault { borrower: b }) => {
                a.same(b)
            },
            _ => false,
        }
    }
}

impl vstd::std_specs::cmp::PartialEqSpecImpl for Instruction {
    open spec fn obeys_eq_spec() -> bool {
        true
    }

    open spec fn eq_spec(&self, other: &Instruction) -> bool {
        *self == *other
    }
}

impl Eq for Instruction {
}

/// Why an operation on a loan was refused.
#[derive(Clone, Copy, Debug, PartialEq, Eq, Structural)]
pub enum LoanError {
    /// The operation is not valid in the loan's current state.
    InvalidState,
    /// The amount sent was zero.
    ZeroAmount,
    /// The funding target is met but too few distinct lenders took part.
    NotEnoughLenders,
}

/// The denominator of a rate or factor in basis points.
pub const BPS: u128 = 10_000;

/// How many distinct lenders a loan needs before it activates.
pub const DEFAULT_MIN_LENDERS: u32 = 3;

/// The lenders that took part in a list of contributions.
pub open spec fn lenders_of(cs: Seq<LenderContribution>) -> Set<Address>
    decreases cs.len(),
{
    if cs.len() == 0 {
        Set::empty()
    } else {
        lenders_of(cs.drop_last()).insert(cs.last().lender)
    }
}

/// How many distinct lenders took part in a list of contributions.
pub open spec fn distinct_lenders(cs: Seq<LenderContribution>) -> nat {
    lenders_of(cs).len()
}

/// The steps a loan's state may take in one operation: it stays, or moves
/// one step forward along `Funding -> Active -> Completed | Defaulted`.
pub open spec fn allowed_transition(a: LoanState, b: LoanState) -> bool {
    ||| a == b
    ||| a == LoanState::Funding && b == LoanState::Active
    ||| a == LoanState::Active && b == LoanState::Completed
    ||| a == LoanState::Active && b == LoanState::Defaulted
}

/// The mathematical content of a loan.
pub struct LoanModel {
    pub borrower: Address,
    pub principal: u128,
    pub overfactor_bps: u32,
    pub total_required: u128,
    pub total_contributed: u128,
    pub min_lenders: u32,
    pub contributions: Seq<LenderContribution>,
    pub remaining_debt: u128,
    pub repaid_amount: u128,
    pub state: LoanState,
    pub created_at: u64,
    pub activated_at: u64,
    pub duration: u64,
    pub due_time: u64,
    pub last_payment_at: u64,
    pub trust_oracle: Address,
    pub reserve: u128,
    pub unrecovered_loss: u128,
    pub trust_score_at_issuance: i32,
}

impl LoanModel {
    /// The ledger's invariants.
    pub open spec fn well_formed(self) -> bool {
        &&& self.total_contributed == sum_amounts(self.contributions)
        &&& self.total_contributed <= MAX_FUNDING
        &&& forall|i: int|
            0 <= i < self.contributions.len() ==> #[trigger] self.contributions[i].amount > 0
        &&& self.overfactor_bps >= BPS
        &&& self.total_required == self.principal * self.overfactor_bps / (BPS as int)
        &&& self.principal <= self.total_required
        &&& self.state == LoanState::Funding ==> self.reserve == 0 && self.remaining_debt
            == self.principal
        &&& self.state != LoanState::Funding ==> self.total_required <= self.total_contributed
            && 0 < self.total_contributed
        &&& self.state == LoanState::Active ==> self.reserve == self.total_contributed
            - self.principal && self.remaining_debt <= self.principal
        &&& self.state == LoanState::Completed ==> self.remaining_debt == 0 && self.reserve == 0
        &&& self.state == LoanState::Defaulted ==> self.reserve == 0
    }

    /// The loan after a contribution is recorded.
    pub open spec fn record(self, lender: Address, amount: u128) -> LoanModel {
        LoanModel {
            contributions: self.contributions.push(LenderContribution { lender, amount }),
            total_contributed: (self.total_contributed + amount) as u128,
            ..self
        }
    }

    /// The loan after activation at `now`: the principal has gone to the
    /// borrower and the rest of the funding is held as reserve.
    pub open spec fn activate(self, now: u64, score: i32) -> LoanModel {
        LoanModel {
            state: LoanState::Active,
            reserve: (self.total_contributed - self.principal) as u128,
            trust_score_at_issuance: score,
            activated_at: now,
            due_time: if now + self.duration <= u64::MAX {
                (now + self.duration) as u64
            } else {
                u64::MAX
            },
            ..self
        }
    }

    /// The transfers of a pro-rata distribution of a principal pool and a
    /// yield pool over this loan's contributions.
    pub open spec fn payouts(self, p: int, y: int) -> Seq<Instruction> {
        if self.total_contributed == 0 {
            Seq::empty()
        } else {
            payout_transfers(self.contributions, self.total_contributed as int, p, y)
        }
    }

    /// The loan after a repayment of `amount` at `now`.
    pub open spec fn repaid(self, amount: u128, now: u64) -> LoanModel {
        let repaid_amount = if self.repaid_amount + amount <= u128::MAX {
            (self.repaid_amount + amount) as u128
        } else {
            u128::MAX
        };
        if amount >= self.remaining_debt {
            LoanModel {
                remaining_debt: 0,
                repaid_amount,
                last_payment_at: now,
                state: LoanState::Completed,
                reserve: 0,
                ..self
            }
        } else {
            LoanModel {
                remaining_debt: (self.remaining_debt - amount) as u128,
                repaid_amount,
                last_payment_at: now,
                ..self
            }
        }
    }

    /// What a repayment of `amount` asks for: the oracle hears of it, and a
    /// repayment that clears the debt pays out the principal and the reserve
    /// as yield.
    pub open spec fn repay_instructions(self, amount: u128) -> Seq<Instruction> {
        seq![Instruction::NotifyInstallment { borrower: self.borrower, amount }] + if amount
            >= self.remaining_debt {
            self.payouts(self.principal as int, self.reserve as int)
        } else {
            Seq::empty()
        }
    }

    /// Whether the grace period has run out at `now`.
    pub open spec fn overdue(self, grace_period: u64, now: u64) -> bool {
        now > self.last_payment_at && now - self.last_payment_at > grace_period
    }

    /// The loan after default: the reserve covers what it can of the debt,
    /// and what it cannot cover is recorded as loss.
    pub open spec fn defaulted(self) -> LoanModel {
        if self.reserve >= self.remaining_debt {
            LoanModel { state: LoanState::Defaulted, remaining_debt: 0, reserve: 0, ..self }
        } else {
            LoanModel {
                state: LoanState::Defaulted,
                remaining_debt: (self.remaining_debt - self.reserve) as u128,
                unrecovered_loss: (self.remaining_debt - self.reserve) as u128,
                reserve: 0,
                ..self
            }
        }
    }

    /// What a default asks for: what is left of the reserve after covering
    /// the debt goes back pro rata, without yield, and the oracle hears of
    /// the default.
    pub open spec fn default_instructions(self) -> Seq<Instruction> {
        (if self.reserve > self.remaining_debt {
            self.payouts(self.reserve - self.remaining_debt, 0)
        } else {
            Seq::empty()
        }) + seq![Instruction::NotifyDefault { borrower: self.borrower }]
    }
}

/// One loan's ledger.
#[derive(Clone, Debug)]
pub struct LoanInstance {
    borrower: Address,
    principal: u128,
    overfactor_bps: u32,
    total_required: u128,
    total_contributed: u128,
    min_lenders: u32,
    contributions: Vec<LenderContribution>,
    remaining_debt: u128,
    repaid_amount: u128,
    state: LoanState,
    created_at: u64,
    activated_at: u64,
    duration: u64,
    due_time: u64,
    last_payment_at: u64,
    trust_oracle: Address,
    buffer_amount: u128,
    unrecovered_loss: u128,
    trust_score_at_issuance: i32,
}

impl View for LoanInstance {
    type V = LoanModel;

    closed spec fn view(&self) -> LoanModel {
        LoanModel {
            borrower: self.borrower,
            principal: self.principal,
            overfactor_bps: self.overfactor_bps,
            total_required: self.total_required,
            total_contributed: self.total_contributed,
            min_lenders: self.min_lenders,
            contributions: self.contributions@,
            remaining_debt: self.remaining_debt,
            repaid_amount: self.repaid_amount,
            state: self.state,
            created_at: self.created_at,
            activated_at: self.activated_at,
            duration: self.duration,
            due_time: self.due_time,
            last_payment_at: self.last_payment_at,
            trust_oracle: self.trust_oracle,
            reserve: self.buffer_amount,
            unrecovered_loss: self.unrecovered_loss,
            trust_score_at_issuance: self.trust_score_at_issuance,
        }
    }
}

impl LoanInstance {
    /// A loan in `Funding` for `borrower`, created at `now`. The funding it
    /// needs is `principal * overfactor_bps / 10000`.
    pub fn new(
        borrower: Address,
        principal: u128,
        overfactor_bps: u32,
        max_duration: u64,
        trust_oracle: Address,
        now: u64,
    ) -> (r: LoanInstance)
        requires
            overfactor_bps >= BPS,
            principal * overfactor_bps <= u128::MAX,
        ensures
            r@.well_formed(),
            r@ == (LoanModel {
                borrower,
                principal,
                overfactor_bps,
                total_required: (principal * overfactor_bps / (BPS as int)) as u128,
                total_contributed: 0,
                min_lenders: DEFAULT_MIN_LENDERS,
                contributions: Seq::empty(),
                remaining_debt: principal,
                repaid_amount: 0,
                state: LoanState::Funding,
                created_at: now,
                activated_at: 0,
                duration: max_duration,
                due_time: 0,
                last_payment_at: now,
                trust_oracle,
                reserve: 0,
                unrecovered_loss: 0,
                trust_score_at_issuance: 0,
            }),
    {
        let total_required = principal * (overfactor_bps as u128) / BPS;
        assert(principal <= total_required) by (nonlinear_arith)
            requires
                total_required == principal * overfactor_bps / 10000,
                overfactor_bps >= 10000,
                principal >= 0,
        ;
        let r = LoanInstance {
            borrower,
            principal,
            overfactor_bps,
            total_required,
            total_contributed: 0,
            min_lenders: DEFAULT_MIN_LENDERS,
            contributions: Vec::new(),
            remaining_debt: principal,
            repaid_amount: 0,
            state: LoanState::Funding,
            created_at: now,
            activated_at: 0,
            duration: max_duration,
            due_time: 0,
            last_payment_at: now,
            trust_oracle,
            buffer_amount: 0,
            unrecovered_loss: 0,
            trust_score_at_issuance: 0,
        };
        assert(sum_amounts(Seq::<LenderContribution>::empty()) == 0);
        r
    }

    /// How many distinct lenders have contributed.
    fn count_distinct_lenders(&self) -> (r: usize)
        ensures
            r == distinct_lenders(self@.contributions),
            r <= self@.contributions.len(),
    {
        let mut seen: Vec<Address> = Vec::new();
        let n = self.contributions.len();
        for i in 0..n
            invariant
                n == self.contributions.len(),
                seen@.no_duplicates(),
                seen.len() <= i,
                seen@.to_set() == lenders_of(self.contributions@.subrange(0, i as int)),
        {
            let lender = self.contributions[i].lender;
            proof {
                let pre = self.contributions@.subrange(0, i + 1);
                assert(pre.drop_last() =~= self.contributions@.subrange(0, i as int));
                assert(pre.last() == self.contributions@[i as int]);
            }
            if !contains_address(&seen, &lender) {
                let ghost before = seen@;
                seen.push(lender);
                proof {
                    assert(seen@.to_set() =~= before.to_set().insert(lender)) by {
                        assert forall|a: Address| seen@.contains(a) <==> (before.contains(a)
                            || a == lender) by {
                            if seen@.contains(a) {
                                let j = choose|j: int| 0 <= j < seen@.len() && seen@[j] == a;
                                if j < before.len() {
                                    assert(before[j] == a);
                                }
                            }
                            if before.contains(a) {
                                let j = choose|j: int| 0 <= j < before.len() && before[j] == a;
                                assert(seen@[j] == a);
                            }
                            if a == lender {
                                assert(seen@[before.len() as int] == a);
                            }
                        }
                    }
                    assert(seen@.no_duplicates()) by {
                        assert forall|x: int, y: int|
                            0 <= x < seen@.len() && 0 <= y < seen@.len() && x != y implies seen@[x]
                            != seen@[y] by {
                            if x < before.len() && y < before.len() {
                                assert(before[x] == seen@[x] && before[y] == seen@[y]);
                            } else if x < before.len() {
                                assert(before.contains(seen@[x]));
                            } else if y < before.len() {
                                assert(before.contains(seen@[y]));
                            }
                        }
                    }
                }
            } else {
                proof {
                    assert(seen@.to_set().contains(lender));
                    assert(seen@.to_set() =~= seen@.to_set().insert(lender));
                }
            }
        }
        proof {
            assert(self.contributions@.subrange(0, n as int) =~= self.contributions@);
            seen@.unique_seq_to_set();
        }
        seen.len()
    }

    /// The transfers that pay out `p` as principal and `y` as yield, pro rata
    /// to each contribution's share of the total funding.
    fn distribute_pro_rata(&self, p: u128, y: u128) -> (r: Vec<Instruction>)
        requires
            self@.well_formed(),
            p <= MAX_FUNDING,
            y <= MAX_FUNDING,
        ensures
            r@ == self@.payouts(p as int, y as int),
    {
        let mut out: Vec<Instruction> = Vec::new();
        if self.total_contributed == 0 {
            return out;
        }
        let total = self.total_contributed;
        let n = self.contributions.len();
        assert(MAX_FUNDING * SCALE <= u128::MAX);
        for i in 0..n
            invariant
                n == self.contributions.len(),
                total == self.total_contributed,
                self@.well_formed(),
                0 < total,
                p <= MAX_FUNDING,
                y <= MAX_FUNDING,
                out@ == payout_transfers(self.contributions@.subrange(0, i as int), total as int, p as int, y as int),
        {
            let c = self.contributions[i];
            proof {
                lemma_amount_le_sum(self.contributions@, i as int);
                lemma_share_bounds(c.amount as int, total as int);
                assert(c.amount * SCALE <= MAX_FUNDING * SCALE) by (nonlinear_arith)
                    requires
                        c.amount <= MAX_FUNDING,
                ;
            }
            let share = c.amount * SCALE / total;
            proof {
                lemma_part_bounds(p as int, share as int);
                lemma_part_bounds(y as int, share as int);
                assert(p * share <= MAX_FUNDING * SCALE) by (nonlinear_arith)
                    requires
                        p <= MAX_FUNDING,
                        share <= SCALE,
                ;
                assert(y * share <= MAX_FUNDING * SCALE) by (nonlinear_arith)
                    requires
                        y <= MAX_FUNDING,
                        share <= SCALE,
                ;
            }
            let p_part = p * share / SCALE;
            let y_part = y * share / SCALE;
            let ghost before = out@;
            if p_part > 0 {
                out.push(Instruction::Transfer { to: c.lender, amount: p_part });
            }
            if y_part > 0 {
                out.push(Instruction::Transfer { to: c.lender, amount: y_part });
            }
            proof {
                let pre = self.contributions@.subrange(0, i + 1);
                assert(pre.drop_last() =~= self.contributions@.subrange(0, i as int));
                assert(pre.last() == c);
                assert(out@ =~= before + transfer_if_positive(c.lender, p_part as int)
                    + transfer_if_positive(c.lender, y_part as int));
            }
        }
        proof {
            assert(self.contributions@.subrange(0, n as int) =~= self.contributions@);
        }
        out
    }

    /// Takes the loan out of `Funding` once enough distinct lenders took
    /// part: the principal goes to the borrower, the rest is held as reserve.
    fn activate_loan(&mut self, now: u64, borrower_score: i32) -> (r: Result<
        Vec<Instruction>,
        LoanError,
    >)
        requires
            old(self)@.well_formed(),
            old(self)@.state == LoanState::Funding,
            old(self)@.total_contributed >= old(self)@.total_required,
            old(self)@.total_contributed > 0,
        ensures
            distinct_lenders(old(self)@.contributions) < old(self)@.min_lenders ==> r == Err::<
                Vec<Instruction>,
                LoanError,
            >(LoanError::NotEnoughLenders) && final(self)@ == old(self)@,
            distinct_lenders(old(self)@.contributions) >= old(self)@.min_lenders ==> r is Ok
                && r->Ok_0@ == seq![
                Instruction::Transfer { to: old(self)@.borrower, amount: old(self)@.principal },
            ] && final(self)@ == old(self)@.activate(now, borrower_score),
            final(self)@.well_formed(),
    {
        if self.count_distinct_lenders() < self.min_lenders as usize {
            return Err(LoanError::NotEnoughLenders);
        }
        let mut out: Vec<Instruction> = Vec::new();
        out.push(Instruction::Transfer { to: self.borrower, amount: self.principal });
        self.buffer_amount = self.total_contributed - self.principal;
        self.trust_score_at_issuance = borrower_score;
        self.activated_at = now;
        self.due_time = now.saturating_add(self.duration);
        self.state = LoanState::Active;
        Ok(out)
    }

    /// Records a contribution of `amount` by `lender` at `now`, and
    /// activates the loan once the funding target is met. `borrower_score`
    /// is the borrower's trust score, kept as the score at issuance when the
    /// loan activates.
    ///
    /// Refused with `InvalidState` outside `Funding` and with `ZeroAmount`
    /// for a zero amount, before anything is recorded. When the target is
    /// met but fewer than `min_lenders` distinct lenders took part, the
    /// contribution stays recorded, the loan stays in `Funding`, and the call
    /// reports `NotEnoughLenders`.
    pub fn contribute(&mut self, lender: Address, amount: u128, now: u64, borrower_score: i32) -> (r:
        Result<Vec<Instruction>, LoanError>)
        requires
            old(self)@.well_formed(),
            old(self)@.state == LoanState::Funding ==> old(self)@.total_contributed + amount
                <= MAX_FUNDING,
        ensures
            final(self)@.well_formed(),
            allowed_transition(old(self)@.state, final(self)@.state),
            old(self)@.state != LoanState::Funding ==> r == Err::<Vec<Instruction>, LoanError>(
                LoanError::InvalidState,
            ) && final(self)@ == old(self)@,
            old(self)@.state == LoanState::Funding && amount == 0 ==> r == Err::<
                Vec<Instruction>,
                LoanError,
            >(LoanError::ZeroAmount) && final(self)@ == old(self)@,
            old(self)@.state == LoanState::Funding && amount > 0 ==> ({
                let recorded = old(self)@.record(lender, amount);
                if recorded.total_contributed < recorded.total_required {
                    r is Ok && r->Ok_0@ == Seq::<Instruction>::empty() && final(self)@ == recorded
                } else if distinct_lenders(recorded.contributions) < recorded.min_lenders {
                    r == Err::<Vec<Instruction>, LoanError>(LoanError::NotEnoughLenders)
                        && final(self)@ == recorded
                } else {
                    r is Ok && r->Ok_0@ == seq![
                        Instruction::Transfer { to: recorded.borrower, amount: recorded.principal },
                    ] && final(self)@ == recorded.activate(now, borrower_score)
                }
            }),
    {
        if self.state != LoanState::Funding {
            return Err(LoanError::InvalidState);
        }
        if amount == 0 {
            return Err(LoanError::ZeroAmount);
        }
        let ghost before = self.contributions@;
        self.contributions.push(LenderContribution { lender, amount });
        self.total_contributed = self.total_contributed + amount;
        proof {
            assert(self.contributions@.drop_last() =~= before);
            assert forall|i: int| 0 <= i < self.contributions@.len() implies #[trigger] self.contributions@[i].amount > 0 by {
                if i < before.len() {
                    assert(self.contributions@[i] == before[i]);
                }
            }
        }
        if self.total_contributed >= self.total_required {
            self.activate_loan(now, borrower_score)
        } else {
            Ok(Vec::new())
        }
    }

    /// Pays the principal and the reserve out to the lenders once the debt
    /// is cleared, and completes the loan.
    fn finalize_success(&mut self) -> (r: Vec<Instruction>)
        requires
            old(self)@.well_formed(),
            old(self)@.state == LoanState::Active,
            old(self)@.remaining_debt == 0,
        ensures
            r@ == old(self)@.payouts(old(self)@.principal as int, old(self)@.reserve as int),
            final(self)@ == (LoanModel {
                state: LoanState::Completed,
                reserve: 0,
                ..old(self)@
            }),
            final(self)@.well_formed(),
    {
        let out = self.distribute_pro_rata(self.principal, self.buffer_amount);
        self.buffer_amount = 0;
        self.state = LoanState::Completed;
        out
    }

    /// Takes a repayment of `amount` at `now`. A repayment that covers the
    /// remaining debt completes the loan and pays the lenders out.
    ///
    /// Refused with `InvalidState` outside `Active` and with `ZeroAmount` for
    /// a zero amount, before anything changes.
    pub fn repay(&mut self, amount: u128, now: u64) -> (r: Result<Vec<Instruction>, LoanError>)
        requires
            old(self)@.well_formed(),
        ensures
            final(self)@.well_formed(),
            allowed_transition(old(self)@.state, final(self)@.state),
            final(self)@.remaining_debt <= old(self)@.remaining_debt,
            old(self)@.state != LoanState::Active ==> r == Err::<Vec<Instruction>, LoanError>(
                LoanError::InvalidState,
            ) && final(self)@ == old(self)@,
            old(self)@.state == LoanState::Active && amount == 0 ==> r == Err::<
                Vec<Instruction>,
                LoanError,
            >(LoanError::ZeroAmount) && final(self)@ == old(self)@,
            old(self)@.state == LoanState::Active && amount > 0 ==> r is Ok && r->Ok_0@ == old(
                self,
            )@.repay_instructions(amount) && final(self)@ == old(self)@.repaid(amount, now),
    {
        if self.state != LoanState::Active {
            return Err(LoanError::InvalidState);
        }
        if amount == 0 {
            return Err(LoanError::ZeroAmount);
        }
        let mut out: Vec<Instruction> = Vec::new();
        self.repaid_amount = self.repaid_amount.saturating_add(amount);
        self.last_payment_at = now;
        out.push(Instruction::NotifyInstallment { borrower: self.borrower, amount });
        if amount >= self.remaining_debt {
            self.remaining_debt = 0;
            let mut payouts = self.finalize_success();
            let ghost first = out@;
            out.append(&mut payouts);
            assert(out@ =~= first + old(self)@.payouts(old(self)@.principal as int, old(self)@.reserve as int));
        } else {
            self.remaining_debt = self.remaining_debt - amount;
            assert(out@ =~= old(self)@.repay_instructions(amount));
        }
        Ok(out)
    }

    /// Closes a loan in default: the reserve covers what it can of the
    /// remaining debt, what is left of it goes back pro rata without yield,
    /// and the rest of the debt is recorded as loss.
    fn finalize_default(&mut self) -> (r: Vec<Instruction>)
        requires
            old(self)@.well_formed(),
            old(self)@.state == LoanState::Active,
        ensures
            r@ == old(self)@.default_instructions(),
            final(self)@ == old(self)@.defaulted(),
            final(self)@.well_formed(),
    {
        let mut out: Vec<Instruction>;
        let available = self.buffer_amount;
        if available >= self.remaining_debt {
            let left = available - self.remaining_debt;
            if left > 0 {
                out = self.distribute_pro_rata(left, 0);
            } else {
                out = Vec::new();
            }
            self.remaining_debt = 0;
        } else {
            let shortfall = self.remaining_debt - available;
            self.remaining_debt = self.remaining_debt - available;
            self.unrecovered_loss = shortfall;
            out = Vec::new();
        }
        self.state = LoanState::Defaulted;
        self.buffer_amount = 0;
        let ghost first = out@;
        out.push(Instruction::NotifyDefault { borrower: self.borrower });
        assert(out@ =~= old(self)@.default_instructions());
        out
    }

    /// Declares the loan in default when, at `now`, more than `grace_period`
    /// has passed since the last payment. Anywhere but in `Active` this does
    /// nothing, so calling it again after a default changes nothing and
    /// issues nothing.
    pub fn check_default(&mut self, grace_period: u64, now: u64) -> (r: Vec<Instruction>)
        requires
            old(self)@.well_formed(),
        ensures
            final(self)@.well_formed(),
            allowed_transition(old(self)@.state, final(self)@.state),
            final(self)@.remaining_debt <= old(self)@.remaining_debt,
            old(self)@.state == LoanState::Active && old(self)@.overdue(grace_period, now) ==> r@
                == old(self)@.default_instructions() && final(self)@ == old(self)@.defaulted(),
            !(old(self)@.state == LoanState::Active && old(self)@.overdue(grace_period, now))
                ==> r@ == Seq::<Instruction>::empty() && final(self)@ == old(self)@,
    {
        if self.state != LoanState::Active {
            return Vec::new();
        }
        if now > self.last_payment_at && now - self.last_payment_at > grace_period {
            self.finalize_default()
        } else {
            Vec::new()
        }
    }

    pub fn get_state(&self) -> (r: LoanState)
        ensures
            r == self@.state,
    {
        self.state
    }

    pub fn get_remaining_debt(&self) -> (r: u128)
        ensures
            r == self@.remaining_debt,
    {
        self.remaining_debt
    }

    pub fn get_contributions(&self) -> (r: Vec<LenderContribution>)
        ensures
            r@ == self@.contributions,
    {
        let mut out: Vec<LenderContribution> = Vec::new();
        for i in 0..self.contributions.len()
            invariant
                out@ == self.contributions@.subrange(0, i as int),
        {
            out.push(self.contributions[i]);
            assert(out@ =~= self.contributions@.subrange(0, i + 1));
        }
        assert(out@ =~= self.contributions@);
        out
    }

    pub fn get_borrower(&self) -> (r: Address)
        ensures
            r == self@.borrower,
    {
        self.borrower
    }

    pub fn get_principal(&self) -> (r: u128)
        ensures
            r == self@.principal,
    {
        self.principal
    }

    /// Whether a reserve is held.
    pub fn get_buffer_deposited(&self) -> (r: bool)
        ensures
            r == (self@.reserve > 0),
    {
        self.buffer_amount > 0
    }

    pub fn get_reserve(&self) -> (r: u128)
        ensures
            r == self@.reserve,
    {
        self.buffer_amount
    }

    pub fn get_total_required(&self) -> (r: u128)
        ensures
            r == self@.total_required,
    {
        self.total_required
    }

    pub fn get_total_contributed(&self) -> (r: u128)
        ensures
            r == self@.total_contributed,
    {
        self.total_contributed
    }

    pub fn get_trust_oracle(&self) -> (r: Address)
        ensures
            r == self@.trust_oracle,
    {
        self.trust_oracle
    }

    pub fn get_trust_score_at_issuance(&self) -> (r: i32)
        ensures
            r == self@.trust_score_at_issuance,
    {
        self.trust_score_at_issuance
    }

    pub fn get_unrecovered_loss(&self) -> (r: u128)
        ensures
            r == self@.unrecovered_loss,
    {
        self.unrecovered_loss
    }

    pub fn get_repaid_amount(&self) -> (r: u128)
        ensures
            r == self@.repaid_amount,
    {
        self.repaid_amount
    }

    pub fn get_last_payment_at(&self) -> (r: u64)
        ensures
            r == self@.last_payment_at,
    {
        self.last_payment_at
    }

    pub fn get_due_time(&self) -> (r: u64)
        ensures
            r == self@.due_time,
    {
        self.due_time
    }
}

/// How far along its life a state is.
pub open spec fn state_rank(s: LoanState) -> int {
    match s {
        LoanState::Funding => 0,
        LoanState::Active => 1,
        LoanState::Completed => 2,
        LoanState::Defaulted => 2,
    }
}

/// Between positions `i <= j` of a run of states: the state has not moved
/// back, a settled state has stayed as it was, and a move from `Funding` to a
/// settled state went through `Active`.
pub open spec fn run_ordered(states: Seq<LoanState>, i: int, j: int) -> bool {
    &&& state_rank(states[i]) <= state_rank(states[j])
    &&& state_rank(states[i]) == 2 ==> states[j] == states[i]
    &&& (states[i] == LoanState::Funding && state_rank(states[j]) == 2) ==> exists|k: int|
        i < k < j && states[k] == LoanState::Active
}

/// Whether each state of a run follows from the one before by an allowed
/// step.
pub open spec fn run_allowed(states: Seq<LoanState>) -> bool {
    forall|i: int|
        #![trigger allowed_transition(states[i], states[i + 1])]
        0 <= i < states.len() - 1 ==> allowed_transition(states[i], states[i + 1])
}

/// Monotonic state: along any run of operations, each of which takes an
/// allowed step, a loan's state never moves back, a settled loan stays as it
/// was settled, and a loan that was funding is settled only after it was
/// active.
pub proof fn lemma_state_run(states: Seq<LoanState>)
    requires
        run_allowed(states),
    ensures
        forall|i: int, j: int| 0 <= i <= j < states.len() ==> #[trigger] run_ordered(states, i, j),
{
    assert forall|i: int, j: int| 0 <= i <= j < states.len() implies #[trigger] run_ordered(
        states,
        i,
        j,
    ) by {
        lemma_state_run_pair(states, i, j);
    }
}

proof fn lemma_state_run_pair(states: Seq<LoanState>, i: int, j: int)
    requires
        run_allowed(states),
        0 <= i <= j < states.len(),
    ensures
        run_ordered(states, i, j),
    decreases j - i,
{
    if i < j {
        lemma_state_run_pair(states, i, j - 1);
        let a = j - 1;
        assert(allowed_transition(states[a], states[a + 1]));
        assert(a + 1 == j);
        if states[i] == LoanState::Funding && state_rank(states[j]) == 2 {
            if state_rank(states[a]) == 2 {
                let k = choose|k: int| i < k < a && states[k] == LoanState::Active;
                assert(i < k < j);
            } else {
                assert(states[a] == LoanState::Active);
            }
        }
    }
}

/// Conservation on completion: the repayment that clears a loan's debt
/// transfers to the lenders exactly what the principal pool and the yield
/// pool pay out; neither pays out more than it holds, and when
/// `pool * (n - 1) <= SCALE` for `n` contributions, rounding keeps back at
/// most `n` units of that pool.
pub proof fn lemma_completion_conserves(m: LoanModel, amount: u128)
    requires
        m.well_formed(),
        m.state == LoanState::Active,
        amount >= m.remaining_debt,
    ensures
        ({
            let cs = m.contributions;
            let total = m.total_contributed as int;
            let n = cs.len() as int;
            let paid_p = sum_payouts(cs, m.principal as int, total);
            let paid_y = sum_payouts(cs, m.reserve as int, total);
            &&& transfer_total(m.repay_instructions(amount)) == paid_p + paid_y
            &&& 0 <= paid_p <= m.principal
            &&& 0 <= paid_y <= m.reserve
            &&& m.principal * (n - 1) <= SCALE ==> m.principal - paid_p <= n
            &&& m.reserve * (n - 1) <= SCALE ==> m.reserve - paid_y <= n
        }),
{
    let cs = m.contributions;
    let total = m.total_contributed as int;
    assert forall|i: int| 0 <= i < cs.len() implies #[trigger] cs[i].amount <= total by {
        lemma_amount_le_sum(cs, i);
    }
    lemma_payout_transfers_total(cs, total, m.principal as int, m.reserve as int);
    lemma_pool_conservation(cs, m.principal as int);
    lemma_pool_conservation(cs, m.reserve as int);
    let note = seq![Instruction::NotifyInstallment { borrower: m.borrower, amount }];
    lemma_transfer_total_concat(note, m.payouts(m.principal as int, m.reserve as int));
    assert(note.drop_last() =~= Seq::<Instruction>::empty());
    assert(transfer_total(Seq::<Instruction>::empty()) == 0);
}

/// Idempotent default: a loan that defaulted is well formed and no longer
/// active, so every later `check_default`, whatever its grace period and
/// time, falls in the case that changes nothing and issues nothing.
pub proof fn lemma_default_final(m: LoanModel, grace_period: u64, now: u64)
    requires
        m.well_formed(),
        m.state == LoanState::Active,
    ensures
        m.defaulted().well_formed(),
        m.defaulted().state == LoanState::Defaulted,
        !(m.defaulted().state == LoanState::Active && m.defaulted().overdue(grace_period, now)),
{
}

/// Conservation on default: what a default transfers to the lenders is what
/// is left of the reserve once the debt is covered, paid out pro rata, and
/// never more than that leftover.
pub proof fn lemma_default_conserves(m: LoanModel)
    requires
        m.well_formed(),
        m.state == LoanState::Active,
    ensures
        m.reserve <= m.remaining_debt ==> transfer_total(m.default_instructions()) == 0,
        m.reserve > m.remaining_debt ==> transfer_total(m.default_instructions()) == sum_payouts(
            m.contributions,
            m.reserve - m.remaining_debt,
            m.total_contributed as int,
        ) && transfer_total(m.default_instructions()) <= m.reserve - m.remaining_debt,
{
    let cs = m.contributions;
    let total = m.total_contributed as int;
    let note = seq![Instruction::NotifyDefault { borrower: m.borrower }];
    assert(note.drop_last() =~= Seq::<Instruction>::empty());
    assert(transfer_total(Seq::<Instruction>::empty()) == 0);
    assert(transfer_total(note) == 0);
    if m.reserve > m.remaining_debt {
        let left = m.reserve - m.remaining_debt;
        assert forall|i: int| 0 <= i < cs.len() implies #[trigger] cs[i].amount <= total by {
            lemma_amount_le_sum(cs, i);
        }
        lemma_payout_transfers_total(cs, total, left, 0);
        lemma_pool_conservation(cs, left);
        lemma_pool_conservation(cs, 0);
        lemma_transfer_total_concat(m.payouts(left, 0), note);
    } else {
        lemma_transfer_total_concat(Seq::<Instruction>::empty(), note);
        assert(Seq::<Instruction>::empty() + note =~= note);
    }
}

} // verus!
