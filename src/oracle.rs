//! The trust oracle: each borrower's trust score, moved by weighted events
//! that authorized callers record, and never below zero.
use vstd::prelude::*;
use crate::ids::{Address, Key};
use crate::keyed::KeyedList;

verus! {

/// The kinds of events that move a trust score.
#[derive(Clone, Copy, Debug, PartialEq, Eq, Structural)]
pub enum EventKind {
    InstallmentPaid,
    MissedPayment,
    GuarantorAdded,
    IdentityVerified,
}

/// An account's standing with the oracle.
#[derive(Clone, Copy, Debug, PartialEq, Eq, Structural)]
pub enum Role {
    Owner,
    Authorized,
}

/// A recorded event and the score it led to.
#[derive(Clone, Copy, Debug)]
pub struct TrustEventRecorded {
    pub borrower: Address,
    pub kind: EventKind,
    pub amount: Option<u128>,
    pub timestamp: u64,
    pub new_score: i32,
}

/// The score after adding `weight` to `current`: kept within `i32` and never
/// below zero.
pub open spec fn next_score(current: int, weight: int) -> i32 {
    if current + weight > i32::MAX {
        i32::MAX
    } else if current + weight < 0 {
        0
    } else {
        (current + weight) as i32
    }
}

/// The mathematical content of the oracle.
pub struct OracleModel {
    pub owner: Address,
    pub scores: Map<Address, i32>,
    pub installment_paid_weight: i32,
    pub missed_payment_weight: i32,
    pub guarantor_added_weight: i32,
    pub identity_verified_weight: i32,
    pub authorized: Map<Address, ()>,
}

impl OracleModel {
    pub open spec fn score(self, borrower: Address) -> i32 {
        if self.scores.contains_key(borrower) {
            self.scores[borrower]
        } else {
            0
        }
    }

    pub open spec fn weight(self, kind: EventKind) -> i32 {
        match kind {
            EventKind::InstallmentPaid => self.installment_paid_weight,
            EventKind::MissedPayment => self.missed_payment_weight,
            EventKind::GuarantorAdded => self.guarantor_added_weight,
            EventKind::IdentityVerified => self.identity_verified_weight,
        }
    }

    /// The oracle after an event of `kind` for `borrower`.
    pub open spec fn applied(self, borrower: Address, kind: EventKind) -> OracleModel {
        OracleModel {
            scores: self.scores.insert(
                borrower,
                next_score(self.score(borrower) as int, self.weight(kind) as int),
            ),
            ..self
        }
    }

    /// What recording an event asks: by an authorized caller, the event is
    /// applied and reported; by anyone else, nothing happens.
    pub open spec fn recorded(
        self,
        final_model: OracleModel,
        r: Option<TrustEventRecorded>,
        caller: Address,
        borrower: Address,
        kind: EventKind,
        amount: Option<u128>,
        now: u64,
    ) -> bool {
        if self.authorized.contains_key(caller) {
            &&& final_model == self.applied(borrower, kind)
            &&& r == Some(
                TrustEventRecorded {
                    borrower,
                    kind,
                    amount,
                    timestamp: now,
                    new_score: next_score(self.score(borrower) as int, self.weight(kind) as int),
                },
            )
        } else {
            final_model == self && r == None::<TrustEventRecorded>
        }
    }
}

/// Trust scores and who may move them.
#[derive(Clone, Debug)]
pub struct TrustOracle {
    owner: Address,
    scores: KeyedList<Address, i32>,
    installment_paid_weight: i32,
    missed_payment_weight: i32,
    guarantor_added_weight: i32,
    identity_verified_weight: i32,
    authorized_callers: KeyedList<Address, ()>,
}

impl View for TrustOracle {
    type V = OracleModel;

    closed spec fn view(&self) -> OracleModel {
        OracleModel {
            owner: self.owner,
            scores: self.scores@,
            installment_paid_weight: self.installment_paid_weight,
            missed_payment_weight: self.missed_payment_weight,
            guarantor_added_weight: self.guarantor_added_weight,
            identity_verified_weight: self.identity_verified_weight,
            authorized: self.authorized_callers@,
        }
    }
}

impl TrustOracle {
    /// An oracle owned by `caller`, who is also authorized to record events,
    /// with the default weights.
    pub fn new(caller: Address) -> (r: TrustOracle)
        ensures
            r@ == (OracleModel {
                owner: caller,
                scores: Map::empty(),
                installment_paid_weight: 2,
                missed_payment_weight: -5i32,
                guarantor_added_weight: 3,
                identity_verified_weight: 5,
                authorized: Map::empty().insert(caller, ()),
            }),
    {
        let mut authorized_callers = KeyedList::new();
        authorized_callers.insert(caller, ());
        TrustOracle {
            owner: caller,
            scores: KeyedList::new(),
            installment_paid_weight: 2,
            missed_payment_weight: -5,
            guarantor_added_weight: 3,
            identity_verified_weight: 5,
            authorized_callers,
        }
    }

    fn is_authorized(&self, account: &Address) -> (r: bool)
        ensures
            r == self@.authorized.contains_key(*account),
    {
        self.authorized_callers.contains(account)
    }

    fn get_score_internal(&self, borrower: &Address) -> (r: i32)
        ensures
            r == self@.score(*borrower),
    {
        match self.scores.get(borrower) {
            Some(s) => s,
            None => 0,
        }
    }

    fn set_score_internal(&mut self, borrower: &Address, score: i32) -> (r: i32)
        ensures
            r == if score < 0 {
                0
            } else {
                score
            },
            final(self)@ == (OracleModel { scores: old(self)@.scores.insert(*borrower, r), ..old(self)@ }),
    {
        let clamped = if score < 0 {
            0
        } else {
            score
        };
        self.scores.insert(*borrower, clamped);
        clamped
    }

    fn weight_for_event(&self, kind: EventKind) -> (r: i32)
        ensures
            r == self@.weight(kind),
    {
        match kind {
            EventKind::InstallmentPaid => self.installment_paid_weight,
            EventKind::MissedPayment => self.missed_payment_weight,
            EventKind::GuarantorAdded => self.guarantor_added_weight,
            EventKind::IdentityVerified => self.identity_verified_weight,
        }
    }

    fn apply_event(&mut self, borrower: &Address, kind: EventKind, amount: Option<u128>, now: u64) -> (r:
        TrustEventRecorded)
        ensures
            final(self)@ == old(self)@.applied(*borrower, kind),
            r == (TrustEventRecorded {
                borrower: *borrower,
                kind,
                amount,
                timestamp: now,
                new_score: next_score(
                    old(self)@.score(*borrower) as int,
                    old(self)@.weight(kind) as int,
                ),
            }),
    {
        let w = self.weight_for_event(kind);
        let current = self.get_score_internal(borrower);
        let summed = match current.checked_add(w) {
            Some(x) => x,
            None => if w > 0 {
                i32::MAX
            } else {
                i32::MIN
            },
        };
        let new_score = if summed < 0 {
            0
        } else {
            summed
        };
        let new_score = self.set_score_internal(borrower, new_score);
        TrustEventRecorded { borrower: *borrower, kind, amount, timestamp: now, new_score }
    }

    /// Replaces the weights of the four kinds of events; only the owner may.
    pub fn set_weights(
        &mut self,
        caller: Address,
        installment_paid_weight: i32,
        missed_payment_weight: i32,
        guarantor_added_weight: i32,
        identity_verified_weight: i32,
    )
        ensures
            caller == old(self)@.owner ==> final(self)@ == (OracleModel {
                installment_paid_weight,
                missed_payment_weight,
                guarantor_added_weight,
                identity_verified_weight,
                ..old(self)@
            }),
            caller != old(self)@.owner ==> final(self)@ == old(self)@,
    {
        if !caller.same(&self.owner) {
            return;
        }
        self.installment_paid_weight = installment_paid_weight;
        self.missed_payment_weight = missed_payment_weight;
        self.guarantor_added_weight = guarantor_added_weight;
        self.identity_verified_weight = identity_verified_weight;
    }

    /// Lets `account` record events; only the owner may.
    pub fn authorize_caller(&mut self, caller: Address, account: Address)
        ensures
            caller == old(self)@.owner ==> final(self)@ == (OracleModel {
                authorized: old(self)@.authorized.insert(account, ()),
                ..old(self)@
            }),
            caller != old(self)@.owner ==> final(self)@ == old(self)@,
    {
        if !caller.same(&self.owner) {
            return;
        }
        self.authorized_callers.insert(account, ());
    }

    /// Stops `account` from recording events; only the owner may.
    pub fn revoke_caller(&mut self, caller: Address, account: Address)
        ensures
            caller == old(self)@.owner ==> final(self)@ == (OracleModel {
                authorized: old(self)@.authorized.remove(account),
                ..old(self)@
            }),
            caller != old(self)@.owner ==> final(self)@ == old(self)@,
    {
        if !caller.same(&self.owner) {
            return;
        }
        self.authorized_callers.remove(&account);
    }

    /// The owner's role, an authorized caller's role, or none.
    pub fn get_role(&self, account: Address) -> (r: Option<Role>)
        ensures
            r == if account == self@.owner {
                Some(Role::Owner)
            } else if self@.authorized.contains_key(account) {
                Some(Role::Authorized)
            } else {
                None
            },
    {
        if account.same(&self.owner) {
            Some(Role::Owner)
        } else if self.is_authorized(&account) {
            Some(Role::Authorized)
        } else {
            None
        }
    }

    pub fn get_owner(&self) -> (r: Address)
        ensures
            r == self@.owner,
    {
        self.owner
    }

    /// Records a payment of `amount` by `borrower`, at `now`.
    pub fn record_installment_paid(&mut self, caller: Address, borrower: Address, amount: u128, now: u64) -> (r:
        Option<TrustEventRecorded>)
        ensures
            old(self)@.recorded(
                final(self)@,
                r,
                caller,
                borrower,
                EventKind::InstallmentPaid,
                Some(amount),
                now,
            ),
    {
        if !self.is_authorized(&caller) {
            return None;
        }
        Some(self.apply_event(&borrower, EventKind::InstallmentPaid, Some(amount), now))
    }

    /// Records a missed payment by `borrower`, at `now`.
    pub fn record_missed_payment(&mut self, caller: Address, borrower: Address, now: u64) -> (r: Option<
        TrustEventRecorded,
    >)
        ensures
            old(self)@.recorded(
                final(self)@,
                r,
                caller,
                borrower,
                EventKind::MissedPayment,
                None,
                now,
            ),
    {
        if !self.is_authorized(&caller) {
            return None;
        }
        Some(self.apply_event(&borrower, EventKind::MissedPayment, None, now))
    }

    /// Records that `borrower` added a guarantor, at `now`.
    pub fn record_guarantor_added(&mut self, caller: Address, borrower: Address, now: u64) -> (r: Option<
        TrustEventRecorded,
    >)
        ensures
            old(self)@.recorded(
                final(self)@,
                r,
                caller,
                borrower,
                EventKind::GuarantorAdded,
                None,
                now,
            ),
    {
        if !self.is_authorized(&caller) {
            return None;
        }
        Some(self.apply_event(&borrower, EventKind::GuarantorAdded, None, now))
    }

    /// Records that `borrower`'s identity was verified, at `now`.
    pub fn record_identity_verified(&mut self, caller: Address, borrower: Address, now: u64) -> (r:
        Option<TrustEventRecorded>)
        ensures
            old(self)@.recorded(
                final(self)@,
                r,
                caller,
                borrower,
                EventKind::IdentityVerified,
                None,
                now,
            ),
    {
        if !self.is_authorized(&caller) {
            return None;
        }
        Some(self.apply_event(&borrower, EventKind::IdentityVerified, None, now))
    }

    /// The borrower's score; zero for one never scored.
    pub fn get_trust_score(&self, borrower: Address) -> (r: i32)
        ensures
            r == self@.score(borrower),
    {
        self.get_score_internal(&borrower)
    }

    /// The weights, in the order installment paid, missed payment,
    /// guarantor added, identity verified.
    pub fn get_weights(&self) -> (r: (i32, i32, i32, i32))
        ensures
            r == (
                self@.installment_paid_weight,
                self@.missed_payment_weight,
                self@.guarantor_added_weight,
                self@.identity_verified_weight,
            ),
    {
        (
            self.installment_paid_weight,
            self.missed_payment_weight,
            self.guarantor_added_weight,
            self.identity_verified_weight,
        )
    }
}

} // verus!
