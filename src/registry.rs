//! The loan registry: the index of all loans created, by borrower, gated by a
//! minimum trust score.
use vstd::prelude::*;
use crate::ids::{be_bytes, lemma_be_bytes_injective, Address, Key};
use crate::keyed::{values_for, PairList};

verus! {

/// The minimum trust score changed.
#[derive(Clone, Copy, Debug)]
pub struct MinTrustScoreUpdated {
    pub old: i32,
    pub new: i32,
}

/// The trust oracle's address changed.
#[derive(Clone, Copy, Debug)]
pub struct TrustOracleUpdated {
    pub old: Address,
    pub new: Address,
}

/// Whether `a` is the address the registry gives its `n`-th loan: `n` in
/// big-endian in the last eight bytes, zeros before.
pub open spec fn is_pseudo_address(a: Address, n: u64) -> bool {
    a.bytes@ == Seq::new(12, |i: int| 0u8) + be_bytes(n)
}

/// The mathematical content of the registry.
pub struct RegistryModel {
    pub owner: Address,
    pub trust_oracle: Address,
    pub loans: Seq<Address>,
    pub borrower_loans: Seq<(Address, Address)>,
    pub lender_loans: Seq<(Address, Address)>,
    pub min_trust_score: i32,
}

impl RegistryModel {
    /// Each recorded loan carries the address of its place in the list.
    pub open spec fn well_formed(self) -> bool {
        &&& self.loans.len() <= u64::MAX
        &&& forall|i: int|
            0 <= i < self.loans.len() ==> is_pseudo_address(#[trigger] self.loans[i], (i + 1) as u64)
    }
}

/// Addresses of different places in the list differ.
proof fn lemma_pseudo_addresses_differ(a: Address, n: u64, b: Address, m: u64)
    requires
        is_pseudo_address(a, n),
        is_pseudo_address(b, m),
        n != m,
    ensures
        a != b,
{
    if a == b {
        assert(a.bytes@.subrange(12, 20) =~= be_bytes(n));
        assert(b.bytes@.subrange(12, 20) =~= be_bytes(m));
        lemma_be_bytes_injective(n, m);
    }
}

/// The registry of loans.
#[derive(Clone, Debug)]
pub struct LoanRegistry {
    owner: Address,
    trust_oracle: Address,
    loans: Vec<Address>,
    borrower_loans: PairList<Address, Address>,
    lender_loans: PairList<Address, Address>,
    min_trust_score: i32,
}

impl View for LoanRegistry {
    type V = RegistryModel;

    closed spec fn view(&self) -> RegistryModel {
        RegistryModel {
            owner: self.owner,
            trust_oracle: self.trust_oracle,
            loans: self.loans@,
            borrower_loans: self.borrower_loans@,
            lender_loans: self.lender_loans@,
            min_trust_score: self.min_trust_score,
        }
    }
}

impl LoanRegistry {
    /// An empty registry owned by `caller`.
    pub fn new(caller: Address, trust_oracle: Address, min_trust_score: i32) -> (r: LoanRegistry)
        ensures
            r@.well_formed(),
            r@ == (RegistryModel {
                owner: caller,
                trust_oracle,
                loans: Seq::empty(),
                borrower_loans: Seq::empty(),
                lender_loans: Seq::empty(),
                min_trust_score,
            }),
    {
        LoanRegistry {
            owner: caller,
            trust_oracle,
            loans: Vec::new(),
            borrower_loans: PairList::new(),
            lender_loans: PairList::new(),
            min_trust_score,
        }
    }

    fn ensure_owner(&self, caller: &Address) -> (r: bool)
        ensures
            r == (*caller == self@.owner),
    {
        caller.same(&self.owner)
    }

    /// The address the next loan gets.
    fn next_pseudo_loan_address(&self) -> (r: Address)
        requires
            self@.loans.len() < u64::MAX,
        ensures
            is_pseudo_address(r, (self@.loans.len() + 1) as u64),
    {
        let id: u64 = self.loans.len() as u64 + 1;
        let mut bytes = [0u8; 20];
        bytes[12] = ((id >> 56u64) & 0xff) as u8;
        bytes[13] = ((id >> 48u64) & 0xff) as u8;
        bytes[14] = ((id >> 40u64) & 0xff) as u8;
        bytes[15] = ((id >> 32u64) & 0xff) as u8;
        bytes[16] = ((id >> 24u64) & 0xff) as u8;
        bytes[17] = ((id >> 16u64) & 0xff) as u8;
        bytes[18] = ((id >> 8u64) & 0xff) as u8;
        bytes[19] = (id & 0xff) as u8;
        let r = Address { bytes };
        assert(r.bytes@ =~= Seq::new(12, |i: int| 0u8) + be_bytes(id));
        r
    }

    /// Changes the minimum trust score; only the owner may. Reports the
    /// change when it is made.
    pub fn set_min_trust_score(&mut self, caller: Address, new_min: i32) -> (r: Option<
        MinTrustScoreUpdated,
    >)
        ensures
            caller == old(self)@.owner ==> final(self)@ == (RegistryModel {
                min_trust_score: new_min,
                ..old(self)@
            }) && r == Some(MinTrustScoreUpdated { old: old(self)@.min_trust_score, new: new_min }),
            caller != old(self)@.owner ==> final(self)@ == old(self)@ && r == None::<
                MinTrustScoreUpdated,
            >,
    {
        if !self.ensure_owner(&caller) {
            return None;
        }
        let old = self.min_trust_score;
        self.min_trust_score = new_min;
        Some(MinTrustScoreUpdated { old, new: new_min })
    }

    /// Changes the trust oracle's address; only the owner may. Reports the
    /// change when it is made.
    pub fn set_trust_oracle(&mut self, caller: Address, addr: Address) -> (r: Option<
        TrustOracleUpdated,
    >)
        ensures
            caller == old(self)@.owner ==> final(self)@ == (RegistryModel {
                trust_oracle: addr,
                ..old(self)@
            }) && r == Some(TrustOracleUpdated { old: old(self)@.trust_oracle, new: addr }),
            caller != old(self)@.owner ==> final(self)@ == old(self)@ && r == None::<
                TrustOracleUpdated,
            >,
    {
        if !self.ensure_owner(&caller) {
            return None;
        }
        let old = self.trust_oracle;
        self.trust_oracle = addr;
        Some(TrustOracleUpdated { old, new: addr })
    }

    /// Whether a borrower with trust score `score` may open a loan.
    pub fn meets_min_trust_score(&self, score: i32) -> (r: bool)
        ensures
            r == (score >= self@.min_trust_score),
    {
        score >= self.min_trust_score
    }

    /// Registers a new loan of `caller`, whose trust score is `score`, and
    /// returns its address: the registry's count of loans, plus one, in the
    /// last eight bytes. The principal, factor and duration are the loan's
    /// own terms and are not kept here.
    pub fn create_loan(
        &mut self,
        caller: Address,
        score: i32,
        principal: u128,
        overfactor_bps: u32,
        max_duration: u64,
    ) -> (r: Address)
        requires
            old(self)@.well_formed(),
            score >= old(self)@.min_trust_score,
            old(self)@.loans.len() < u64::MAX,
        ensures
            is_pseudo_address(r, (old(self)@.loans.len() + 1) as u64),
            !old(self)@.loans.contains(r),
            final(self)@.well_formed(),
            final(self)@ == (RegistryModel {
                loans: old(self)@.loans.push(r),
                borrower_loans: old(self)@.borrower_loans.push((caller, r)),
                ..old(self)@
            }),
    {
        let loan_addr = self.next_pseudo_loan_address();
        proof {
            let n = self@.loans.len();
            assert forall|i: int| 0 <= i < n implies self@.loans[i] != loan_addr by {
                lemma_pseudo_addresses_differ(
                    self@.loans[i],
                    (i + 1) as u64,
                    loan_addr,
                    (n + 1) as u64,
                );
            }
        }
        self.loans.push(loan_addr);
        self.borrower_loans.push(caller, loan_addr);
        loan_addr
    }

    pub fn get_all_loans(&self) -> (r: Vec<Address>)
        ensures
            r@ == self@.loans,
    {
        let mut out: Vec<Address> = Vec::new();
        for i in 0..self.loans.len()
            invariant
                out@ == self.loans@.subrange(0, i as int),
        {
            out.push(self.loans[i]);
            assert(out@ =~= self.loans@.subrange(0, i + 1));
        }
        assert(out@ =~= self.loans@);
        out
    }

    pub fn get_loans_by_borrower(&self, borrower: Address) -> (r: Vec<Address>)
        ensures
            r@ == values_for(self@.borrower_loans, borrower),
    {
        self.borrower_loans.values(&borrower)
    }

    /// The loans a lender takes part in, as far as they were recorded here.
    pub fn get_loans_by_lender(&self, lender: Address) -> (r: Vec<Address>)
        ensures
            r@ == values_for(self@.lender_loans, lender),
    {
        self.lender_loans.values(&lender)
    }

    pub fn get_trust_oracle(&self) -> (r: Address)
        ensures
            r == self@.trust_oracle,
    {
        self.trust_oracle
    }

    pub fn get_min_trust_score(&self) -> (r: i32)
        ensures
            r == self@.min_trust_score,
    {
        self.min_trust_score
    }

    pub fn get_owner(&self) -> (r: Address)
        ensures
            r == self@.owner,
    {
        self.owner
    }
}

} // verus!
