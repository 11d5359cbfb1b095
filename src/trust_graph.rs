//! The trust graph: for each account, the accounts it trusts, in the order
//! it added them.
use vstd::prelude::*;
use crate::ids::Address;
use crate::keyed::{seq_without, values_for, PairList};

verus! {

/// Why a trust-graph operation was refused.
#[derive(Clone, Copy, Debug, PartialEq, Eq, Structural)]
pub enum Error {
    /// The account trusts nobody.
    NoTrustedAddresses,
    /// The address to remove is not trusted.
    NotTrusted,
}

/// Who trusts whom.
#[derive(Clone, Debug)]
pub struct TrustGraph {
    trusted: PairList<Address, Address>,
}

impl View for TrustGraph {
    type V = Seq<(Address, Address)>;

    /// Each pair `(truster, trusted)`, in the order added.
    closed spec fn view(&self) -> Seq<(Address, Address)> {
        self.trusted@
    }
}

impl TrustGraph {
    /// A graph in which nobody trusts anybody.
    pub fn new() -> (r: TrustGraph)
        ensures
            forall|a: Address| #[trigger] values_for(r@, a) == Seq::<Address>::empty(),
    {
        let r = TrustGraph { trusted: PairList::new() };
        assert forall|a: Address| #[trigger] values_for(r@, a) == Seq::<Address>::empty() by {
            assert(r@.len() == 0);
        }
        r
    }

    /// `caller` comes to trust `new_trusted`, added after those it already
    /// trusts.
    pub fn set_new_trusted(&mut self, caller: Address, new_trusted: Address) -> (r: Result<(), Error>)
        ensures
            r is Ok,
            forall|a: Address|
                #![trigger values_for(final(self)@, a)]
                values_for(final(self)@, a) == if a == caller {
                    values_for(old(self)@, caller).push(new_trusted)
                } else {
                    values_for(old(self)@, a)
                },
    {
        self.trusted.push(caller, new_trusted);
        Ok(())
    }

    /// `caller` stops trusting `to_delete`. Refused with `NotTrusted`,
    /// changing nothing, when the caller does not trust it.
    pub fn delete_trusted(&mut self, caller: Address, to_delete: Address) -> (r: Result<(), Error>)
        ensures
            values_for(old(self)@, caller).contains(to_delete) ==> r is Ok && forall|a: Address|
                #![trigger values_for(final(self)@, a)]
                values_for(final(self)@, a) == if a == caller {
                    seq_without(values_for(old(self)@, caller), to_delete)
                } else {
                    values_for(old(self)@, a)
                },
            !values_for(old(self)@, caller).contains(to_delete) ==> r == Err::<(), Error>(
                Error::NotTrusted,
            ) && final(self)@ == old(self)@,
    {
        if self.trusted.contains_pair(&caller, &to_delete) {
            self.trusted.remove_pair(&caller, &to_delete);
            Ok(())
        } else {
            Err(Error::NotTrusted)
        }
    }

    /// Those `lender` trusts, in order. Refused with `NoTrustedAddresses`
    /// when it trusts nobody.
    pub fn get_all_trusted(&self, lender: Address) -> (r: Result<Vec<Address>, Error>)
        ensures
            values_for(self@, lender).len() > 0 ==> r is Ok && r->Ok_0@ == values_for(self@, lender),
            values_for(self@, lender).len() == 0 ==> r == Err::<Vec<Address>, Error>(
                Error::NoTrustedAddresses,
            ),
    {
        let addrs = self.trusted.values(&lender);
        if addrs.len() > 0 {
            Ok(addrs)
        } else {
            Err(Error::NoTrustedAddresses)
        }
    }

    /// Whether `lender` trusts `borrower`.
    pub fn is_trusted(&self, lender: Address, borrower: Address) -> (r: bool)
        ensures
            r == values_for(self@, lender).contains(borrower),
    {
        self.trusted.contains_pair(&lender, &borrower)
    }
}

} // verus!
