//! The protocol's parameters, held under an admin.
use vstd::prelude::*;
use crate::ids::{Address, Key};

verus! {

/// Why a change of the parameters was refused.
#[derive(Clone, Copy, Debug, PartialEq, Eq, Structural)]
pub enum Error {
    /// The caller is not the admin.
    NotAdmin,
}

/// The terms a loan is created and activated under, as the configuration
/// holds them at that time.
#[derive(Clone, Copy, Debug, PartialEq, Eq, Structural)]
pub struct ProtocolInfo {
    /// Distinct lenders a loan needs before it activates.
    pub min_lenders: u32,
    /// Funding required, in percent of the requested amount.
    pub overfunding_factor: u64,
    /// Interest, in basis points of the requested amount.
    pub base_interest_rate: u64,
    /// Penalty per late period, in basis points of what is due.
    pub late_penalty_rate: u64,
    /// The longest duration a loan may ask for.
    pub max_loan_duration: u64,
}

/// The protocol's parameters and their admin.
#[derive(Clone, Copy, Debug)]
pub struct Config {
    min_lenders: u32,
    overfunding_factor: u64,
    base_interest_rate: u64,
    late_penalty_rate: u64,
    max_loan_duration: u64,
    admin: Address,
}

/// The content of a configuration: the terms, and who may change them.
pub struct ConfigModel {
    pub terms: ProtocolInfo,
    pub admin: Address,
}

impl View for Config {
    type V = ConfigModel;

    closed spec fn view(&self) -> ConfigModel {
        ConfigModel {
            terms: ProtocolInfo {
                min_lenders: self.min_lenders,
                overfunding_factor: self.overfunding_factor,
                base_interest_rate: self.base_interest_rate,
                late_penalty_rate: self.late_penalty_rate,
                max_loan_duration: self.max_loan_duration,
            },
            admin: self.admin,
        }
    }
}

impl Config {
    /// A configuration whose admin is `caller`.
    pub fn new(
        caller: Address,
        min_lenders: u32,
        overfunding_factor: u64,
        base_interest_rate: u64,
        late_penalty_rate: u64,
        max_loan_duration: u64,
    ) -> (r: Config)
        ensures
            r@ == (ConfigModel {
                terms: ProtocolInfo {
                    min_lenders,
                    overfunding_factor,
                    base_interest_rate,
                    late_penalty_rate,
                    max_loan_duration,
                },
                admin: caller,
            }),
    {
        Config {
            admin: caller,
            min_lenders,
            overfunding_factor,
            base_interest_rate,
            late_penalty_rate,
            max_loan_duration,
        }
    }

    /// Succeeds exactly when `caller` is the admin.
    pub fn ensure_admin(&self, caller: Address) -> (r: Result<(), Error>)
        ensures
            r == (if caller == self@.admin {
                Ok::<(), Error>(())
            } else {
                Err(Error::NotAdmin)
            }),
    {
        if !caller.same(&self.admin) {
            return Err(Error::NotAdmin);
        }
        Ok(())
    }

    pub fn set_min_lenders(&mut self, caller: Address, new_min: u32) -> (r: Result<(), Error>)
        ensures
            caller == old(self)@.admin ==> r is Ok && final(self)@ == (ConfigModel {
                terms: ProtocolInfo { min_lenders: new_min, ..old(self)@.terms },
                ..old(self)@
            }),
            caller != old(self)@.admin ==> r == Err::<(), Error>(Error::NotAdmin) && final(self)@
                == old(self)@,
    {
        self.ensure_admin(caller)?;
        self.min_lenders = new_min;
        Ok(())
    }

    pub fn set_overfunding_factor(&mut self, caller: Address, new_factor: u64) -> (r: Result<
        (),
        Error,
    >)
        ensures
            caller == old(self)@.admin ==> r is Ok && final(self)@ == (ConfigModel {
                terms: ProtocolInfo { overfunding_factor: new_factor, ..old(self)@.terms },
                ..old(self)@
            }),
            caller != old(self)@.admin ==> r == Err::<(), Error>(Error::NotAdmin) && final(self)@
                == old(self)@,
    {
        self.ensure_admin(caller)?;
        self.overfunding_factor = new_factor;
        Ok(())
    }

    pub fn set_base_interest_rate(&mut self, caller: Address, new_rate: u64) -> (r: Result<
        (),
        Error,
    >)
        ensures
            caller == old(self)@.admin ==> r is Ok && final(self)@ == (ConfigModel {
                terms: ProtocolInfo { base_interest_rate: new_rate, ..old(self)@.terms },
                ..old(self)@
            }),
            caller != old(self)@.admin ==> r == Err::<(), Error>(Error::NotAdmin) && final(self)@
                == old(self)@,
    {
        self.ensure_admin(caller)?;
        self.base_interest_rate = new_rate;
        Ok(())
    }

    pub fn set_late_penalty_rate(&mut self, caller: Address, new_rate: u64) -> (r: Result<
        (),
        Error,
    >)
        ensures
            caller == old(self)@.admin ==> r is Ok && final(self)@ == (ConfigModel {
                terms: ProtocolInfo { late_penalty_rate: new_rate, ..old(self)@.terms },
                ..old(self)@
            }),
            caller != old(self)@.admin ==> r == Err::<(), Error>(Error::NotAdmin) && final(self)@
                == old(self)@,
    {
        self.ensure_admin(caller)?;
        self.late_penalty_rate = new_rate;
        Ok(())
    }

    pub fn set_max_loan_duration(&mut self, caller: Address, new_duration: u64) -> (r: Result<
        (),
        Error,
    >)
        ensures
            caller == old(self)@.admin ==> r is Ok && final(self)@ == (ConfigModel {
                terms: ProtocolInfo { max_loan_duration: new_duration, ..old(self)@.terms },
                ..old(self)@
            }),
            caller != old(self)@.admin ==> r == Err::<(), Error>(Error::NotAdmin) && final(self)@
                == old(self)@,
    {
        self.ensure_admin(caller)?;
        self.max_loan_duration = new_duration;
        Ok(())
    }

    /// All parameters and the admin, in the order
    /// `(min_lenders, overfunding_factor, base_interest_rate,
    /// late_penalty_rate, max_loan_duration, admin)`.
    pub fn get_protocol_info(&self) -> (r: (u32, u64, u64, u64, u64, Address))
        ensures
            r == (
                self@.terms.min_lenders,
                self@.terms.overfunding_factor,
                self@.terms.base_interest_rate,
                self@.terms.late_penalty_rate,
                self@.terms.max_loan_duration,
                self@.admin,
            ),
    {
        (
            self.min_lenders,
            self.overfunding_factor,
            self.base_interest_rate,
            self.late_penalty_rate,
            self.max_loan_duration,
            self.admin,
        )
    }

    /// The parameters a loan is created and activated under.
    pub fn terms(&self) -> (r: ProtocolInfo)
        ensures
            r == self@.terms,
    {
        ProtocolInfo {
            min_lenders: self.min_lenders,
            overfunding_factor: self.overfunding_factor,
            base_interest_rate: self.base_interest_rate,
            late_penalty_rate: self.late_penalty_rate,
            max_loan_duration: self.max_loan_duration,
        }
    }
}

} // verus!
