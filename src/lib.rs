//! A peer-funded microloan settlement engine.
//!
//! Borrowers ask for a principal, a pool of lenders overfunds the request,
//! the surplus is held as a loss-absorbing reserve, and the engine tracks
//! repayment, default and the pro-rata payout to lenders. The collaborators
//! around it (value transfers, the trust oracle, configuration) are reached
//! through plain values: every operation takes the caller, the amount and the
//! time it runs at, and hands back the transfers and notifications to perform.

pub mod ids;
pub mod keyed;
pub mod loan;
pub mod settlement;
pub mod config;
pub mod manager;
pub mod trust_graph;
pub mod oracle;
pub mod registry;
