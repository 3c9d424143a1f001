//! A streaming payment ledger.
//!
//! An employer locks a fixed deposit into a per-employee stream that vests
//! linearly over time at a fixed rate; the employee may claim any vested,
//! unclaimed portion at any moment, and either party may cancel the stream,
//! settling the vested remainder to the employee and refunding the unvested
//! remainder to the employer.
//!
//! [`stream`] holds the single stream record, its vesting calculator and its
//! lifecycle transitions; [`ledger`] keys streams by (employer, employee)
//! pair, holds account balances, and moves value atomically with each
//! transition.

pub mod ledger;
pub mod stream;
