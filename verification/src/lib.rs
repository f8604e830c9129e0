//! A permissioned multi-asset accounting ledger with a reserve-backed
//! mint/redeem workflow.
//!
//! The crate is organised around two independent state aggregates:
//!
//! * [`ledger::Ledger`] — coin registry, per-coin balances and supply,
//!   mint/burn permission tables, and the fee-payment configuration,
//!   together with the fee charge/refund protocol used to settle the
//!   cost of an operation in any fee-eligible coin.
//! * [`reserve::Reserve`] — the deposit/withdrawal request state machine
//!   that bridges external collateral to native supply.
//!
//! Every operation takes the state aggregate explicitly and is atomic:
//! on an error return the aggregate is unchanged.  Interactions with the
//! hosting environment (the native currency primitive, block heights,
//! notification delivery, dispatch of opaque calls) are passed in and out
//! as plain values, so the whole decision logic is verified here.

pub mod types;
pub mod model;
pub mod ledger;
pub mod fees;
pub mod reserve;
