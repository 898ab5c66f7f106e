//! A stateless on-ledger router for a cross-chain asset-transfer protocol.
//!
//! The router moves fungible assets between end users and custodial vault
//! addresses, and between vaults during custody rotation, emitting one
//! structured event per successful operation for off-ledger observers.
//! It keeps no state of its own: every operation validates its inputs,
//! checks the stated principal's authorization, executes the transfer legs
//! against the ledger, and publishes the event, all-or-nothing.
//!
//! The host ledger (balances, approvals, clock, event log) is modelled by
//! [`ledger::Ledger`]; the operations themselves live on
//! [`router::SwitchlyRouter`] and carry contracts that pin down the exact
//! balance movement, the exact event published, and the exact error returned
//! on every rejected input.

pub mod events;
pub mod ledger;
pub mod model;
pub mod router;
