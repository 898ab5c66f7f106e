//! The structured events the router publishes for off-ledger observers.
//!
//! Each successful operation publishes exactly one event carrying the
//! operation's full parameters. [`EventView`] is the ghost record of a
//! published event; the contracts of the router operations speak of the
//! event log as a `Seq<EventView>`.

use vstd::prelude::*;

verus! {

/// Published on every successful deposit.
#[derive(Clone, Debug, Eq, PartialEq)]
pub struct DepositEvent {
    /// Vault address receiving the deposit.
    pub vault: u64,
    /// User making the deposit.
    pub from: u64,
    /// Asset being deposited.
    pub asset: u64,
    /// Amount being deposited.
    pub amount: i128,
    /// Opaque routing memo for off-ledger consumers.
    pub memo: String,
}

/// Published on every successful transfer out of a vault.
#[derive(Clone, Debug, Eq, PartialEq)]
pub struct TransferOutEvent {
    /// Vault address sending the transfer.
    pub vault: u64,
    /// Recipient address.
    pub to: u64,
    /// Asset being transferred.
    pub asset: u64,
    /// Amount being transferred.
    pub amount: i128,
    /// Opaque routing memo for off-ledger consumers.
    pub memo: String,
}

/// Published on every successful single-asset vault rotation.
#[derive(Clone, Debug, Eq, PartialEq)]
pub struct TransferAllowanceEvent {
    /// Vault custody is rotated away from.
    pub old_vault: u64,
    /// Vault custody is rotated to.
    pub new_vault: u64,
    /// Asset being rotated.
    pub asset: u64,
    /// Amount being rotated.
    pub amount: i128,
    /// Opaque routing memo for off-ledger consumers.
    pub memo: String,
}

/// Published after every leg of a successful batch vault rotation.
#[derive(Clone, Debug, Eq, PartialEq)]
pub struct VaultReturnEvent {
    /// Vault custody is rotated away from.
    pub old_vault: u64,
    /// Vault custody is rotated to.
    pub new_vault: u64,
    /// Assets rotated, in leg order.
    pub assets: Vec<u64>,
    /// Amounts rotated, one per asset, in the same order.
    pub amounts: Vec<i128>,
    /// Opaque routing memo for off-ledger consumers.
    pub memo: String,
}

/// One entry of the ledger's append-only event log.
#[derive(Clone, Debug, Eq, PartialEq)]
pub enum Event {
    /// A deposit was executed.
    Deposit(DepositEvent),
    /// A transfer out of a vault was executed.
    TransferOut(TransferOutEvent),
    /// A single-asset vault rotation was executed.
    TransferAllowance(TransferAllowanceEvent),
    /// A batch vault rotation was executed.
    VaultReturn(VaultReturnEvent),
}

/// The ghost record of a published event.
pub enum EventView {
    /// A deposit was executed.
    Deposit { vault: u64, from: u64, asset: u64, amount: i128, memo: Seq<char> },
    /// A transfer out of a vault was executed.
    TransferOut { vault: u64, to: u64, asset: u64, amount: i128, memo: Seq<char> },
    /// A single-asset vault rotation was executed.
    TransferAllowance { old_vault: u64, new_vault: u64, asset: u64, amount: i128, memo: Seq<char> },
    /// A batch vault rotation was executed.
    VaultReturn {
        old_vault: u64,
        new_vault: u64,
        assets: Seq<u64>,
        amounts: Seq<i128>,
        memo: Seq<char>,
    },
}

impl View for Event {
    type V = EventView;

    open spec fn view(&self) -> EventView {
        match self {
            Event::Deposit(e) => EventView::Deposit {
                vault: e.vault,
                from: e.from,
                asset: e.asset,
                amount: e.amount,
                memo: e.memo@,
            },
            Event::TransferOut(e) => EventView::TransferOut {
                vault: e.vault,
                to: e.to,
                asset: e.asset,
                amount: e.amount,
                memo: e.memo@,
            },
            Event::TransferAllowance(e) => EventView::TransferAllowance {
                old_vault: e.old_vault,
                new_vault: e.new_vault,
                asset: e.asset,
                amount: e.amount,
                memo: e.memo@,
            },
            Event::VaultReturn(e) => EventView::VaultReturn {
                old_vault: e.old_vault,
                new_vault: e.new_vault,
                assets: e.assets@,
                amounts: e.amounts@,
                memo: e.memo@,
            },
        }
    }
}

} // verus!
