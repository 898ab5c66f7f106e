//! The router's operation set.
//!
//! Every mutating operation follows one pattern: validate the inputs, check
//! the stated principal's authorization, execute the transfer leg(s), and
//! publish exactly one event — all-or-nothing. Each operation's contract is
//! stated by a `..._post` spec function relating the ledger before the call,
//! the ledger after it, and the result: it pins down the exact balance
//! movement and event on success, the exact error on every rejected input,
//! and that a rejected call leaves the ledger untouched.

use vstd::prelude::*;
use vstd::string::StringExecFns;

use crate::events::{
    DepositEvent, Event, EventView, TransferAllowanceEvent, TransferOutEvent, VaultReturnEvent,
};
use crate::ledger::Ledger;
use crate::model::{apply_batch, apply_leg, batch_ok, leg_ok};

verus! {

/// Why a router call was rejected.
#[derive(Clone, Copy, Debug, PartialEq, Eq, Structural)]
pub enum RouterError {
    /// The stated principal has not approved this invocation.
    Unauthorized,
    /// The ledger clock is past the caller-supplied expiry.
    Expired,
    /// The batch's asset and amount sequences differ in length.
    LengthMismatch,
    /// A transfer leg was rejected: negative amount, insufficient source
    /// balance, or destination balance overflow.
    TransferFailed,
}

/// The clock and the approval set are never touched by an operation.
pub open spec fn clock_and_auths_unchanged(pre: Ledger, post: Ledger) -> bool {
    post.auths() == pre.auths() && post.now() == pre.now()
}

/// The observable contract of a deposit: it succeeds exactly when `from` has
/// approved the call and the leg from `from` to `vault` is admissible; on
/// success it moves `amount` of `asset` and appends one deposit event with
/// matching fields; any rejection names its reason and leaves the ledger
/// untouched.
pub open spec fn deposit_post(
    pre: Ledger,
    post: Ledger,
    r: Result<(), RouterError>,
    from: u64,
    vault: u64,
    asset: u64,
    amount: i128,
    memo: Seq<char>,
) -> bool {
    &&& (r is Ok <==> pre.auths().contains(from) && leg_ok(pre.balances(), asset, from, vault, amount))
    &&& !pre.auths().contains(from) ==> r == Result::<(), RouterError>::Err(
        RouterError::Unauthorized,
    )
    &&& pre.auths().contains(from) && !leg_ok(pre.balances(), asset, from, vault, amount)
        ==> r == Result::<(), RouterError>::Err(RouterError::TransferFailed)
    &&& r is Ok ==> post.balances() == apply_leg(pre.balances(), asset, from, vault, amount)
    &&& r is Ok ==> post.log() == pre.log().push(
        (EventView::Deposit { vault, from, asset, amount, memo }),
    )
    &&& r is Ok ==> clock_and_auths_unchanged(pre, post)
    &&& r is Err ==> post == pre
}

/// The observable contract of a transfer out of a vault; the authorized
/// principal is the vault.
pub open spec fn transfer_out_post(
    pre: Ledger,
    post: Ledger,
    r: Result<(), RouterError>,
    vault: u64,
    to: u64,
    asset: u64,
    amount: i128,
    memo: Seq<char>,
) -> bool {
    &&& (r is Ok <==> pre.auths().contains(vault) && leg_ok(pre.balances(), asset, vault, to, amount))
    &&& !pre.auths().contains(vault) ==> r == Result::<(), RouterError>::Err(
        RouterError::Unauthorized,
    )
    &&& pre.auths().contains(vault) && !leg_ok(pre.balances(), asset, vault, to, amount)
        ==> r == Result::<(), RouterError>::Err(RouterError::TransferFailed)
    &&& r is Ok ==> post.balances() == apply_leg(pre.balances(), asset, vault, to, amount)
    &&& r is Ok ==> post.log() == pre.log().push(
        (EventView::TransferOut { vault, to, asset, amount, memo }),
    )
    &&& r is Ok ==> clock_and_auths_unchanged(pre, post)
    &&& r is Err ==> post == pre
}

/// The observable contract of a single-asset custody rotation; the authorized
/// principal is the old vault.
pub open spec fn transfer_allowance_post(
    pre: Ledger,
    post: Ledger,
    r: Result<(), RouterError>,
    old_vault: u64,
    new_vault: u64,
    asset: u64,
    amount: i128,
    memo: Seq<char>,
) -> bool {
    &&& (r is Ok <==> pre.auths().contains(old_vault) && leg_ok(
        pre.balances(),
        asset,
        old_vault,
        new_vault,
        amount,
    ))
    &&& !pre.auths().contains(old_vault) ==> r == Result::<(), RouterError>::Err(
        RouterError::Unauthorized,
    )
    &&& pre.auths().contains(old_vault) && !leg_ok(
        pre.balances(),
        asset,
        old_vault,
        new_vault,
        amount,
    ) ==> r == Result::<(), RouterError>::Err(RouterError::TransferFailed)
    &&& r is Ok ==> post.balances() == apply_leg(
        pre.balances(),
        asset,
        old_vault,
        new_vault,
        amount,
    )
    &&& r is Ok ==> post.log() == pre.log().push(
        (EventView::TransferAllowance { old_vault, new_vault, asset, amount, memo }),
    )
    &&& r is Ok ==> clock_and_auths_unchanged(pre, post)
    &&& r is Err ==> post == pre
}

/// The observable contract of a batch custody rotation: a length mismatch is
/// rejected before anything else; otherwise the call succeeds exactly when
/// the old vault has approved it and every leg is admissible in order, moving
/// every leg and appending one event carrying the full sequences; any
/// rejection names its reason and leaves the ledger untouched.
pub open spec fn return_vault_assets_post(
    pre: Ledger,
    post: Ledger,
    r: Result<(), RouterError>,
    old_vault: u64,
    new_vault: u64,
    assets: Seq<u64>,
    amounts: Seq<i128>,
    memo: Seq<char>,
) -> bool {
    &&& assets.len() != amounts.len() ==> r == Result::<(), RouterError>::Err(
        RouterError::LengthMismatch,
    ) && post == pre
    &&& assets.len() == amounts.len() ==> {
        &&& (r is Ok <==> pre.auths().contains(old_vault) && batch_ok(
            pre.balances(),
            old_vault,
            new_vault,
            assets,
            amounts,
        ))
        &&& !pre.auths().contains(old_vault) ==> r == Result::<(), RouterError>::Err(
            RouterError::Unauthorized,
        )
        &&& pre.auths().contains(old_vault) && !batch_ok(
            pre.balances(),
            old_vault,
            new_vault,
            assets,
            amounts,
        ) ==> r == Result::<(), RouterError>::Err(RouterError::TransferFailed)
        &&& r is Ok ==> post.balances() == apply_batch(
            pre.balances(),
            old_vault,
            new_vault,
            assets,
            amounts,
        )
        &&& r is Ok ==> post.log() == pre.log().push(
            (EventView::VaultReturn { old_vault, new_vault, assets, amounts, memo }),
        )
        &&& r is Ok ==> clock_and_auths_unchanged(pre, post)
        &&& r is Err ==> post == pre
    }
}

/// The version identifier the router reports.
pub open spec fn spec_version() -> Seq<char> {
    "3.0.0-stateless"@
}

/// The expiry decision: a deposit intent is expired exactly when the clock
/// reading is past the caller-supplied expiry. Host adapters that read a real
/// ledger clock share this decision.
pub fn intent_expired(current_time: u64, expiry: u64) -> (r: bool)
    ensures
        r == (current_time > expiry),
{
    current_time > expiry
}

/// The batch-shape decision: a batch is well-formed exactly when it names as
/// many amounts as assets. Host adapters share this decision.
pub fn batch_lengths_match(n_assets: u64, n_amounts: u64) -> (r: bool)
    ensures
        r == (n_assets == n_amounts),
{
    n_assets == n_amounts
}

/// The stateless router: no fields, no storage, no state between calls.
pub struct SwitchlyRouter;

impl SwitchlyRouter {
    /// Deposit: move `amount` of `asset` from `from` to `vault`, authorized
    /// by `from`, and publish one deposit event.
    pub fn deposit(
        l: &mut Ledger,
        from: u64,
        vault: u64,
        asset: u64,
        amount: i128,
        memo: String,
    ) -> (r: Result<(), RouterError>)
        ensures
            deposit_post(*old(l), *final(l), r, from, vault, asset, amount, memo@),
    {
        if !l.is_authorized(from) {
            return Err(RouterError::Unauthorized);
        }
        if !l.leg_admissible(asset, from, vault, amount) {
            return Err(RouterError::TransferFailed);
        }
        l.transfer_leg(asset, from, vault, amount);
        l.publish(Event::Deposit(DepositEvent { vault, from, asset, amount, memo }));
        Ok(())
    }

    /// Deposit guarded by a caller-supplied time bound: rejected outright,
    /// before any authorization check or transfer, when the ledger clock is
    /// past `expiry`; otherwise exactly a deposit.
    pub fn deposit_with_expiry(
        l: &mut Ledger,
        from: u64,
        vault: u64,
        asset: u64,
        amount: i128,
        memo: String,
        expiry: u64,
    ) -> (r: Result<(), RouterError>)
        ensures
            old(l).now() > expiry ==> r == Result::<(), RouterError>::Err(RouterError::Expired)
                && *final(l) == *old(l),
            old(l).now() <= expiry ==> deposit_post(
                *old(l),
                *final(l),
                r,
                from,
                vault,
                asset,
                amount,
                memo@,
            ),
    {
        if l.timestamp() > expiry {
            return Err(RouterError::Expired);
        }
        Self::deposit(l, from, vault, asset, amount, memo)
    }

    /// Transfer out: move `amount` of `asset` from `vault` to `to`,
    /// authorized by the vault, and publish one transfer-out event.
    pub fn transfer_out(
        l: &mut Ledger,
        vault: u64,
        to: u64,
        asset: u64,
        amount: i128,
        memo: String,
    ) -> (r: Result<(), RouterError>)
        ensures
            transfer_out_post(*old(l), *final(l), r, vault, to, asset, amount, memo@),
    {
        if !l.is_authorized(vault) {
            return Err(RouterError::Unauthorized);
        }
        if !l.leg_admissible(asset, vault, to, amount) {
            return Err(RouterError::TransferFailed);
        }
        l.transfer_leg(asset, vault, to, amount);
        l.publish(Event::TransferOut(TransferOutEvent { vault, to, asset, amount, memo }));
        Ok(())
    }

    /// Single-asset custody rotation: move `amount` of `asset` from the old
    /// vault to the new one, authorized by the old vault, and publish one
    /// allowance-transfer event.
    pub fn transfer_allowance(
        l: &mut Ledger,
        old_vault: u64,
        new_vault: u64,
        asset: u64,
        amount: i128,
        memo: String,
    ) -> (r: Result<(), RouterError>)
        ensures
            transfer_allowance_post(
                *old(l),
                *final(l),
                r,
                old_vault,
                new_vault,
                asset,
                amount,
                memo@,
            ),
    {
        if !l.is_authorized(old_vault) {
            return Err(RouterError::Unauthorized);
        }
        if !l.leg_admissible(asset, old_vault, new_vault, amount) {
            return Err(RouterError::TransferFailed);
        }
        l.transfer_leg(asset, old_vault, new_vault, amount);
        l.publish(
            Event::TransferAllowance(
                TransferAllowanceEvent { old_vault, new_vault, asset, amount, memo },
            ),
        );
        Ok(())
    }

    /// Batch custody rotation: validate the sequence lengths, then move every
    /// `amounts[i]` of `assets[i]` from the old vault to the new one under a
    /// single authorization, all-or-nothing, and publish one event carrying
    /// the full sequences.
    pub fn return_vault_assets(
        l: &mut Ledger,
        old_vault: u64,
        new_vault: u64,
        assets: Vec<u64>,
        amounts: Vec<i128>,
        memo: String,
    ) -> (r: Result<(), RouterError>)
        ensures
            return_vault_assets_post(
                *old(l),
                *final(l),
                r,
                old_vault,
                new_vault,
                assets@,
                amounts@,
                memo@,
            ),
    {
        if assets.len() != amounts.len() {
            return Err(RouterError::LengthMismatch);
        }
        if !l.is_authorized(old_vault) {
            return Err(RouterError::Unauthorized);
        }
        if !l.transfer_batch(old_vault, new_vault, &assets, &amounts) {
            return Err(RouterError::TransferFailed);
        }
        l.publish(
            Event::VaultReturn(VaultReturnEvent { old_vault, new_vault, assets, amounts, memo }),
        );
        Ok(())
    }

    /// The contract version identifier: a fixed string, no side effects.
    pub fn version() -> (r: String)
        ensures
            r@ == spec_version(),
    {
        String::from_str("3.0.0-stateless")
    }
}

} // verus!
