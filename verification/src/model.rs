//! The mathematical model of ledger balances and transfer legs.
//!
//! A balance assignment maps each `(asset, holder)` pair to a signed 128-bit
//! balance. A transfer leg debits a source and credits a destination; a batch
//! applies its legs in order. The router's contracts are stated over these
//! functions.

use vstd::prelude::*;

verus! {

/// A balance assignment: each `(asset, holder)` pair has a signed balance.
pub type Balances = Map<(u64, u64), i128>;

/// The all-zero balance assignment.
pub open spec fn zero_balances() -> Balances {
    Map::new(|k: (u64, u64)| true, |k: (u64, u64)| 0i128)
}

/// One transfer leg is admissible: the amount is non-negative, the source
/// holds at least `amount` of `asset`, and crediting the destination cannot
/// overflow a signed 128-bit balance.
pub open spec fn leg_ok(b: Balances, asset: u64, from: u64, to: u64, amount: i128) -> bool {
    &&& amount >= 0
    &&& b[(asset, from)] >= amount
    &&& from == to || b[(asset, to)] + amount <= i128::MAX
}

/// The balances after moving `amount` of `asset` from `from` to `to`:
/// debit the source, then credit the destination.
pub open spec fn apply_leg(b: Balances, asset: u64, from: u64, to: u64, amount: i128) -> Balances {
    let debited = b.insert((asset, from), (b[(asset, from)] - amount) as i128);
    debited.insert((asset, to), (debited[(asset, to)] + amount) as i128)
}

/// Every leg of the batch is admissible when the legs are applied in order.
pub open spec fn batch_ok(
    b: Balances,
    from: u64,
    to: u64,
    assets: Seq<u64>,
    amounts: Seq<i128>,
) -> bool
    decreases assets.len(),
{
    assets.len() == 0 || {
        &&& leg_ok(b, assets[0], from, to, amounts[0])
        &&& batch_ok(
            apply_leg(b, assets[0], from, to, amounts[0]),
            from,
            to,
            assets.drop_first(),
            amounts.drop_first(),
        )
    }
}

/// The balances after applying every leg of the batch in order.
pub open spec fn apply_batch(
    b: Balances,
    from: u64,
    to: u64,
    assets: Seq<u64>,
    amounts: Seq<i128>,
) -> Balances
    decreases assets.len(),
{
    if assets.len() == 0 {
        b
    } else {
        apply_batch(
            apply_leg(b, assets[0], from, to, amounts[0]),
            from,
            to,
            assets.drop_first(),
            amounts.drop_first(),
        )
    }
}

/// An admissible leg moves exactly `amount`: the source's balance of `asset`
/// drops by `amount`, the destination's rises by `amount`, and every other
/// `(asset, holder)` balance is untouched. A leg from a holder to itself
/// changes nothing.
pub proof fn lemma_apply_leg_effect(b: Balances, asset: u64, from: u64, to: u64, amount: i128)
    requires
        leg_ok(b, asset, from, to, amount),
        b.dom().contains((asset, from)),
        b.dom().contains((asset, to)),
    ensures
        from != to ==> apply_leg(b, asset, from, to, amount)[(asset, from)] == b[(asset, from)]
            - amount,
        from != to ==> apply_leg(b, asset, from, to, amount)[(asset, to)] == b[(asset, to)]
            + amount,
        from == to ==> apply_leg(b, asset, from, to, amount) =~= b,
        forall|k: (u64, u64)|
            k != (asset, from) && k != (asset, to) && b.dom().contains(k) ==> apply_leg(
                b,
                asset,
                from,
                to,
                amount,
            )[k] == b[k],
{
}

/// A batch of one leg is admissible exactly when that leg is, and applies as
/// that leg does. This ties the single-asset rotation operation to the batch
/// operation: rotating one asset is the batch operation on one-element
/// sequences.
pub proof fn lemma_single_leg_batch(b: Balances, from: u64, to: u64, asset: u64, amount: i128)
    ensures
        batch_ok(b, from, to, seq![asset], seq![amount]) <==> leg_ok(b, asset, from, to, amount),
        apply_batch(b, from, to, seq![asset], seq![amount]) == apply_leg(
            b,
            asset,
            from,
            to,
            amount,
        ),
{
    let assets = seq![asset];
    let amounts = seq![amount];
    assert(assets.len() == 1 && assets[0] == asset);
    assert(amounts.len() == 1 && amounts[0] == amount);
    assert(assets.drop_first() =~= Seq::<u64>::empty());
    assert(amounts.drop_first() =~= Seq::<i128>::empty());
    let b1 = apply_leg(b, asset, from, to, amount);
    assert(batch_ok(b1, from, to, assets.drop_first(), amounts.drop_first()));
    assert(apply_batch(b1, from, to, assets.drop_first(), amounts.drop_first()) == b1);
}

/// Growing a batch by one leg at the end: the longer prefix is admissible
/// exactly when the shorter one is and the new leg is admissible in the state
/// the shorter prefix leaves, and it applies as that leg applied after the
/// shorter prefix.
pub proof fn lemma_batch_snoc(
    b: Balances,
    from: u64,
    to: u64,
    assets: Seq<u64>,
    amounts: Seq<i128>,
    i: int,
)
    requires
        assets.len() == amounts.len(),
        0 <= i < assets.len(),
    ensures
        batch_ok(b, from, to, assets.take(i + 1), amounts.take(i + 1)) <==> {
            &&& batch_ok(b, from, to, assets.take(i), amounts.take(i))
            &&& leg_ok(
                apply_batch(b, from, to, assets.take(i), amounts.take(i)),
                assets[i],
                from,
                to,
                amounts[i],
            )
        },
        apply_batch(b, from, to, assets.take(i + 1), amounts.take(i + 1)) == apply_leg(
            apply_batch(b, from, to, assets.take(i), amounts.take(i)),
            assets[i],
            from,
            to,
            amounts[i],
        ),
    decreases i,
{
    if i == 0 {
        let a1 = assets.take(1);
        let m1 = amounts.take(1);
        assert(a1.len() == 1 && a1[0] == assets[0]);
        assert(m1.len() == 1 && m1[0] == amounts[0]);
        assert(a1.drop_first() =~= Seq::<u64>::empty());
        assert(m1.drop_first() =~= Seq::<i128>::empty());
        assert(assets.take(0) =~= Seq::<u64>::empty());
        assert(amounts.take(0) =~= Seq::<i128>::empty());
        let b1 = apply_leg(b, assets[0], from, to, amounts[0]);
        assert(batch_ok(b1, from, to, a1.drop_first(), m1.drop_first()));
        assert(apply_batch(b1, from, to, a1.drop_first(), m1.drop_first()) == b1);
        assert(batch_ok(b, from, to, assets.take(0), amounts.take(0)));
        assert(apply_batch(b, from, to, assets.take(0), amounts.take(0)) == b);
    } else {
        let b1 = apply_leg(b, assets[0], from, to, amounts[0]);
        lemma_batch_snoc(b1, from, to, assets.drop_first(), amounts.drop_first(), i - 1);
        assert(assets.take(i + 1).drop_first() =~= assets.drop_first().take(i));
        assert(amounts.take(i + 1).drop_first() =~= amounts.drop_first().take(i));
        assert(assets.take(i).drop_first() =~= assets.drop_first().take(i - 1));
        assert(amounts.take(i).drop_first() =~= amounts.drop_first().take(i - 1));
        assert(assets.take(i + 1)[0] == assets[0]);
        assert(amounts.take(i + 1)[0] == amounts[0]);
        assert(assets.take(i)[0] == assets[0]);
        assert(amounts.take(i)[0] == amounts[0]);
        assert(assets.drop_first()[i - 1] == assets[i]);
        assert(amounts.drop_first()[i - 1] == amounts[i]);
    }
}

/// An admissible batch has every prefix admissible.
pub proof fn lemma_batch_ok_take(
    b: Balances,
    from: u64,
    to: u64,
    assets: Seq<u64>,
    amounts: Seq<i128>,
    i: int,
)
    requires
        assets.len() == amounts.len(),
        0 <= i <= assets.len(),
        batch_ok(b, from, to, assets, amounts),
    ensures
        batch_ok(b, from, to, assets.take(i), amounts.take(i)),
    decreases i,
{
    if i == 0 {
        assert(assets.take(0) =~= Seq::<u64>::empty());
    } else {
        let b1 = apply_leg(b, assets[0], from, to, amounts[0]);
        lemma_batch_ok_take(b1, from, to, assets.drop_first(), amounts.drop_first(), i - 1);
        assert(assets.take(i).drop_first() =~= assets.drop_first().take(i - 1));
        assert(amounts.take(i).drop_first() =~= amounts.drop_first().take(i - 1));
        assert(assets.take(i)[0] == assets[0]);
        assert(amounts.take(i)[0] == amounts[0]);
    }
}

} // verus!
