//! An executable model of the host ledger the router runs against.
//!
//! [`Ledger`] carries exactly the four host facilities the router consumes:
//! per-asset balances, the set of principals that have approved the current
//! invocation (the authorization primitive), the current timestamp (the
//! ledger clock), and the append-only event log. Balances are stored as a
//! vector of `(asset, owner, amount)` records and abstracted to the total
//! balance map of [`crate::model::Balances`]; a missing record means a zero
//! balance.

use vstd::pervasive::VecAdditionalExecFns;
use vstd::prelude::*;

use crate::events::{Event, EventView};
use crate::model::{apply_batch, apply_leg, batch_ok, leg_ok, lemma_batch_ok_take, lemma_batch_snoc, zero_balances, Balances};

verus! {

/// One balance record: `owner` holds `amount` units of the asset `asset`.
#[derive(Clone, Copy, Debug)]
struct BalanceEntry {
    asset: u64,
    owner: u64,
    amount: i128,
}

/// The balance the records assign to `(asset, owner)`: the amount of the
/// first matching record, or zero when no record matches.
spec fn lookup(s: Seq<BalanceEntry>, asset: u64, owner: u64) -> i128
    decreases s.len(),
{
    if s.len() == 0 {
        0i128
    } else if s[0].asset == asset && s[0].owner == owner {
        s[0].amount
    } else {
        lookup(s.drop_first(), asset, owner)
    }
}

/// The total balance map the records induce.
spec fn entries_map(s: Seq<BalanceEntry>) -> Balances {
    Map::new(|k: (u64, u64)| true, |k: (u64, u64)| lookup(s, k.0, k.1))
}

proof fn lemma_lookup_no_match(s: Seq<BalanceEntry>, asset: u64, owner: u64)
    requires
        forall|j: int| 0 <= j < s.len() ==> !(s[j].asset == asset && s[j].owner == owner),
    ensures
        lookup(s, asset, owner) == 0i128,
    decreases s.len(),
{
    if s.len() > 0 {
        assert(forall|j: int|
            0 <= j < s.drop_first().len() ==> s.drop_first()[j] == s[j + 1]);
        lemma_lookup_no_match(s.drop_first(), asset, owner);
    }
}

proof fn lemma_lookup_first_match(s: Seq<BalanceEntry>, i: int, asset: u64, owner: u64)
    requires
        0 <= i < s.len(),
        s[i].asset == asset && s[i].owner == owner,
        forall|j: int| 0 <= j < i ==> !(s[j].asset == asset && s[j].owner == owner),
    ensures
        lookup(s, asset, owner) == s[i].amount,
    decreases i,
{
    if i > 0 {
        assert(forall|j: int|
            0 <= j < s.drop_first().len() ==> s.drop_first()[j] == s[j + 1]);
        lemma_lookup_first_match(s.drop_first(), i - 1, asset, owner);
    }
}

proof fn lemma_lookup_update(s: Seq<BalanceEntry>, i: int, e: BalanceEntry, asset: u64, owner: u64)
    requires
        0 <= i < s.len(),
        s[i].asset == asset && s[i].owner == owner,
        e.asset == asset && e.owner == owner,
        forall|j: int| 0 <= j < i ==> !(s[j].asset == asset && s[j].owner == owner),
    ensures
        lookup(s.update(i, e), asset, owner) == e.amount,
        forall|a2: u64, o2: u64|
            !(a2 == asset && o2 == owner) ==> lookup(s.update(i, e), a2, o2) == lookup(s, a2, o2),
    decreases i,
{
    let t = s.update(i, e);
    if i == 0 {
        assert(t[0] == e);
        assert(t.drop_first() =~= s.drop_first());
        assert forall|a2: u64, o2: u64| !(a2 == asset && o2 == owner) implies lookup(t, a2, o2)
            == lookup(s, a2, o2) by {
            assert(lookup(t, a2, o2) == lookup(t.drop_first(), a2, o2));
            assert(lookup(s, a2, o2) == lookup(s.drop_first(), a2, o2));
        }
    } else {
        assert(forall|j: int|
            0 <= j < s.drop_first().len() ==> s.drop_first()[j] == s[j + 1]);
        lemma_lookup_update(s.drop_first(), i - 1, e, asset, owner);
        assert(t.drop_first() =~= s.drop_first().update(i - 1, e));
        assert(t[0] == s[0]);
        assert forall|a2: u64, o2: u64| !(a2 == asset && o2 == owner) implies lookup(t, a2, o2)
            == lookup(s, a2, o2) by {
            if s[0].asset == a2 && s[0].owner == o2 {
                assert(lookup(t, a2, o2) == s[0].amount);
                assert(lookup(s, a2, o2) == s[0].amount);
            } else {
                assert(lookup(t, a2, o2) == lookup(t.drop_first(), a2, o2));
                assert(lookup(s, a2, o2) == lookup(s.drop_first(), a2, o2));
                assert(lookup(t.drop_first(), a2, o2) == lookup(s.drop_first(), a2, o2));
            }
        }
    }
}

proof fn lemma_lookup_push(s: Seq<BalanceEntry>, e: BalanceEntry)
    requires
        forall|j: int| 0 <= j < s.len() ==> !(s[j].asset == e.asset && s[j].owner == e.owner),
    ensures
        lookup(s.push(e), e.asset, e.owner) == e.amount,
        forall|a2: u64, o2: u64|
            !(a2 == e.asset && o2 == e.owner) ==> lookup(s.push(e), a2, o2) == lookup(s, a2, o2),
    decreases s.len(),
{
    let t = s.push(e);
    if s.len() == 0 {
        assert(t[0] == e);
        assert(t.drop_first() =~= Seq::<BalanceEntry>::empty());
        assert forall|a2: u64, o2: u64| !(a2 == e.asset && o2 == e.owner) implies lookup(t, a2, o2)
            == lookup(s, a2, o2) by {
            assert(lookup(t, a2, o2) == lookup(t.drop_first(), a2, o2));
        }
    } else {
        assert(forall|j: int|
            0 <= j < s.drop_first().len() ==> s.drop_first()[j] == s[j + 1]);
        lemma_lookup_push(s.drop_first(), e);
        assert(t.drop_first() =~= s.drop_first().push(e));
        assert(t[0] == s[0]);
        assert forall|a2: u64, o2: u64| !(a2 == e.asset && o2 == e.owner) implies lookup(t, a2, o2)
            == lookup(s, a2, o2) by {
            if s[0].asset == a2 && s[0].owner == o2 {
                assert(lookup(t, a2, o2) == s[0].amount);
                assert(lookup(s, a2, o2) == s[0].amount);
            } else {
                assert(lookup(t, a2, o2) == lookup(t.drop_first(), a2, o2));
                assert(lookup(s, a2, o2) == lookup(s.drop_first(), a2, o2));
                assert(lookup(t.drop_first(), a2, o2) == lookup(s.drop_first(), a2, o2));
            }
        }
    }
}

/// The index of the first record for `(asset, owner)`, if any.
fn find_entry(entries: &Vec<BalanceEntry>, asset: u64, owner: u64) -> (r: Option<usize>)
    ensures
        match r {
            Some(i) => {
                &&& i < entries@.len()
                &&& entries@[i as int].asset == asset && entries@[i as int].owner == owner
                &&& forall|j: int|
                    0 <= j < i ==> !(entries@[j].asset == asset && entries@[j].owner == owner)
            },
            None => forall|j: int|
                0 <= j < entries@.len() ==> !(entries@[j].asset == asset && entries@[j].owner
                    == owner),
        },
{
    let n = entries.len();
    let mut i: usize = 0;
    while i < n
        invariant
            n == entries@.len(),
            0 <= i <= n,
            forall|j: int| 0 <= j < i ==> !(entries@[j].asset == asset && entries@[j].owner == owner),
        decreases n - i,
    {
        if entries[i].asset == asset && entries[i].owner == owner {
            return Some(i);
        }
        i += 1;
    }
    None
}

/// The balance of `(asset, owner)` under the records.
fn get_amount(entries: &Vec<BalanceEntry>, asset: u64, owner: u64) -> (r: i128)
    ensures
        r == entries_map(entries@)[(asset, owner)],
{
    match find_entry(entries, asset, owner) {
        Some(i) => {
            proof {
                lemma_lookup_first_match(entries@, i as int, asset, owner);
            }
            entries[i].amount
        },
        None => {
            proof {
                lemma_lookup_no_match(entries@, asset, owner);
            }
            0
        },
    }
}

/// Overwrite the balance of `(asset, owner)` with `value`.
fn set_amount(entries: &mut Vec<BalanceEntry>, asset: u64, owner: u64, value: i128)
    ensures
        entries_map(final(entries)@) == entries_map(old(entries)@).insert((asset, owner), value),
{
    let e = BalanceEntry { asset, owner, amount: value };
    match find_entry(entries, asset, owner) {
        Some(i) => {
            proof {
                lemma_lookup_update(entries@, i as int, e, asset, owner);
            }
            entries.set(i, e);
        },
        None => {
            proof {
                lemma_lookup_push(entries@, e);
            }
            entries.push(e);
        },
    }
    proof {
        assert(entries_map(entries@) =~= entries_map(old(entries)@).insert(
            (asset, owner),
            value,
        ));
    }
}

/// Whether one transfer leg is admissible under the records: non-negative
/// amount, sufficient source balance, no destination overflow.
fn leg_admissible(
    entries: &Vec<BalanceEntry>,
    asset: u64,
    from: u64,
    to: u64,
    amount: i128,
) -> (ok: bool)
    ensures
        ok == leg_ok(entries_map(entries@), asset, from, to, amount),
{
    if amount < 0 {
        return false;
    }
    let bf = get_amount(entries, asset, from);
    if bf < amount {
        return false;
    }
    if from == to {
        return true;
    }
    let bt = get_amount(entries, asset, to);
    bt <= i128::MAX - amount
}

/// Execute one admissible transfer leg against the records.
fn apply_leg_exec(entries: &mut Vec<BalanceEntry>, asset: u64, from: u64, to: u64, amount: i128)
    requires
        leg_ok(entries_map(old(entries)@), asset, from, to, amount),
    ensures
        entries_map(final(entries)@) == apply_leg(
            entries_map(old(entries)@),
            asset,
            from,
            to,
            amount,
        ),
{
    let ghost m = entries_map(entries@);
    let bf = get_amount(entries, asset, from);
    if from == to {
        proof {
            assert(apply_leg(m, asset, from, to, amount) =~= m);
        }
        return;
    }
    let bt = get_amount(entries, asset, to);
    set_amount(entries, asset, from, bf - amount);
    set_amount(entries, asset, to, bt + amount);
    proof {
        let debited = m.insert((asset, from), (m[(asset, from)] - amount) as i128);
        assert(debited[(asset, to)] == bt);
        assert(entries_map(entries@) == debited.insert((asset, to), (bt + amount) as i128));
    }
}

/// A fresh copy of the balance records.
fn copy_entries(entries: &Vec<BalanceEntry>) -> (r: Vec<BalanceEntry>)
    ensures
        r@ == entries@,
{
    let n = entries.len();
    let mut r: Vec<BalanceEntry> = Vec::new();
    let mut i: usize = 0;
    while i < n
        invariant
            n == entries@.len(),
            0 <= i <= n,
            r@ == entries@.take(i as int),
        decreases n - i,
    {
        r.push(entries[i]);
        proof {
            assert(r@ =~= entries@.take(i as int + 1));
        }
        i += 1;
    }
    proof {
        assert(entries@.take(n as int) =~= entries@);
    }
    r
}

/// The model of the host ledger: balances, approvals for the current
/// invocation, the clock, and the append-only event log.
pub struct Ledger {
    entries: Vec<BalanceEntry>,
    approvals: Vec<u64>,
    clock: u64,
    /// The append-only event log, in publication order.
    pub events: Vec<Event>,
}

impl Ledger {
    /// The balance map the ledger currently assigns; unfunded pairs hold zero.
    pub closed spec fn balances(&self) -> Balances {
        entries_map(self.entries@)
    }

    /// The principals that have approved the current invocation.
    pub closed spec fn auths(&self) -> Set<u64> {
        Set::new(|p: u64| self.approvals@.contains(p))
    }

    /// The ledger clock's current reading.
    pub closed spec fn now(&self) -> u64 {
        self.clock
    }

    /// The event log as off-ledger observers see it, in publication order.
    pub closed spec fn log(&self) -> Seq<EventView> {
        Seq::new(self.events@.len(), |i: int| self.events@[i]@)
    }

    /// A fresh ledger at the given time: no balances, no approvals, no events.
    pub fn new(now: u64) -> (l: Ledger)
        ensures
            l.balances() == zero_balances(),
            l.auths() == Set::<u64>::empty(),
            l.now() == now,
            l.log() == Seq::<EventView>::empty(),
    {
        let l = Ledger { entries: Vec::new(), approvals: Vec::new(), clock: now, events: Vec::new() };
        proof {
            assert forall|k: (u64, u64)| true implies l.balances()[k] == 0i128 by {
                lemma_lookup_no_match(l.entries@, k.0, k.1);
            }
            assert(l.balances() =~= zero_balances());
            assert(l.auths() =~= Set::<u64>::empty());
            assert(l.log() =~= Seq::<EventView>::empty());
        }
        l
    }

    /// Credit `owner` with `amount` fresh units of `asset`, standing in for
    /// the asset contract's own issuance when seeding a scenario.
    pub fn mint(&mut self, asset: u64, owner: u64, amount: i128)
        requires
            amount >= 0,
            old(self).balances()[(asset, owner)] + amount <= i128::MAX,
        ensures
            final(self).balances() == old(self).balances().insert(
                (asset, owner),
                (old(self).balances()[(asset, owner)] + amount) as i128,
            ),
            final(self).auths() == old(self).auths(),
            final(self).now() == old(self).now(),
            final(self).log() == old(self).log(),
    {
        let b = get_amount(&self.entries, asset, owner);
        set_amount(&mut self.entries, asset, owner, b + amount);
    }

    /// Record that `principal` has approved the current invocation; models
    /// the host's authorization primitive answering yes for it.
    pub fn authorize(&mut self, principal: u64)
        ensures
            final(self).auths() == old(self).auths().insert(principal),
            final(self).balances() == old(self).balances(),
            final(self).now() == old(self).now(),
            final(self).log() == old(self).log(),
    {
        self.approvals.push(principal);
        proof {
            let post = self.approvals@;
            let pre = old(self).approvals@;
            assert forall|q: u64| post.contains(q) <==> (pre.contains(q) || q == principal) by {
                if post.contains(q) {
                    let j = choose|j: int| 0 <= j < post.len() && post[j] == q;
                    if j < pre.len() {
                        assert(pre[j] == q);
                    }
                }
                if pre.contains(q) {
                    let j = choose|j: int| 0 <= j < pre.len() && pre[j] == q;
                    assert(post[j] == q);
                }
                if q == principal {
                    assert(post[post.len() - 1] == q);
                }
            }
            assert(self.auths() =~= old(self).auths().insert(principal));
        }
    }

    /// Set the ledger clock.
    pub fn set_timestamp(&mut self, now: u64)
        ensures
            final(self).now() == now,
            final(self).balances() == old(self).balances(),
            final(self).auths() == old(self).auths(),
            final(self).log() == old(self).log(),
    {
        self.clock = now;
    }

    /// Read the ledger clock.
    pub fn timestamp(&self) -> (r: u64)
        ensures
            r == self.now(),
    {
        self.clock
    }

    /// The balance `owner` holds of `asset`.
    pub fn get_balance(&self, asset: u64, owner: u64) -> (r: i128)
        ensures
            r == self.balances()[(asset, owner)],
    {
        get_amount(&self.entries, asset, owner)
    }

    /// Whether `principal` has approved the current invocation.
    pub fn is_authorized(&self, principal: u64) -> (r: bool)
        ensures
            r == self.auths().contains(principal),
    {
        let n = self.approvals.len();
        let mut i: usize = 0;
        while i < n
            invariant
                n == self.approvals@.len(),
                0 <= i <= n,
                forall|j: int| 0 <= j < i ==> self.approvals@[j] != principal,
            decreases n - i,
        {
            if self.approvals[i] == principal {
                return true;
            }
            i += 1;
        }
        false
    }

    /// Append one event to the log.
    pub(crate) fn publish(&mut self, ev: Event)
        ensures
            final(self).log() == old(self).log().push(ev@),
            final(self).balances() == old(self).balances(),
            final(self).auths() == old(self).auths(),
            final(self).now() == old(self).now(),
    {
        self.events.push(ev);
        proof {
            assert(self.log() =~= old(self).log().push(ev@));
        }
    }

    /// Whether one transfer leg is admissible right now.
    pub(crate) fn leg_admissible(&self, asset: u64, from: u64, to: u64, amount: i128) -> (ok: bool)
        ensures
            ok == leg_ok(self.balances(), asset, from, to, amount),
    {
        leg_admissible(&self.entries, asset, from, to, amount)
    }

    /// Execute one admissible transfer leg.
    pub(crate) fn transfer_leg(&mut self, asset: u64, from: u64, to: u64, amount: i128)
        requires
            leg_ok(old(self).balances(), asset, from, to, amount),
        ensures
            final(self).balances() == apply_leg(old(self).balances(), asset, from, to, amount),
            final(self).auths() == old(self).auths(),
            final(self).now() == old(self).now(),
            final(self).log() == old(self).log(),
    {
        apply_leg_exec(&mut self.entries, asset, from, to, amount);
    }

    /// Attempt a whole batch of legs from `from` to `to`, all-or-nothing:
    /// the legs are staged on a copy of the records and committed only if
    /// every leg is admissible in order; otherwise the ledger is untouched.
    pub(crate) fn transfer_batch(
        &mut self,
        from: u64,
        to: u64,
        assets: &Vec<u64>,
        amounts: &Vec<i128>,
    ) -> (ok: bool)
        requires
            assets@.len() == amounts@.len(),
        ensures
            ok == batch_ok(old(self).balances(), from, to, assets@, amounts@),
            ok ==> final(self).balances() == apply_batch(
                old(self).balances(),
                from,
                to,
                assets@,
                amounts@,
            ),
            ok ==> final(self).auths() == old(self).auths() && final(self).now() == old(self).now()
                && final(self).log() == old(self).log(),
            !ok ==> *final(self) == *old(self),
    {
        let ghost m0 = self.balances();
        let mut staged = copy_entries(&self.entries);
        let n = assets.len();
        let mut i: usize = 0;
        #[verifier::loop_isolation(false)]
        while i < n
            invariant
                n == assets@.len(),
                assets@.len() == amounts@.len(),
                0 <= i <= n,
                batch_ok(m0, from, to, assets@.take(i as int), amounts@.take(i as int)),
                entries_map(staged@) == apply_batch(
                    m0,
                    from,
                    to,
                    assets@.take(i as int),
                    amounts@.take(i as int),
                ),
            decreases n - i,
        {
            if !leg_admissible(&staged, assets[i], from, to, amounts[i]) {
                proof {
                    // Were the whole batch admissible, this leg would be
                    // admissible in the state the staged prefix leaves.
                    if batch_ok(m0, from, to, assets@, amounts@) {
                        lemma_batch_ok_take(m0, from, to, assets@, amounts@, i as int + 1);
                        lemma_batch_snoc(m0, from, to, assets@, amounts@, i as int);
                    }
                }
                return false;
            }
            apply_leg_exec(&mut staged, assets[i], from, to, amounts[i]);
            proof {
                lemma_batch_snoc(m0, from, to, assets@, amounts@, i as int);
            }
            i += 1;
        }
        proof {
            assert(assets@.take(n as int) =~= assets@);
            assert(amounts@.take(n as int) =~= amounts@);
        }
        self.entries = staged;
        true
    }
}

} // verus!
