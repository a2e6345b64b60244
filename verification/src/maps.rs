//! Verified association lists standing for the host's persistent
//! key-value maps: share balances, bid permissions and last-deposit
//! timestamps, each keyed by account id.
//!
//! A map is a vector of `(key, value)` pairs with pairwise-distinct keys.
//! Lookup is `kv_find` over the view; the balance map additionally tracks
//! `bal_sum`, the arithmetic total of all stored values, which the vault
//! invariant ties to the outstanding share supply.

use vstd::prelude::*;

use crate::state::Permission;

verus! {

/// The value stored under `key`, if any (first match).
pub open spec fn kv_find<V>(s: Seq<(u64, V)>, key: u64) -> Option<V>
    decreases s.len(),
{
    if s.len() == 0 {
        None
    } else if s[0].0 == key {
        Some(s[0].1)
    } else {
        kv_find(s.drop_first(), key)
    }
}

/// All keys are pairwise distinct.
pub open spec fn kv_distinct<V>(s: Seq<(u64, V)>) -> bool {
    forall|i: int, j: int| 0 <= i < j < s.len() ==> s[i].0 != s[j].0
}

/// A share balance; absent accounts hold zero.
pub open spec fn bal_of(s: Seq<(u64, u64)>, key: u64) -> u64 {
    match kv_find(s, key) {
        Some(v) => v,
        None => 0u64,
    }
}

/// The sum of all stored values.
pub open spec fn bal_sum(s: Seq<(u64, u64)>) -> int
    decreases s.len(),
{
    if s.len() == 0 {
        0
    } else {
        s[0].1 + bal_sum(s.drop_first())
    }
}

/// A bid permission; absent accounts have none.
pub open spec fn perm_of(s: Seq<(u64, Permission)>, key: u64) -> Permission {
    match kv_find(s, key) {
        Some(p) => p,
        None => Permission { submit_bid: false },
    }
}

/// Skipping entries whose key is not `key` leaves the lookup unchanged.
proof fn lemma_kv_find_skip<V>(s: Seq<(u64, V)>, i: int, key: u64)
    requires
        0 <= i <= s.len(),
        forall|j: int| 0 <= j < i ==> s[j].0 != key,
    ensures
        kv_find(s, key) == kv_find(s.skip(i), key),
    decreases i,
{
    if i == 0 {
        assert(s.skip(0) =~= s);
    } else {
        assert(s[0].0 != key);
        assert(s.drop_first() =~= s.skip(1));
        assert(forall|j: int| 0 <= j < i - 1 ==> s.skip(1)[j].0 != key);
        lemma_kv_find_skip(s.skip(1), i - 1, key);
        assert(s.skip(1).skip(i - 1) =~= s.skip(i));
    }
}

/// Updating the first entry holding `key` changes that lookup and no
/// other.
proof fn lemma_kv_find_update<V>(s: Seq<(u64, V)>, i: int, v: V)
    requires
        0 <= i < s.len(),
        forall|j: int| 0 <= j < i ==> s[j].0 != s[i].0,
    ensures
        kv_find(s.update(i, (s[i].0, v)), s[i].0) == Some(v),
        forall|k2: u64| k2 != s[i].0 ==> kv_find(s.update(i, (s[i].0, v)), k2) == kv_find(s, k2),
    decreases i,
{
    let key = s[i].0;
    let u = s.update(i, (key, v));
    if i == 0 {
        assert(u[0] == (key, v));
        assert(u.drop_first() =~= s.drop_first());
        assert forall|k2: u64| k2 != key implies kv_find(u, k2) == kv_find(s, k2) by {
            assert(kv_find(u, k2) == kv_find(u.drop_first(), k2));
            assert(kv_find(s, k2) == kv_find(s.drop_first(), k2));
        }
    } else {
        assert(u[0] == s[0]);
        assert(u.drop_first() =~= s.drop_first().update(i - 1, (s[i].0, v)));
        assert(s.drop_first()[i - 1] == s[i]);
        assert(forall|j: int| 0 <= j < i - 1 ==> (#[trigger] s.drop_first()[j]).0 != s.drop_first()[
            i - 1].0);
        lemma_kv_find_update(s.drop_first(), i - 1, v);
        assert(kv_find(u, key) == Some(v));
        assert forall|k2: u64| k2 != key implies kv_find(u, k2) == kv_find(s, k2) by {
            if s[0].0 == k2 {
                assert(kv_find(u, k2) == Some(u[0].1));
                assert(kv_find(s, k2) == Some(s[0].1));
            } else {
                assert(kv_find(u, k2) == kv_find(u.drop_first(), k2));
                assert(kv_find(s, k2) == kv_find(s.drop_first(), k2));
            }
        }
    }
}

/// Appending a pair changes the lookup of its key only where the key was
/// absent, and no other lookup.
proof fn lemma_kv_find_push<V>(s: Seq<(u64, V)>, key: u64, v: V)
    ensures
        kv_find(s, key) is None ==> kv_find(s.push((key, v)), key) == Some(v),
        kv_find(s, key) is Some ==> kv_find(s.push((key, v)), key) == kv_find(s, key),
        forall|k2: u64| k2 != key ==> kv_find(s.push((key, v)), k2) == kv_find(s, k2),
    decreases s.len(),
{
    let p = s.push((key, v));
    if s.len() == 0 {
        assert(p[0] == (key, v));
        assert(p.drop_first() =~= Seq::<(u64, V)>::empty());
        assert forall|k2: u64| k2 != key implies kv_find(p, k2) == kv_find(s, k2) by {
            assert(kv_find(p, k2) == kv_find(p.drop_first(), k2));
        }
    } else {
        assert(p[0] == s[0]);
        assert(p.drop_first() =~= s.drop_first().push((key, v)));
        lemma_kv_find_push(s.drop_first(), key, v);
        assert forall|k2: u64| k2 != key implies kv_find(p, k2) == kv_find(s, k2) by {
            if s[0].0 == k2 {
            } else {
                assert(kv_find(p, k2) == kv_find(p.drop_first(), k2));
                assert(kv_find(s, k2) == kv_find(s.drop_first(), k2));
            }
        }
    }
}

/// Removing the only entry holding `key` makes that key absent and leaves
/// every other lookup unchanged.
proof fn lemma_kv_find_remove<V>(s: Seq<(u64, V)>, i: int)
    requires
        0 <= i < s.len(),
        kv_distinct(s),
    ensures
        kv_find(s.remove(i), s[i].0) is None,
        forall|k2: u64| k2 != s[i].0 ==> kv_find(s.remove(i), k2) == kv_find(s, k2),
        kv_distinct(s.remove(i)),
    decreases i,
{
    let key = s[i].0;
    let r = s.remove(i);
    assert(forall|m: int| 0 <= m < i ==> r[m] == s[m]);
    assert(forall|m: int| i <= m < r.len() ==> r[m] == s[m + 1]);
    if i == 0 {
        assert(r =~= s.drop_first());
        assert(forall|j: int| 0 <= j < r.len() ==> (#[trigger] r[j]).0 != key);
        lemma_kv_find_absent(r, key);
        assert forall|k2: u64| k2 != key implies kv_find(r, k2) == kv_find(s, k2) by {
            assert(kv_find(s, k2) == kv_find(s.drop_first(), k2));
        }
    } else {
        assert(r[0] == s[0]);
        assert(r.drop_first() =~= s.drop_first().remove(i - 1));
        assert(s.drop_first()[i - 1] == s[i]);
        lemma_kv_find_remove(s.drop_first(), i - 1);
        assert(kv_find(r, key) is None);
        assert forall|k2: u64| k2 != key implies kv_find(r, k2) == kv_find(s, k2) by {
            if s[0].0 == k2 {
            } else {
                assert(kv_find(r, k2) == kv_find(r.drop_first(), k2));
                assert(kv_find(s, k2) == kv_find(s.drop_first(), k2));
            }
        }
    }
}

/// A key held by no entry has no value.
proof fn lemma_kv_find_absent<V>(s: Seq<(u64, V)>, key: u64)
    requires
        forall|j: int| 0 <= j < s.len() ==> s[j].0 != key,
    ensures
        kv_find(s, key) is None,
    decreases s.len(),
{
    if s.len() > 0 {
        lemma_kv_find_absent(s.drop_first(), key);
    }
}

/// Replacing the value at `i` shifts the sum by the difference.
proof fn lemma_bal_sum_update(s: Seq<(u64, u64)>, i: int, e: (u64, u64))
    requires
        0 <= i < s.len(),
    ensures
        bal_sum(s.update(i, e)) == bal_sum(s) - s[i].1 + e.1,
    decreases i,
{
    let u = s.update(i, e);
    if i == 0 {
        assert(u.drop_first() =~= s.drop_first());
    } else {
        assert(u[0] == s[0]);
        assert(u.drop_first() =~= s.drop_first().update(i - 1, e));
        lemma_bal_sum_update(s.drop_first(), i - 1, e);
    }
}

/// Appending a pair adds its value to the sum.
proof fn lemma_bal_sum_push(s: Seq<(u64, u64)>, e: (u64, u64))
    ensures
        bal_sum(s.push(e)) == bal_sum(s) + e.1,
    decreases s.len(),
{
    let p = s.push(e);
    assert(bal_sum(p) == p[0].1 + bal_sum(p.drop_first()));
    if s.len() == 0 {
        assert(p[0] == e);
        assert(p.drop_first() =~= Seq::<(u64, u64)>::empty());
        assert(bal_sum(p.drop_first()) == 0);
    } else {
        assert(p[0] == s[0]);
        assert(p.drop_first() =~= s.drop_first().push(e));
        lemma_bal_sum_push(s.drop_first(), e);
        assert(bal_sum(s) == s[0].1 + bal_sum(s.drop_first()));
    }
}

/// The sum is non-negative and bounds every single balance.
pub proof fn lemma_bal_le_sum(s: Seq<(u64, u64)>, key: u64)
    ensures
        0 <= bal_sum(s),
        bal_of(s, key) <= bal_sum(s),
    decreases s.len(),
{
    if s.len() > 0 {
        lemma_bal_le_sum(s.drop_first(), key);
    }
}

/// Account id -> share balance, summing to the total supply.
#[derive(Clone, Debug)]
pub struct BalanceMap {
    pub entries: Vec<(u64, u64)>,
}

impl View for BalanceMap {
    type V = Seq<(u64, u64)>;

    open spec fn view(&self) -> Seq<(u64, u64)> {
        self.entries@
    }
}

impl BalanceMap {
    pub open spec fn wf(&self) -> bool {
        kv_distinct(self@)
    }

    pub fn new() -> (r: Self)
        ensures
            r@ == Seq::<(u64, u64)>::empty(),
            r.wf(),
            bal_sum(r@) == 0,
    {
        BalanceMap { entries: Vec::new() }
    }

    /// The balance of `key`; zero when absent.
    pub fn get(&self, key: u64) -> (r: u64)
        ensures
            r == bal_of(self@, key),
    {
        let n = self.entries.len();
        let mut i: usize = 0;
        while i < n
            invariant
                i <= n,
                n == self.entries@.len(),
                forall|j: int| 0 <= j < i ==> self.entries@[j].0 != key,
            decreases n - i,
        {
            if self.entries[i].0 == key {
                proof {
                    lemma_kv_find_skip(self.entries@, i as int, key);
                    assert(self.entries@.skip(i as int)[0] == self.entries@[i as int]);
                }
                return self.entries[i].1;
            }
            i += 1;
        }
        proof {
            lemma_kv_find_skip(self.entries@, n as int, key);
        }
        0
    }

    /// Stores `value` under `key`, overwriting any previous balance.
    pub fn set(&mut self, key: u64, value: u64)
        ensures
            old(self).wf() ==> final(self).wf(),
            bal_of(final(self)@, key) == value,
            forall|k2: u64| k2 != key ==> bal_of(final(self)@, k2) == bal_of(old(self)@, k2),
            bal_sum(final(self)@) == bal_sum(old(self)@) - bal_of(old(self)@, key) + value,
    {
        let ghost s = self.entries@;
        let n = self.entries.len();
        let mut i: usize = 0;
        while i < n
            invariant
                i <= n,
                n == self.entries@.len(),
                self.entries@ == s,
                old(self)@ == s,
                forall|j: int| 0 <= j < i ==> s[j].0 != key,
            decreases n - i,
        {
            if self.entries[i].0 == key {
                proof {
                    lemma_kv_find_skip(s, i as int, key);
                    assert(s.skip(i as int)[0] == s[i as int]);
                    lemma_kv_find_update(s, i as int, value);
                    lemma_bal_sum_update(s, i as int, (key, value));
                }
                self.entries.set(i, (key, value));
                proof {
                    assert(forall|m: int|
                        0 <= m < self.entries@.len() ==> self.entries@[m].0 == s[m].0);
                }
                return;
            }
            i += 1;
        }
        proof {
            lemma_kv_find_skip(s, n as int, key);
            lemma_kv_find_push(s, key, value);
            lemma_bal_sum_push(s, (key, value));
        }
        self.entries.push((key, value));
        proof {
            assert(forall|m: int| 0 <= m < s.len() ==> self.entries@[m] == s[m]);
        }
    }
}

/// Account id -> bid-submission permission.
#[derive(Clone, Debug)]
pub struct PermissionMap {
    pub entries: Vec<(u64, Permission)>,
}

impl View for PermissionMap {
    type V = Seq<(u64, Permission)>;

    open spec fn view(&self) -> Seq<(u64, Permission)> {
        self.entries@
    }
}

impl PermissionMap {
    pub open spec fn wf(&self) -> bool {
        kv_distinct(self@)
    }

    pub fn new() -> (r: Self)
        ensures
            r@ == Seq::<(u64, Permission)>::empty(),
            r.wf(),
    {
        PermissionMap { entries: Vec::new() }
    }

    /// The permission of `key`; none when absent.
    pub fn get(&self, key: u64) -> (r: Permission)
        ensures
            r == perm_of(self@, key),
    {
        let n = self.entries.len();
        let mut i: usize = 0;
        while i < n
            invariant
                i <= n,
                n == self.entries@.len(),
                forall|j: int| 0 <= j < i ==> self.entries@[j].0 != key,
            decreases n - i,
        {
            if self.entries[i].0 == key {
                proof {
                    lemma_kv_find_skip(self.entries@, i as int, key);
                    assert(self.entries@.skip(i as int)[0] == self.entries@[i as int]);
                }
                return self.entries[i].1;
            }
            i += 1;
        }
        proof {
            lemma_kv_find_skip(self.entries@, n as int, key);
        }
        Permission { submit_bid: false }
    }

    /// Stores `value` under `key`, overwriting any previous permission.
    pub fn set(&mut self, key: u64, value: Permission)
        ensures
            old(self).wf() ==> final(self).wf(),
            perm_of(final(self)@, key) == value,
            forall|k2: u64| k2 != key ==> perm_of(final(self)@, k2) == perm_of(old(self)@, k2),
    {
        let ghost s = self.entries@;
        let n = self.entries.len();
        let mut i: usize = 0;
        while i < n
            invariant
                i <= n,
                n == self.entries@.len(),
                self.entries@ == s,
                old(self)@ == s,
                forall|j: int| 0 <= j < i ==> s[j].0 != key,
            decreases n - i,
        {
            if self.entries[i].0 == key {
                proof {
                    lemma_kv_find_update(s, i as int, value);
                }
                self.entries.set(i, (key, value));
                proof {
                    assert(forall|m: int|
                        0 <= m < self.entries@.len() ==> self.entries@[m].0 == s[m].0);
                }
                return;
            }
            i += 1;
        }
        proof {
            lemma_kv_find_skip(s, n as int, key);
            lemma_kv_find_push(s, key, value);
        }
        self.entries.push((key, value));
        proof {
            assert(forall|m: int| 0 <= m < s.len() ==> self.entries@[m] == s[m]);
        }
    }

    /// Drops the entry of `key`, if any; the key then has no permission.
    pub fn remove(&mut self, key: u64)
        requires
            old(self).wf(),
        ensures
            final(self).wf(),
            perm_of(final(self)@, key) == (Permission { submit_bid: false }),
            forall|k2: u64| k2 != key ==> perm_of(final(self)@, k2) == perm_of(old(self)@, k2),
    {
        let ghost s = self.entries@;
        let n = self.entries.len();
        let mut i: usize = 0;
        while i < n
            invariant
                i <= n,
                n == self.entries@.len(),
                self.entries@ == s,
                old(self)@ == s,
                kv_distinct(s),
                forall|j: int| 0 <= j < i ==> s[j].0 != key,
            decreases n - i,
        {
            if self.entries[i].0 == key {
                proof {
                    lemma_kv_find_remove(s, i as int);
                }
                self.entries.remove(i);
                return;
            }
            i += 1;
        }
        proof {
            lemma_kv_find_skip(s, n as int, key);
        }
    }
}

/// Account id -> time of most recent deposit.
#[derive(Clone, Debug)]
pub struct TimestampMap {
    pub entries: Vec<(u64, u64)>,
}

impl View for TimestampMap {
    type V = Seq<(u64, u64)>;

    open spec fn view(&self) -> Seq<(u64, u64)> {
        self.entries@
    }
}

impl TimestampMap {
    pub open spec fn wf(&self) -> bool {
        kv_distinct(self@)
    }

    pub fn new() -> (r: Self)
        ensures
            r@ == Seq::<(u64, u64)>::empty(),
            r.wf(),
    {
        TimestampMap { entries: Vec::new() }
    }

    /// The recorded timestamp of `key`, if any.
    pub fn get(&self, key: u64) -> (r: Option<u64>)
        ensures
            r == kv_find(self@, key),
    {
        let n = self.entries.len();
        let mut i: usize = 0;
        while i < n
            invariant
                i <= n,
                n == self.entries@.len(),
                forall|j: int| 0 <= j < i ==> self.entries@[j].0 != key,
            decreases n - i,
        {
            if self.entries[i].0 == key {
                proof {
                    lemma_kv_find_skip(self.entries@, i as int, key);
                    assert(self.entries@.skip(i as int)[0] == self.entries@[i as int]);
                }
                return Some(self.entries[i].1);
            }
            i += 1;
        }
        proof {
            lemma_kv_find_skip(self.entries@, n as int, key);
        }
        None
    }

    /// Stores `value` under `key`, overwriting any previous timestamp.
    pub fn set(&mut self, key: u64, value: u64)
        ensures
            old(self).wf() ==> final(self).wf(),
            kv_find(final(self)@, key) == Some(value),
            forall|k2: u64| k2 != key ==> kv_find(final(self)@, k2) == kv_find(old(self)@, k2),
    {
        let ghost s = self.entries@;
        let n = self.entries.len();
        let mut i: usize = 0;
        while i < n
            invariant
                i <= n,
                n == self.entries@.len(),
                self.entries@ == s,
                old(self)@ == s,
                forall|j: int| 0 <= j < i ==> s[j].0 != key,
            decreases n - i,
        {
            if self.entries[i].0 == key {
                proof {
                    lemma_kv_find_update(s, i as int, value);
                }
                self.entries.set(i, (key, value));
                proof {
                    assert(forall|m: int|
                        0 <= m < self.entries@.len() ==> self.entries@[m].0 == s[m].0);
                }
                return;
            }
            i += 1;
        }
        proof {
            lemma_kv_find_skip(s, n as int, key);
            lemma_kv_find_push(s, key, value);
        }
        self.entries.push((key, value));
        proof {
            assert(forall|m: int| 0 <= m < s.len() ==> self.entries@[m] == s[m]);
        }
    }
}

} // verus!
