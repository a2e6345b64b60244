//! The FIFO time-lock queue of claimed collateral.
//!
//! Records are appended by claim operations with the claim time and
//! consumed from the front once the lock period has elapsed.  Because
//! claim times are non-decreasing (block time is monotonic, and the
//! storage invariant records this explicitly), the matured records always
//! form a prefix of the queue.

use vstd::prelude::*;

use crate::state::{TokenRecord, LOCK_PERIOD};

verus! {

/// The total collateral amount held by the records.
pub open spec fn lock_sum(s: Seq<TokenRecord>) -> int
    decreases s.len(),
{
    if s.len() == 0 {
        0
    } else {
        s[0].amount + lock_sum(s.drop_first())
    }
}

/// Claim times never decrease along the queue.
pub open spec fn lock_timestamps_sorted(s: Seq<TokenRecord>) -> bool {
    forall|i: int, j: int| 0 <= i <= j < s.len() ==> s[i].timestamp <= s[j].timestamp
}

/// A record is matured exactly when its lock period has fully elapsed;
/// the boundary instant `timestamp + LOCK_PERIOD == now` counts as
/// matured.
pub open spec fn matured(rec: TokenRecord, now: u64) -> bool {
    rec.timestamp + LOCK_PERIOD <= now
}

/// Length of the maximal matured prefix.
pub open spec fn matured_count(s: Seq<TokenRecord>, now: u64) -> int
    decreases s.len(),
{
    if s.len() == 0 {
        0
    } else if matured(s[0], now) {
        1 + matured_count(s.drop_first(), now)
    } else {
        0
    }
}

/// The lock total is non-negative.
pub proof fn lemma_lock_sum_nonneg(s: Seq<TokenRecord>)
    ensures
        0 <= lock_sum(s),
    decreases s.len(),
{
    if s.len() > 0 {
        lemma_lock_sum_nonneg(s.drop_first());
    }
}

/// Splitting the queue splits the total.
pub proof fn lemma_lock_sum_split(s: Seq<TokenRecord>, i: int)
    requires
        0 <= i <= s.len(),
    ensures
        lock_sum(s) == lock_sum(s.take(i)) + lock_sum(s.skip(i)),
    decreases i,
{
    if i == 0 {
        assert(s.take(0) =~= Seq::<TokenRecord>::empty());
        assert(s.skip(0) =~= s);
    } else {
        assert(s.len() > 0);
        assert(s.take(i)[0] == s[0]);
        assert(s.take(i).drop_first() =~= s.drop_first().take(i - 1));
        assert(s.skip(i) =~= s.drop_first().skip(i - 1));
        lemma_lock_sum_split(s.drop_first(), i - 1);
    }
}

/// Extending a prefix by one record adds that record's amount.
proof fn lemma_lock_sum_take_succ(s: Seq<TokenRecord>, i: int)
    requires
        0 <= i < s.len(),
    ensures
        lock_sum(s.take(i + 1)) == lock_sum(s.take(i)) + s[i].amount,
    decreases i,
{
    if i == 0 {
        assert(s.take(1)[0] == s[0]);
        assert(s.take(1).drop_first() =~= Seq::<TokenRecord>::empty());
        assert(s.take(0) =~= Seq::<TokenRecord>::empty());
    } else {
        assert(s.take(i + 1)[0] == s[0]);
        assert(s.take(i)[0] == s[0]);
        assert(s.take(i + 1).drop_first() =~= s.drop_first().take(i));
        assert(s.take(i).drop_first() =~= s.drop_first().take(i - 1));
        assert(s.drop_first()[i - 1] == s[i]);
        lemma_lock_sum_take_succ(s.drop_first(), i - 1);
    }
}

/// Appending a record adds its amount to the total.
pub proof fn lemma_lock_sum_push(s: Seq<TokenRecord>, rec: TokenRecord)
    ensures
        lock_sum(s.push(rec)) == lock_sum(s) + rec.amount,
    decreases s.len(),
{
    let p = s.push(rec);
    assert(lock_sum(p) == p[0].amount + lock_sum(p.drop_first()));
    if s.len() == 0 {
        assert(p[0] == rec);
        assert(p.drop_first() =~= Seq::<TokenRecord>::empty());
        assert(lock_sum(p.drop_first()) == 0);
    } else {
        assert(p[0] == s[0]);
        assert(p.drop_first() =~= s.drop_first().push(rec));
        lemma_lock_sum_push(s.drop_first(), rec);
        assert(lock_sum(s) == s[0].amount + lock_sum(s.drop_first()));
    }
}

/// A maximal run of matured records at the front is exactly the matured
/// count.
proof fn lemma_matured_count_char(s: Seq<TokenRecord>, now: u64, i: int)
    requires
        0 <= i <= s.len(),
        forall|j: int| 0 <= j < i ==> matured(s[j], now),
        i < s.len() ==> !matured(s[i], now),
    ensures
        matured_count(s, now) == i,
    decreases s.len(),
{
    if s.len() == 0 {
    } else if i == 0 {
    } else {
        assert(matured(s[0], now));
        assert(forall|j: int| 0 <= j < i - 1 ==> s.drop_first()[j] == s[j + 1]);
        assert(i - 1 < s.drop_first().len() ==> s.drop_first()[i - 1] == s[i]);
        lemma_matured_count_char(s.drop_first(), now, i - 1);
    }
}

/// True exactly when the record is matured at `now`.
pub fn is_matured(rec: &TokenRecord, now: u64) -> (b: bool)
    ensures
        b == matured(*rec, now),
{
    match rec.timestamp.checked_add(LOCK_PERIOD) {
        Some(unlock_time) => unlock_time <= now,
        None => false,
    }
}

/// Removes the matured prefix of the queue, returning the total amount
/// released and the remaining records.
pub fn drain_matured(claims: &Vec<TokenRecord>, now: u64) -> (r: (u64, Vec<TokenRecord>))
    requires
        lock_timestamps_sorted(claims@),
        lock_sum(claims@) <= u64::MAX,
    ensures
        r.1@ == claims@.skip(matured_count(claims@, now)),
        r.0 as int == lock_sum(claims@.take(matured_count(claims@, now))),
        r.0 as int == lock_sum(claims@) - lock_sum(r.1@),
        forall|j: int| 0 <= j < matured_count(claims@, now) ==> matured(claims@[j], now),
        r.1@.len() > 0 ==> !matured(r.1@[0], now),
        lock_timestamps_sorted(r.1@),
{
    let ghost s = claims@;
    let n = claims.len();
    let mut i: usize = 0;
    let mut total: u64 = 0;
    loop
        invariant
            i <= n,
            n == s.len(),
            claims@ == s,
            lock_timestamps_sorted(s),
            lock_sum(s) <= u64::MAX,
            forall|j: int| 0 <= j < i ==> matured(s[j], now),
            total as int == lock_sum(s.take(i as int)),
        ensures
            i <= n,
            claims@ == s,
            forall|j: int| 0 <= j < i ==> matured(s[j], now),
            i < n ==> !matured(s[i as int], now),
            total as int == lock_sum(s.take(i as int)),
        decreases n - i,
    {
        if i >= n {
            break;
        }
        let rec = claims[i];
        if !is_matured(&rec, now) {
            break;
        }
        proof {
            lemma_lock_sum_take_succ(s, i as int);
            lemma_lock_sum_split(s, i + 1);
            lemma_lock_sum_nonneg(s.skip(i + 1));
        }
        total = total + rec.amount;
        i += 1;
    }
    proof {
        lemma_matured_count_char(s, now, i as int);
        lemma_lock_sum_split(s, i as int);
    }
    let mut rest: Vec<TokenRecord> = Vec::new();
    let mut j: usize = i;
    while j < n
        invariant
            i <= j <= n,
            n == claims@.len(),
            claims@ == s,
            rest@ == s.subrange(i as int, j as int),
        decreases n - j,
    {
        rest.push(claims[j]);
        proof {
            assert(rest@ =~= s.subrange(i as int, j + 1 as int));
        }
        j += 1;
    }
    proof {
        assert(rest@ =~= s.skip(i as int));
    }
    (total, rest)
}

} // verus!
