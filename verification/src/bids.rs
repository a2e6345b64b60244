//! The external bid queue, as the vault sees it.
//!
//! The queue owns the bids; the vault only reads them through a paginated
//! cursor query (`bids_by_user`): at most `PAGE_LIMIT` bids per page, in
//! ascending identifier order, starting strictly after the cursor, with a
//! page shorter than the limit signalling the end.  `BidLedger` is the
//! snapshot of that external state during one invocation; the aggregation
//! loops below walk it exactly as the queue's wire protocol demands and
//! are proved to cover every bid exactly once.
//!
//! Externally reported amounts are twice the local integer width; each is
//! converted losslessly or the operation fails.

use vstd::prelude::*;

use crate::commands::Command;
use crate::error::ContractError;

verus! {

/// Page size of the cursor query; a shorter page is the end sentinel.
pub const PAGE_LIMIT: usize = 31;

/// One bid of the vault in the external liquidation queue.
#[derive(Clone, Copy, Debug, PartialEq, Eq)]
pub struct BidResponse {
    /// Queue-assigned identifier; unique, ascending, at least 1.
    pub idx: u64,
    /// Stable units still waiting for a liquidation.
    pub amount: u128,
    /// Collateral units already liquidated and claimable.
    pub pending_liquidated_collateral: u128,
    /// If set, the bid waits until this time before it can be activated.
    pub wait_end: Option<u64>,
}

/// One page of the cursor query.
#[derive(Clone, Debug)]
pub struct BidsResponse {
    pub bids: Vec<BidResponse>,
}

/// Snapshot of all bids the vault holds in the queue, ascending by `idx`.
#[derive(Clone, Debug)]
pub struct BidLedger {
    pub bids: Vec<BidResponse>,
}

/// Identifiers ascend strictly and start at 1 or above.
pub open spec fn bid_idx_sorted(s: Seq<BidResponse>) -> bool {
    &&& forall|i: int, j: int| 0 <= i < j < s.len() ==> s[i].idx < s[j].idx
    &&& forall|i: int| 0 <= i < s.len() ==> (#[trigger] s[i]).idx >= 1
}

impl BidLedger {
    pub open spec fn wf(&self) -> bool {
        bid_idx_sorted(self.bids@)
    }
}

/// Number of bids at or below the cursor: the prefix a query skips.
pub open spec fn cut(s: Seq<BidResponse>, cursor: u64) -> int
    decreases s.len(),
{
    if s.len() == 0 {
        0
    } else if s[0].idx <= cursor {
        1 + cut(s.drop_first(), cursor)
    } else {
        0
    }
}

/// Total stable units waiting across the bids.
pub open spec fn sum_stable(s: Seq<BidResponse>) -> int
    decreases s.len(),
{
    if s.len() == 0 {
        0
    } else {
        s[0].amount + sum_stable(s.drop_first())
    }
}

/// Total claimable collateral across the bids.
pub open spec fn sum_collateral(s: Seq<BidResponse>) -> int
    decreases s.len(),
{
    if s.len() == 0 {
        0
    } else {
        s[0].pending_liquidated_collateral + sum_collateral(s.drop_first())
    }
}

/// Every waiting amount converts losslessly to the local width.
pub open spec fn amounts_fit(s: Seq<BidResponse>) -> bool {
    forall|i: int| 0 <= i < s.len() ==> (#[trigger] s[i]).amount <= u64::MAX
}

/// Every claimable amount converts losslessly to the local width.
pub open spec fn pending_fit(s: Seq<BidResponse>) -> bool {
    forall|i: int| 0 <= i < s.len() ==> (#[trigger] s[i]).pending_liquidated_collateral <= u64::MAX
}

/// In a sorted ledger, a run of bids at or below the cursor followed by
/// one above it pins the cut.
proof fn lemma_cut_char(s: Seq<BidResponse>, cursor: u64, i: int)
    requires
        0 <= i <= s.len(),
        forall|j: int| 0 <= j < i ==> (#[trigger] s[j]).idx <= cursor,
        i < s.len() ==> s[i].idx > cursor,
    ensures
        cut(s, cursor) == i,
    decreases s.len(),
{
    if s.len() == 0 {
    } else if i == 0 {
    } else {
        assert(s[0].idx <= cursor);
        assert(forall|j: int| 0 <= j < i - 1 ==> (#[trigger] s.drop_first()[j]).idx <= cursor);
        assert(i - 1 < s.drop_first().len() ==> s.drop_first()[i - 1] == s[i]);
        lemma_cut_char(s.drop_first(), cursor, i - 1);
    }
}

/// Using a bid's own identifier as the cursor cuts right behind it.
proof fn lemma_cut_at_index(s: Seq<BidResponse>, j: int)
    requires
        bid_idx_sorted(s),
        0 <= j < s.len(),
    ensures
        cut(s, s[j].idx) == j + 1,
{
    assert(forall|m: int| 0 <= m < j + 1 ==> (#[trigger] s[m]).idx <= s[j].idx);
    lemma_cut_char(s, s[j].idx, j + 1);
}

/// Extending a prefix by one bid adds that bid's amounts.
proof fn lemma_sums_take_succ(s: Seq<BidResponse>, i: int)
    requires
        0 <= i < s.len(),
    ensures
        sum_stable(s.take(i + 1)) == sum_stable(s.take(i)) + s[i].amount,
        sum_collateral(s.take(i + 1)) == sum_collateral(s.take(i)) + s[i].pending_liquidated_collateral,
    decreases i,
{
    if i == 0 {
        assert(s.take(1)[0] == s[0]);
        assert(s.take(1).drop_first() =~= Seq::<BidResponse>::empty());
        assert(s.take(0) =~= Seq::<BidResponse>::empty());
    } else {
        assert(s.take(i + 1)[0] == s[0]);
        assert(s.take(i)[0] == s[0]);
        assert(s.take(i + 1).drop_first() =~= s.drop_first().take(i));
        assert(s.take(i).drop_first() =~= s.drop_first().take(i - 1));
        assert(s.drop_first()[i - 1] == s[i]);
        lemma_sums_take_succ(s.drop_first(), i - 1);
    }
}

/// Splitting the ledger splits the sums.
pub proof fn lemma_sums_split(s: Seq<BidResponse>, i: int)
    requires
        0 <= i <= s.len(),
    ensures
        sum_stable(s) == sum_stable(s.take(i)) + sum_stable(s.skip(i)),
        sum_collateral(s) == sum_collateral(s.take(i)) + sum_collateral(s.skip(i)),
    decreases i,
{
    if i == 0 {
        assert(s.take(0) =~= Seq::<BidResponse>::empty());
        assert(s.skip(0) =~= s);
    } else {
        assert(s.take(i)[0] == s[0]);
        assert(s.take(i).drop_first() =~= s.drop_first().take(i - 1));
        assert(s.skip(i) =~= s.drop_first().skip(i - 1));
        lemma_sums_split(s.drop_first(), i - 1);
    }
}

/// The sums are non-negative.
pub proof fn lemma_sums_nonneg(s: Seq<BidResponse>)
    ensures
        0 <= sum_stable(s),
        0 <= sum_collateral(s),
    decreases s.len(),
{
    if s.len() > 0 {
        lemma_sums_nonneg(s.drop_first());
    }
}

/// A prefix of convertible bids sums to at most one local-width maximum
/// per bid.
proof fn lemma_partial_sums_bound(s: Seq<BidResponse>, k: int)
    requires
        0 <= k <= s.len(),
        forall|j: int| 0 <= j < k ==> (#[trigger] s[j]).amount <= u64::MAX
            && s[j].pending_liquidated_collateral <= u64::MAX,
    ensures
        sum_stable(s.take(k)) <= k * (u64::MAX as int),
        sum_collateral(s.take(k)) <= k * (u64::MAX as int),
    decreases k,
{
    if k == 0 {
        assert(s.take(0) =~= Seq::<BidResponse>::empty());
    } else {
        lemma_partial_sums_bound(s, k - 1);
        lemma_sums_take_succ(s, k - 1);
    }
}

impl BidLedger {
    /// The cursor query of the external queue: the first `PAGE_LIMIT`
    /// bids whose identifier lies strictly above `start_after`.
    pub fn bids_by_user(&self, start_after: u64) -> (r: BidsResponse)
        requires
            self.wf(),
        ensures
            ({
                let s = self.bids@;
                let f = cut(s, start_after);
                let end = if f + PAGE_LIMIT <= s.len() {
                    f + PAGE_LIMIT
                } else {
                    s.len() as int
                };
                r.bids@ == s.subrange(f, end)
            }),
    {
        let ghost s = self.bids@;
        let n = self.bids.len();
        let mut i: usize = 0;
        while i < n && self.bids[i].idx <= start_after
            invariant
                i <= n,
                n == s.len(),
                self.bids@ == s,
                forall|j: int| 0 <= j < i ==> (#[trigger] s[j]).idx <= start_after,
            decreases n - i,
        {
            i += 1;
        }
        proof {
            lemma_cut_char(s, start_after, i as int);
        }
        let mut out: Vec<BidResponse> = Vec::new();
        let mut j: usize = i;
        while j < n && j - i < PAGE_LIMIT
            invariant
                i <= j <= n,
                n == s.len(),
                self.bids@ == s,
                j - i <= PAGE_LIMIT,
                out@ == s.subrange(i as int, j as int),
            decreases n - j,
        {
            out.push(self.bids[j]);
            proof {
                assert(out@ =~= s.subrange(i as int, j + 1 as int));
            }
            j += 1;
        }
        BidsResponse { bids: out }
    }
}

/// Sums every bid's waiting stable amount and claimable collateral over
/// all pages, on top of the given starting balances.  Fails when an
/// external amount does not fit the local width, or a total overflows it.
pub fn aggregate_bids(ledger: &BidLedger, stable_start: u64, collateral_start: u64) -> (r: Result<
    (u64, u64),
    ContractError,
>)
    requires
        ledger.wf(),
    ensures
        ({
            let s = ledger.bids@;
            &&& (r is Ok <==> amounts_fit(s) && pending_fit(s) && stable_start + sum_stable(s)
                <= u64::MAX && collateral_start + sum_collateral(s) <= u64::MAX)
            &&& (r matches Ok(t) ==> t.0 as int == stable_start + sum_stable(s) && t.1 as int
                == collateral_start + sum_collateral(s))
            &&& (!(amounts_fit(s) && pending_fit(s)) ==> r == Err::<(u64, u64), ContractError>(
                ContractError::ConversionOverflow,
            ))
            &&& (amounts_fit(s) && pending_fit(s) && !(stable_start + sum_stable(s) <= u64::MAX
                && collateral_start + sum_collateral(s) <= u64::MAX) ==> r == Err::<
                (u64, u64),
                ContractError,
            >(ContractError::Overflow))
        }),
{
    let ghost s = ledger.bids@;
    let n = ledger.bids.len();
    let mut cursor: u64 = 0;
    let mut acc_s: u128 = stable_start as u128;
    let mut acc_c: u128 = collateral_start as u128;
    proof {
        lemma_cut_char(s, 0, 0);
        assert(s.take(0) =~= Seq::<BidResponse>::empty());
    }
    loop
        invariant_except_break
            ledger.wf(),
            s == ledger.bids@,
            s.len() == n,
            0 <= cut(s, cursor) <= s.len(),
            acc_s as int == stable_start + sum_stable(s.take(cut(s, cursor))),
            acc_c as int == collateral_start + sum_collateral(s.take(cut(s, cursor))),
            forall|j: int| 0 <= j < cut(s, cursor) ==> (#[trigger] s[j]).amount <= u64::MAX
                && s[j].pending_liquidated_collateral <= u64::MAX,
        ensures
            s == ledger.bids@,
            acc_s as int == stable_start + sum_stable(s),
            acc_c as int == collateral_start + sum_collateral(s),
            amounts_fit(s) && pending_fit(s),
        decreases s.len() - cut(s, cursor),
    {
        let page = ledger.bids_by_user(cursor);
        let ghost f = cut(s, cursor);
        let ghost end = if f + PAGE_LIMIT <= s.len() {
            f + (PAGE_LIMIT as int)
        } else {
            s.len() as int
        };
        let m = page.bids.len();
        proof {
            assert(page.bids@ == s.subrange(f, end));
            assert(m == end - f);
        }
        let mut i: usize = 0;
        while i < m
            invariant
                ledger.wf(),
                s == ledger.bids@,
                s.len() == n,
                page.bids@ == s.subrange(f, end),
                f == cut(s, cursor),
                0 <= f <= end <= s.len(),
                m == end - f,
                m <= PAGE_LIMIT,
                i <= m,
                acc_s as int == stable_start + sum_stable(s.take(f + i)),
                acc_c as int == collateral_start + sum_collateral(s.take(f + i)),
                forall|j: int| 0 <= j < f + i ==> (#[trigger] s[j]).amount <= u64::MAX
                    && s[j].pending_liquidated_collateral <= u64::MAX,
            decreases m - i,
        {
            let item = page.bids[i];
            proof {
                assert(item == s[f + i]);
            }
            if item.amount > u64::MAX as u128 || item.pending_liquidated_collateral > u64::MAX
                as u128 {
                proof {
                    assert(!(amounts_fit(s) && pending_fit(s)));
                }
                return Err(ContractError::ConversionOverflow);
            }
            proof {
                lemma_partial_sums_bound(s, f + i);
                lemma_sums_take_succ(s, f + i);
                assert(usize::MAX as int <= u64::MAX as int);
                assert(f + i < n <= usize::MAX as int);
            }
            acc_s = acc_s + item.amount;
            acc_c = acc_c + item.pending_liquidated_collateral;
            i += 1;
        }
        if m < PAGE_LIMIT {
            proof {
                assert(end == s.len() as int);
                assert(s.take(s.len() as int) =~= s);
                assert(forall|j: int| 0 <= j < s.len() ==> (#[trigger] s[j]).amount <= u64::MAX
                    && s[j].pending_liquidated_collateral <= u64::MAX);
            }
            break;
        }
        let last = page.bids[m - 1];
        proof {
            assert(last == s[end - 1]);
            lemma_cut_at_index(s, end - 1);
        }
        cursor = last.idx;
    }
    if acc_s > u64::MAX as u128 || acc_c > u64::MAX as u128 {
        proof {
            lemma_sums_nonneg(s);
        }
        Err(ContractError::Overflow)
    } else {
        Ok((acc_s as u64, acc_c as u64))
    }
}

/// Some bid's waiting period has ended: it can be activated.
pub open spec fn any_activatable(s: Seq<BidResponse>, now: u64) -> bool {
    exists|i: int|
        0 <= i < s.len() && ((#[trigger] s[i]).wait_end matches Some(w) && w < now)
}

/// Some bid holds claimable liquidated collateral.
pub open spec fn any_claimable(s: Seq<BidResponse>) -> bool {
    exists|i: int| 0 <= i < s.len() && (#[trigger] s[i]).pending_liquidated_collateral > 0
}

/// Walks all pages and reports whether any bid can be activated: its
/// waiting period must have ended strictly before `now`.
pub fn has_activatable(ledger: &BidLedger, now: u64) -> (r: bool)
    requires
        ledger.wf(),
    ensures
        r == any_activatable(ledger.bids@, now),
{
    let ghost s = ledger.bids@;
    let n = ledger.bids.len();
    let mut cursor: u64 = 0;
    proof {
        lemma_cut_char(s, 0, 0);
    }
    loop
        invariant_except_break
            ledger.wf(),
            s == ledger.bids@,
            s.len() == n,
            0 <= cut(s, cursor) <= s.len(),
            forall|j: int| 0 <= j < cut(s, cursor) ==> !((#[trigger] s[j]).wait_end matches Some(w)
                && w < now),
        ensures
            !any_activatable(s, now),
        decreases s.len() - cut(s, cursor),
    {
        let page = ledger.bids_by_user(cursor);
        let ghost f = cut(s, cursor);
        let ghost end = if f + PAGE_LIMIT <= s.len() {
            f + (PAGE_LIMIT as int)
        } else {
            s.len() as int
        };
        let m = page.bids.len();
        let mut i: usize = 0;
        while i < m
            invariant
                ledger.wf(),
                s == ledger.bids@,
                s.len() == n,
                page.bids@ == s.subrange(f, end),
                f == cut(s, cursor),
                0 <= f <= end <= s.len(),
                m == end - f,
                m <= PAGE_LIMIT,
                i <= m,
                forall|j: int| 0 <= j < f + i ==> !((#[trigger] s[j]).wait_end matches Some(w)
                    && w < now),
            decreases m - i,
        {
            let item = page.bids[i];
            proof {
                assert(item == s[f + i]);
            }
            match item.wait_end {
                Some(w) => {
                    if w < now {
                        proof {
                            assert(any_activatable(s, now));
                        }
                        return true;
                    }
                },
                None => {},
            }
            i += 1;
        }
        if m < PAGE_LIMIT {
            proof {
                assert(end == s.len() as int);
            }
            break;
        }
        let last = page.bids[m - 1];
        proof {
            assert(last == s[end - 1]);
            lemma_cut_at_index(s, end - 1);
        }
        cursor = last.idx;
    }
    false
}

/// Walks all pages and reports whether any bid holds claimable
/// liquidated collateral.
pub fn has_claimable(ledger: &BidLedger) -> (r: bool)
    requires
        ledger.wf(),
    ensures
        r == any_claimable(ledger.bids@),
{
    let ghost s = ledger.bids@;
    let n = ledger.bids.len();
    let mut cursor: u64 = 0;
    proof {
        lemma_cut_char(s, 0, 0);
    }
    loop
        invariant_except_break
            ledger.wf(),
            s == ledger.bids@,
            s.len() == n,
            0 <= cut(s, cursor) <= s.len(),
            forall|j: int| 0 <= j < cut(s, cursor) ==> (#[trigger] s[j]).pending_liquidated_collateral
                == 0,
        ensures
            !any_claimable(s),
        decreases s.len() - cut(s, cursor),
    {
        let page = ledger.bids_by_user(cursor);
        let ghost f = cut(s, cursor);
        let ghost end = if f + PAGE_LIMIT <= s.len() {
            f + (PAGE_LIMIT as int)
        } else {
            s.len() as int
        };
        let m = page.bids.len();
        let mut i: usize = 0;
        while i < m
            invariant
                ledger.wf(),
                s == ledger.bids@,
                s.len() == n,
                page.bids@ == s.subrange(f, end),
                f == cut(s, cursor),
                0 <= f <= end <= s.len(),
                m == end - f,
                m <= PAGE_LIMIT,
                i <= m,
                forall|j: int| 0 <= j < f + i ==> (#[trigger] s[j]).pending_liquidated_collateral
                    == 0,
            decreases m - i,
        {
            let item = page.bids[i];
            proof {
                assert(item == s[f + i]);
            }
            if item.pending_liquidated_collateral > 0 {
                proof {
                    assert(any_claimable(s));
                }
                return true;
            }
            i += 1;
        }
        if m < PAGE_LIMIT {
            proof {
                assert(end == s.len() as int);
            }
            break;
        }
        let last = page.bids[m - 1];
        proof {
            assert(last == s[end - 1]);
            lemma_cut_at_index(s, end - 1);
        }
        cursor = last.idx;
    }
    false
}

/// Sums the claimable liquidated collateral over all pages.  Fails when a
/// reported amount does not fit the local width, or the total overflows
/// it.
pub fn sum_pending(ledger: &BidLedger) -> (r: Result<u64, ContractError>)
    requires
        ledger.wf(),
    ensures
        ({
            let s = ledger.bids@;
            &&& (r is Ok <==> pending_fit(s) && sum_collateral(s) <= u64::MAX)
            &&& (r matches Ok(t) ==> t as int == sum_collateral(s))
            &&& (!pending_fit(s) ==> r == Err::<u64, ContractError>(
                ContractError::ConversionOverflow,
            ))
            &&& (pending_fit(s) && sum_collateral(s) > u64::MAX ==> r == Err::<u64, ContractError>(
                ContractError::Overflow,
            ))
        }),
{
    let ghost s = ledger.bids@;
    let n = ledger.bids.len();
    let mut cursor: u64 = 0;
    let mut acc: u128 = 0;
    proof {
        lemma_cut_char(s, 0, 0);
        assert(s.take(0) =~= Seq::<BidResponse>::empty());
    }
    loop
        invariant_except_break
            ledger.wf(),
            s == ledger.bids@,
            s.len() == n,
            0 <= cut(s, cursor) <= s.len(),
            acc as int == sum_collateral(s.take(cut(s, cursor))),
            forall|j: int| 0 <= j < cut(s, cursor) ==> (#[trigger] s[j]).pending_liquidated_collateral
                <= u64::MAX,
        ensures
            s == ledger.bids@,
            acc as int == sum_collateral(s),
            pending_fit(s),
        decreases s.len() - cut(s, cursor),
    {
        let page = ledger.bids_by_user(cursor);
        let ghost f = cut(s, cursor);
        let ghost end = if f + PAGE_LIMIT <= s.len() {
            f + (PAGE_LIMIT as int)
        } else {
            s.len() as int
        };
        let m = page.bids.len();
        let mut i: usize = 0;
        while i < m
            invariant
                ledger.wf(),
                s == ledger.bids@,
                s.len() == n,
                page.bids@ == s.subrange(f, end),
                f == cut(s, cursor),
                0 <= f <= end <= s.len(),
                m == end - f,
                m <= PAGE_LIMIT,
                i <= m,
                acc as int == sum_collateral(s.take(f + i)),
                forall|j: int| 0 <= j < f + i ==> (#[trigger] s[j]).pending_liquidated_collateral
                    <= u64::MAX,
            decreases m - i,
        {
            let item = page.bids[i];
            proof {
                assert(item == s[f + i]);
            }
            if item.pending_liquidated_collateral > u64::MAX as u128 {
                proof {
                    assert(!pending_fit(s));
                }
                return Err(ContractError::ConversionOverflow);
            }
            proof {
                lemma_pending_sum_bound(s, f + i);
                lemma_sums_take_succ(s, f + i);
                assert(usize::MAX as int <= u64::MAX as int);
                assert(f + i < n <= usize::MAX as int);
            }
            acc = acc + item.pending_liquidated_collateral;
            i += 1;
        }
        if m < PAGE_LIMIT {
            proof {
                assert(end == s.len() as int);
                assert(s.take(s.len() as int) =~= s);
                assert(forall|j: int| 0 <= j < s.len()
                    ==> (#[trigger] s[j]).pending_liquidated_collateral <= u64::MAX);
            }
            break;
        }
        let last = page.bids[m - 1];
        proof {
            assert(last == s[end - 1]);
            lemma_cut_at_index(s, end - 1);
        }
        cursor = last.idx;
    }
    if acc > u64::MAX as u128 {
        Err(ContractError::Overflow)
    } else {
        Ok(acc as u64)
    }
}

/// Like `lemma_partial_sums_bound`, for the collateral sum alone.
proof fn lemma_pending_sum_bound(s: Seq<BidResponse>, k: int)
    requires
        0 <= k <= s.len(),
        forall|j: int| 0 <= j < k ==> (#[trigger] s[j]).pending_liquidated_collateral <= u64::MAX,
    ensures
        sum_collateral(s.take(k)) <= k * (u64::MAX as int),
    decreases k,
{
    if k == 0 {
        assert(s.take(0) =~= Seq::<BidResponse>::empty());
    } else {
        lemma_pending_sum_bound(s, k - 1);
        lemma_sums_take_succ(s, k - 1);
    }
}

/// The retraction commands that cover a shortfall: walk the bids in
/// ascending identifier order, retract fully while a bid's waiting amount
/// is strictly below what is still missing, then retract exactly the
/// missing remainder from the first bid that covers it.
pub open spec fn retraction_plan(s: Seq<BidResponse>, remaining: int) -> Seq<Command>
    decreases s.len(),
{
    if s.len() == 0 || remaining <= 0 {
        Seq::empty()
    } else if s[0].amount < remaining {
        seq![Command::RetractBid { bid_idx: s[0].idx, amount: None }] + retraction_plan(
            s.drop_first(),
            remaining - s[0].amount,
        )
    } else {
        seq![Command::RetractBid { bid_idx: s[0].idx, amount: Some(remaining as u64) }]
    }
}

/// Builds the retraction commands for a shortfall of `shortfall` stable
/// units, walking the queue page by page.  Succeeds exactly when the bids
/// together can cover the shortfall; otherwise nothing can be retracted
/// usefully and the whole withdrawal must fail.
pub fn plan_retractions(ledger: &BidLedger, shortfall: u64) -> (r: Result<
    Vec<Command>,
    ContractError,
>)
    requires
        ledger.wf(),
        shortfall >= 1,
    ensures
        ({
            let s = ledger.bids@;
            &&& (r is Ok <==> shortfall <= sum_stable(s))
            &&& (r matches Ok(c) ==> c@ == retraction_plan(s, shortfall as int))
            &&& (shortfall > sum_stable(s) ==> r == Err::<Vec<Command>, ContractError>(
                ContractError::Insufficient,
            ))
        }),
{
    let ghost s = ledger.bids@;
    let n = ledger.bids.len();
    let mut cursor: u64 = 0;
    let mut remaining: u64 = shortfall;
    let mut cmds: Vec<Command> = Vec::new();
    proof {
        lemma_cut_char(s, 0, 0);
        assert(s.take(0) =~= Seq::<BidResponse>::empty());
        assert(s.skip(0) =~= s);
    }
    loop
        invariant_except_break
            ledger.wf(),
            s == ledger.bids@,
            s.len() == n,
            0 <= cut(s, cursor) <= s.len(),
            1 <= remaining <= shortfall,
            remaining as int == shortfall - sum_stable(s.take(cut(s, cursor))),
            retraction_plan(s, shortfall as int) == cmds@ + retraction_plan(
                s.skip(cut(s, cursor)),
                remaining as int,
            ),
        ensures
            s == ledger.bids@,
            1 <= remaining,
            remaining as int == shortfall - sum_stable(s),
        decreases s.len() - cut(s, cursor),
    {
        let page = ledger.bids_by_user(cursor);
        let ghost f = cut(s, cursor);
        let ghost end = if f + PAGE_LIMIT <= s.len() {
            f + (PAGE_LIMIT as int)
        } else {
            s.len() as int
        };
        let m = page.bids.len();
        let mut i: usize = 0;
        while i < m
            invariant
                ledger.wf(),
                s == ledger.bids@,
                s.len() == n,
                page.bids@ == s.subrange(f, end),
                f == cut(s, cursor),
                0 <= f <= end <= s.len(),
                m == end - f,
                m <= PAGE_LIMIT,
                i <= m,
                1 <= remaining <= shortfall,
                remaining as int == shortfall - sum_stable(s.take(f + i)),
                retraction_plan(s, shortfall as int) == cmds@ + retraction_plan(
                    s.skip(f + i),
                    remaining as int,
                ),
            decreases m - i,
        {
            let item = page.bids[i];
            proof {
                assert(item == s[f + i]);
                assert(s.skip(f + i)[0] == s[f + i]);
                assert(s.skip(f + i).drop_first() =~= s.skip(f + i + 1));
                lemma_sums_take_succ(s, f + i);
            }
            if item.amount < remaining as u128 {
                cmds.push(Command::RetractBid { bid_idx: item.idx, amount: None });
                proof {
                    assert(cmds@ + retraction_plan(s.skip(f + i + 1), remaining - item.amount)
                        =~= (cmds@.drop_last() + (seq![
                        Command::RetractBid { bid_idx: item.idx, amount: None },
                    ] + retraction_plan(s.skip(f + i + 1), remaining - item.amount))));
                }
                remaining = remaining - (item.amount as u64);
            } else {
                proof {
                    lemma_sums_split(s, f + i);
                    lemma_sums_nonneg(s.skip(f + i + 1));
                    assert(sum_stable(s.skip(f + i)) == item.amount + sum_stable(
                        s.skip(f + i + 1),
                    ));
                    assert(shortfall <= sum_stable(s));
                }
                cmds.push(
                    Command::RetractBid { bid_idx: item.idx, amount: Some(remaining) },
                );
                proof {
                    assert(retraction_plan(s.skip(f + i), remaining as int) =~= seq![
                        Command::RetractBid { bid_idx: item.idx, amount: Some(remaining) },
                    ]);
                    assert(cmds@ =~= retraction_plan(s, shortfall as int));
                }
                return Ok(cmds);
            }
            i += 1;
        }
        if m < PAGE_LIMIT {
            proof {
                assert(end == s.len() as int);
                assert(s.take(s.len() as int) =~= s);
            }
            break;
        }
        let last = page.bids[m - 1];
        proof {
            assert(last == s[end - 1]);
            lemma_cut_at_index(s, end - 1);
        }
        cursor = last.idx;
    }
    Err(ContractError::Insufficient)
}

} // verus!
