//! The Result-Window Partitioner.
//!
//! The remote search endpoint never returns more than a fixed ceiling
//! of matches for one query.  When the reported total exceeds what the
//! base query yielded, the search is re-issued with an exclusive upper
//! bound on creation time — the minimum creation time seen in the
//! previous window — until the running total reaches the reported total
//! or a window comes back empty.  The driving loop performs the network
//! calls and feeds each window's records back into this state.

use vstd::prelude::*;

use crate::outside::rfc3339_of;
use crate::pagination::MAX_RESULTS;
use crate::queries::build_window_query;
use crate::types::PullRequest;

verus! {

/// Subtraction on naturals that stops at zero.
pub open spec fn sat_sub(a: int, b: int) -> int {
    if a >= b {
        a - b
    } else {
        0
    }
}

/// Finds the minimum creation time in a non-empty batch.
pub fn min_created(batch: &Vec<PullRequest>) -> (m: i64)
    requires
        batch@.len() > 0,
    ensures
        exists|i: int| 0 <= i < batch@.len() && (#[trigger] batch@[i]).created_at == m,
        forall|i: int| 0 <= i < batch@.len() ==> m <= (#[trigger] batch@[i]).created_at,
{
    let mut m = batch[0].created_at;
    let mut i: usize = 1;
    while i < batch.len()
        invariant
            1 <= i <= batch@.len(),
            exists|k: int| 0 <= k < i && (#[trigger] batch@[k]).created_at == m,
            forall|k: int| 0 <= k < i ==> m <= (#[trigger] batch@[k]).created_at,
        decreases batch@.len() - i,
    {
        if batch[i].created_at < m {
            m = batch[i].created_at;
        }
        i = i + 1;
    }
    m
}

/// The partitioner's accounting: what is still owed is the reported
/// total less what was collected, floored at zero.  `start` establishes
/// it and `absorb_window` preserves it, so the loop stops exactly when
/// the running record count reaches the reported total or a window
/// comes back empty.
pub open spec fn owes_consistent(s: Partitioner) -> bool {
    s.remaining as int == sat_sub(s.total as int, s.collected@.len() as int)
}

/// The partitioner's progress: what was collected, how much the server
/// still owes, and the cutoff for the next window.
pub struct Partitioner {
    /// The base search string every window narrows.
    pub base_query: String,
    /// The server-reported total match count of the base query.
    pub total: u32,
    /// All records collected so far, first window first.
    pub collected: Vec<PullRequest>,
    /// How many records the reported total still owes.
    pub remaining: u32,
    /// The minimum creation time seen in the latest non-empty window;
    /// the next window fetches strictly older records.
    pub min_created_at: i64,
    /// Whether no further window is needed.
    pub finished: bool,
}

impl Partitioner {
    /// Starts from the base query's own results.
    ///
    /// When the first batch is empty (zero total matches) or already
    /// accounts for the reported total, the partitioner is finished at
    /// once and no window is ever issued.
    pub fn start(base_query: String, total: u32, first_batch: Vec<PullRequest>) -> (s: Self)
        requires
            first_batch@.len() <= 0xffff_ffff,
        ensures
            s.base_query@ == base_query@,
            s.total == total,
            s.collected@ == first_batch@,
            s.remaining as int == sat_sub(total as int, first_batch@.len() as int),
            owes_consistent(s),
            s.finished == (first_batch@.len() == 0 || s.remaining == 0),
            first_batch@.len() > 0 ==> (exists|i: int|
                0 <= i < first_batch@.len() && (#[trigger] first_batch@[i]).created_at
                    == s.min_created_at) && (forall|i: int|
                0 <= i < first_batch@.len() ==> s.min_created_at <= (
                #[trigger] first_batch@[i]).created_at),
    {
        if first_batch.len() == 0 {
            Partitioner {
                base_query,
                total,
                collected: first_batch,
                remaining: if total >= 0 { total } else { 0 },
                min_created_at: 0,
                finished: true,
            }
        } else {
            let got = first_batch.len() as u32;
            let remaining = if total > got {
                total - got
            } else {
                0
            };
            let m = min_created(&first_batch);
            Partitioner {
                base_query,
                total,
                collected: first_batch,
                remaining,
                min_created_at: m,
                finished: remaining == 0,
            }
        }
    }

    /// The search string of the next window, narrowed to records created
    /// strictly before the minimum seen so far; nothing when the
    /// partitioner is finished.
    pub fn next_window_query(&self) -> (r: Option<String>)
        ensures
            self.finished <==> r is None,
            r matches Some(q) ==> q@ == self.base_query@ + " created:<"@ + rfc3339_of(
                self.min_created_at,
            ),
    {
        if self.finished {
            None
        } else {
            Some(build_window_query(self.base_query.as_str(), self.min_created_at))
        }
    }

    /// How many records the next window should fetch at most: what is
    /// owed, bounded by the search ceiling.
    pub fn window_budget(&self) -> (b: u32)
        ensures
            b == if self.remaining <= MAX_RESULTS {
                self.remaining
            } else {
                MAX_RESULTS
            },
    {
        if self.remaining <= MAX_RESULTS {
            self.remaining
        } else {
            MAX_RESULTS
        }
    }

    /// Absorbs one window's records.
    ///
    /// An empty window signals convergence and finishes the partitioner
    /// even short of the reported total, so inconsistent server counts
    /// never loop forever.  A non-empty window reduces what is owed by
    /// its size and moves the cutoff to its minimum creation time.
    pub fn absorb_window(&mut self, batch: Vec<PullRequest>)
        requires
            !old(self).finished,
            batch@.len() <= 0xffff_ffff,
        ensures
            final(self).base_query@ == old(self).base_query@,
            final(self).total == old(self).total,
            final(self).collected@ == old(self).collected@ + batch@,
            owes_consistent(*old(self)) ==> owes_consistent(*final(self)),
            batch@.len() == 0 ==> final(self).finished && final(self).remaining
                == old(self).remaining && final(self).min_created_at == old(self).min_created_at,
            batch@.len() > 0 ==> {
                &&& final(self).remaining as int == sat_sub(
                    old(self).remaining as int,
                    batch@.len() as int,
                )
                &&& final(self).finished == (final(self).remaining == 0)
                &&& (exists|i: int|
                    0 <= i < batch@.len() && (#[trigger] batch@[i]).created_at
                        == final(self).min_created_at)
                &&& (forall|i: int|
                    0 <= i < batch@.len() ==> final(self).min_created_at <= (
                    #[trigger] batch@[i]).created_at)
            },
    {
        if batch.len() == 0 {
            let mut batch = batch;
            self.collected.append(&mut batch);
            self.finished = true;
        } else {
            let got = batch.len() as u32;
            let remaining = if self.remaining > got {
                self.remaining - got
            } else {
                0
            };
            let m = min_created(&batch);
            let mut batch = batch;
            self.collected.append(&mut batch);
            self.remaining = remaining;
            self.min_created_at = m;
            self.finished = remaining == 0;
        }
    }
}

} // verus!
