//! The order of the work: which file goes first, how many files run at
//! once, how long a batch waits for a connection, and how results come back
//! into the order of the manifest.

use crate::nzb::NzbFile;
use vstd::prelude::*;

verus! {

/// The number of segments of file `i`.
pub open spec fn segment_count(files: Seq<NzbFile>, i: int) -> nat {
    files[i].segments.segment@.len()
}

/// Whether `order` names the file `v`.
pub open spec fn names(order: Seq<usize>, v: int) -> bool {
    exists|k: int| 0 <= k < order.len() && #[trigger] order[k] == v
}

/// `order` names each of the first `n` files exactly once.
pub open spec fn is_arrangement(order: Seq<usize>, n: nat) -> bool {
    &&& order.len() == n
    &&& forall|k: int| 0 <= k < order.len() ==> order[k] < n
    &&& forall|a: int, b: int| 0 <= a < b < order.len() ==> order[a] != order[b]
    &&& forall|v: int| 0 <= v < n ==> #[trigger] names(order, v)
}

/// `order` puts the first `n` files largest first: by falling number of
/// segments, and files of equal size in the order of the manifest.
pub open spec fn is_largest_first(files: Seq<NzbFile>, order: Seq<usize>, n: nat) -> bool {
    &&& is_arrangement(order, n)
    &&& forall|a: int, b: int|
        0 <= a < b < order.len() ==> segment_count(files, order[a] as int) >= segment_count(
            files,
            order[b] as int,
        )
    &&& forall|a: int, b: int|
        0 <= a < b < order.len() && segment_count(files, order[a] as int) == segment_count(
            files,
            order[b] as int,
        ) ==> order[a] < order[b]
}

/// The order in which the files of a manifest are fetched: largest first,
/// so that no big file is left to run alone at the end.
pub fn download_order(files: &Vec<NzbFile>) -> (order: Vec<usize>)
    ensures
        is_largest_first(files@, order@, files@.len()),
{
    let mut order: Vec<usize> = Vec::new();
    let mut i: usize = 0;
    while i < files.len()
        invariant
            i <= files.len(),
            is_largest_first(files@, order@, i as nat),
        decreases files.len() - i,
    {
        let count: usize = files[i].segments.segment.len();
        let mut p: usize = order.len();
        while p > 0 && files[order[p - 1]].segments.segment.len() < count
            invariant
                p <= order.len(),
                i < files.len(),
                count == segment_count(files@, i as int),
                is_largest_first(files@, order@, i as nat),
                forall|k: int| p <= k < order.len() ==> segment_count(files@, order@[k] as int) < count,
            decreases p,
        {
            p = p - 1;
        }
        let ghost before = order@;
        order.insert(p, i);
        proof {
            let after = order@;
            assert(after == before.insert(p as int, i));
            assert forall|k: int| 0 <= k < after.len() implies after[k] < i + 1 by {
                if k < p {
                    assert(after[k] == before[k]);
                } else if k > p {
                    assert(after[k] == before[k - 1]);
                }
            }
            assert forall|a: int, b: int| 0 <= a < b < after.len() implies after[a] != after[b]
                && segment_count(files@, after[a] as int) >= segment_count(files@, after[b] as int)
                && (segment_count(files@, after[a] as int) == segment_count(
                files@,
                after[b] as int,
            ) ==> after[a] < after[b]) by {
                let x = if a < p {
                    a
                } else {
                    a - 1
                };
                let y = if b < p {
                    b
                } else {
                    b - 1
                };
                if a != p {
                    assert(after[a] == before[x]);
                }
                if b != p {
                    assert(after[b] == before[y]);
                }
                if a == p {
                    assert(p <= y < before.len());
                } else if b == p {
                    assert(x < p);
                    if p > 0 {
                        assert(segment_count(files@, before[p - 1] as int) >= count);
                    }
                }
            }
            assert forall|v: int| 0 <= v < i + 1 implies #[trigger] names(after, v) by {
                if v == i {
                    assert(after[p as int] == v);
                } else {
                    assert(names(before, v));
                    let k0 = choose|k: int| 0 <= k < before.len() && #[trigger] before[k] == v;
                    if k0 < p {
                        assert(after[k0] == v);
                    } else {
                        assert(after[k0 + 1] == v);
                    }
                }
            }
        }
        i = i + 1;
    }
    order
}

/// How many files are in flight at once for a pool of `max_size`
/// connections: a fifth of the pool, and at least two.
pub fn file_concurrency(max_size: usize) -> (files: usize)
    ensures
        files == (if max_size / 5 >= 2 {
            max_size / 5
        } else {
            2
        }),
        files >= 2,
{
    let fifth: usize = max_size / 5;
    if fifth >= 2 {
        fifth
    } else {
        2
    }
}

/// Puts items that were made in the order `order` back where they belong:
/// the item made for file `order[i]` goes to position `order[i]`.
pub fn place_in_order<T>(order: &Vec<usize>, items: Vec<T>) -> (placed: Vec<T>)
    requires
        is_arrangement(order@, items@.len()),
    ensures
        placed@.len() == items@.len(),
        forall|i: int| 0 <= i < items@.len() ==> placed@[order@[i] as int] == items@[i],
{
    let n: usize = items.len();
    let mut slots: Vec<Option<T>> = Vec::new();
    while slots.len() < n
        invariant
            slots@.len() <= n,
            forall|k: int| 0 <= k < slots@.len() ==> slots@[k].is_none(),
        decreases n - slots.len(),
    {
        slots.push(None);
    }
    let mut items = items;
    let ghost all = items@;
    while items.len() > 0
        invariant
            n == all.len(),
            slots@.len() == n,
            is_arrangement(order@, n as nat),
            items@.len() <= n,
            items@ == all.take(items@.len() as int),
            forall|i: int| items@.len() <= i < n ==> slots@[order@[i] as int] == Some(all[i]),
        decreases items.len(),
    {
        let i: usize = items.len() - 1;
        let item: T = items.pop().unwrap();
        assert(item == all[i as int]);
        assert(items@ =~= all.take(i as int));
        let at: usize = order[i];
        let ghost filled = slots@;
        slots[at] = Some(item);
        assert forall|j: int| i <= j < n implies slots@[order@[j] as int] == Some(all[j]) by {
            if j > i {
                assert(order@[i as int] != order@[j]);
                assert(filled[order@[j] as int] == Some(all[j]));
            }
        }
    }
    assert forall|v: int| 0 <= v < n implies slots@[v].is_some() by {
        assert(names(order@, v));
        let k = choose|k: int| 0 <= k < order@.len() && #[trigger] order@[k] == v;
        assert(slots@[order@[k] as int] == Some(all[k]));
    }
    let ghost full = slots@;
    let mut reversed: Vec<T> = Vec::new();
    while slots.len() > 0
        invariant
            full.len() == n,
            slots@.len() <= n,
            slots@ == full.take(slots@.len() as int),
            forall|v: int| 0 <= v < n ==> full[v].is_some(),
            reversed@.len() == n - slots@.len(),
            forall|k: int| 0 <= k < reversed@.len() ==> Some(reversed@[k]) == full[n - 1 - k],
        decreases slots.len(),
    {
        let last: usize = slots.len() - 1;
        let slot: Option<T> = slots.pop().unwrap();
        assert(slot == full[last as int]);
        assert(slots@ =~= full.take(last as int));
        reversed.push(slot.unwrap());
    }
    let ghost back = reversed@;
    let mut placed: Vec<T> = Vec::new();
    while reversed.len() > 0
        invariant
            back.len() == n,
            full.len() == n,
            reversed@.len() <= n,
            reversed@ == back.take(reversed@.len() as int),
            forall|k: int| 0 <= k < n ==> Some(back[k]) == full[n - 1 - k],
            placed@.len() == n - reversed@.len(),
            forall|k: int| 0 <= k < placed@.len() ==> Some(placed@[k]) == full[k],
        decreases reversed.len(),
    {
        let last: usize = reversed.len() - 1;
        let item: T = reversed.pop().unwrap();
        assert(item == back[last as int]);
        assert(reversed@ =~= back.take(last as int));
        placed.push(item);
    }
    assert forall|i: int| 0 <= i < n implies placed@[order@[i] as int] == all[i] by {
        assert(full[order@[i] as int] == Some(all[i]));
    }
    placed
}

/// The first pause after a failed lease, in milliseconds.
pub const INITIAL_BACKOFF_MS: u64 = 500;

/// The longest pause between two attempts: sixteen times the first.
pub const BACKOFF_CEILING_MS: u64 = 8000;

/// The pause after the `k`-th failed lease in a row (counted from 0), while
/// the budget lasts: 500 ms doubled `k` times, and at most 8 s.
pub open spec fn backoff_after(k: nat) -> u64 {
    if k == 0 {
        500
    } else if k == 1 {
        1000
    } else if k == 2 {
        2000
    } else if k == 3 {
        4000
    } else {
        8000
    }
}

/// The wait of one batch for a connection.
#[derive(Debug, Clone, Copy)]
pub struct LeaseRetry {
    /// All the time that may be spent, in milliseconds.
    pub budget_ms: u64,
    /// The time spent so far, in attempts and in pauses.
    pub waited_ms: u64,
    /// The next pause.
    pub delay_ms: u64,
    /// The number of attempts that failed.
    pub failures: u64,
}

/// What to do after a failed lease.
#[derive(Debug, Clone, Copy)]
pub enum LeaseStep {
    /// Pause for so many milliseconds, then try again.
    Sleep(u64),
    /// The budget is spent: the batch fails.
    GiveUp,
}

impl LeaseRetry {
    /// The state is consistent: no more time spent than the budget allows,
    /// and a pause between the first and the longest.
    pub open spec fn wf(&self) -> bool {
        &&& self.waited_ms <= self.budget_ms
        &&& INITIAL_BACKOFF_MS <= self.delay_ms <= BACKOFF_CEILING_MS
        &&& self.delay_ms == backoff_after(self.failures as nat)
    }

    /// The time that is left.
    pub open spec fn remaining(&self) -> nat {
        (self.budget_ms - self.waited_ms) as nat
    }

    /// The wait of a batch with `budget_seconds` to spend (held at the
    /// largest number of milliseconds that fits where it is larger).
    pub fn new(budget_seconds: u64) -> (retry: LeaseRetry)
        ensures
            retry.wf(),
            retry.budget_ms == (if budget_seconds * 1000 <= u64::MAX {
                (budget_seconds * 1000) as u64
            } else {
                u64::MAX
            }),
            retry.waited_ms == 0,
            retry.delay_ms == INITIAL_BACKOFF_MS,
            retry.failures == 0,
    {
        let budget_ms: u64 = match budget_seconds.checked_mul(1000) {
            Some(ms) => ms,
            None => u64::MAX,
        };
        LeaseRetry {
            budget_ms,
            waited_ms: 0,
            delay_ms: INITIAL_BACKOFF_MS,
            failures: 0,
        }
    }

    /// Takes note that a lease failed after `attempt_ms` milliseconds and
    /// says what to do: give up where the budget is spent, else pause for
    /// the current delay (or for what is left of the budget, if that is
    /// less) and double the delay up to its ceiling.
    pub fn on_lease_failed(&mut self, attempt_ms: u64) -> (step: LeaseStep)
        requires
            old(self).wf(),
        ensures
            final(self).wf(),
            final(self).budget_ms == old(self).budget_ms,
            old(self).waited_ms + attempt_ms >= old(self).budget_ms ==> step is GiveUp
                && final(self).waited_ms == old(self).budget_ms && final(self).delay_ms == old(
                self,
            ).delay_ms && final(self).failures == old(self).failures,
            old(self).waited_ms + attempt_ms < old(self).budget_ms ==> {
                let left = old(self).budget_ms - old(self).waited_ms - attempt_ms;
                let pause = if old(self).delay_ms <= left {
                    old(self).delay_ms as int
                } else {
                    left
                };
                &&& step == LeaseStep::Sleep(pause as u64)
                &&& pause > 0
                &&& final(self).waited_ms == old(self).waited_ms + attempt_ms + pause
                &&& final(self).remaining() < old(self).remaining()
                &&& final(self).failures == (if old(self).failures < u64::MAX {
                    old(self).failures + 1
                } else {
                    old(self).failures as int
                })
            },
    {
        let left_before: u64 = self.budget_ms - self.waited_ms;
        if attempt_ms >= left_before {
            self.waited_ms = self.budget_ms;
            return LeaseStep::GiveUp;
        }
        let left: u64 = left_before - attempt_ms;
        let pause: u64 = if self.delay_ms <= left {
            self.delay_ms
        } else {
            left
        };
        self.waited_ms = self.waited_ms + attempt_ms + pause;
        if self.failures < u64::MAX {
            self.failures = self.failures + 1;
        }
        self.delay_ms = if self.failures == 1 {
            1000
        } else if self.failures == 2 {
            2000
        } else if self.failures == 3 {
            4000
        } else {
            8000
        };
        LeaseStep::Sleep(pause)
    }
}

/// Each pause is twice the one before it until the ceiling is reached, and
/// none is longer than sixteen times the first.
pub proof fn lemma_backoff_doubles(k: nat)
    ensures
        backoff_after(0) == INITIAL_BACKOFF_MS,
        backoff_after(k) <= BACKOFF_CEILING_MS,
        BACKOFF_CEILING_MS == 16 * INITIAL_BACKOFF_MS,
        backoff_after(k + 1) == (if 2 * backoff_after(k) <= BACKOFF_CEILING_MS {
            (2 * backoff_after(k)) as u64
        } else {
            BACKOFF_CEILING_MS
        }),
{
}

} // verus!
