//! Search results as they arrive: kept newest first and no more than
//! wanted, and which further results are worth sending on at all.

use crate::sort::value_order;
use vstd::prelude::*;

verus! {

/// Whether `times` runs newest first.
pub open spec fn newest_first(times: Seq<Option<i128>>) -> bool {
    forall|i: int, j: int| 0 <= i < j < times.len() ==> value_order(times[i], times[j]) >= 0
}

/// Where a result modified at `time` goes among results modified at
/// `times`: before the first one that is not newer, or at the end.
pub open spec fn newest_first_place(times: Seq<Option<i128>>, time: Option<i128>) -> int
    decreases times.len(),
{
    if times.len() == 0 {
        0
    } else if value_order(times[0], time) <= 0 {
        0
    } else {
        1 + newest_first_place(times.drop_first(), time)
    }
}

proof fn lemma_newest_first_place(times: Seq<Option<i128>>, time: Option<i128>)
    ensures
        0 <= newest_first_place(times, time) <= times.len(),
        forall|j: int| 0 <= j < newest_first_place(times, time) ==> value_order(#[trigger] times[j], time) > 0,
        newest_first_place(times, time) < times.len() ==> value_order(times[newest_first_place(times, time)], time) <= 0,
    decreases times.len(),
{
    if times.len() > 0 && value_order(times[0], time) > 0 {
        lemma_newest_first_place(times.drop_first(), time);
        assert forall|j: int| 0 <= j < newest_first_place(times, time) implies value_order(#[trigger] times[j], time) > 0 by {
            if j > 0 {
                assert(times[j] == times.drop_first()[j - 1]);
            }
        }
    }
}

/// Search results as they arrive, newest first: each result with a
/// modification time goes before the first result that is not newer, any
/// other after them all.
pub struct NewestFirst<T> {
    times: Vec<Option<i128>>,
    items: Vec<T>,
}

impl<T> NewestFirst<T> {
    /// When each result held was modified, in nanoseconds from the epoch.
    pub closed spec fn times(&self) -> Seq<Option<i128>> {
        self.times@
    }

    /// The results held.
    pub closed spec fn items(&self) -> Seq<T> {
        self.items@
    }

    /// One time per result.
    pub closed spec fn wf(&self) -> bool {
        self.times@.len() == self.items@.len()
    }

    /// No results.
    pub fn new() -> (r: Self)
        ensures
            r.wf(),
            r.times() == Seq::<Option<i128>>::empty(),
            r.items() == Seq::<T>::empty(),
    {
        NewestFirst { times: Vec::new(), items: Vec::new() }
    }

    /// How many results are held.
    pub fn len(&self) -> (r: usize)
        requires
            self.wf(),
        ensures
            r == self.items().len(),
    {
        self.items.len()
    }

    /// Offers `item`, modified at `time`: placed by that time when
    /// `by_time` (a file), at the end otherwise. It is kept only when its
    /// place is among the first `max`; returns whether it was.
    pub fn offer(&mut self, time: Option<i128>, by_time: bool, item: T, max: usize) -> (kept: bool)
        requires
            old(self).wf(),
        ensures
            final(self).wf(),
            ({
                let at = if by_time {
                    newest_first_place(old(self).times(), time)
                } else {
                    old(self).times().len() as int
                };
                &&& kept == (at < max)
                &&& kept ==> final(self).times() == old(self).times().insert(at, time)
                    && final(self).items() == old(self).items().insert(at, item)
                &&& !kept ==> final(self).times() == old(self).times() && final(self).items() == old(self).items()
            }),
    {
        let n = self.times.len();
        let mut at: usize = n;
        if by_time {
            proof {
                lemma_newest_first_place(self.times@, time);
            }
            let mut j: usize = 0;
            while j < n
                invariant
                    j <= n == self.times@.len(),
                    forall|k: int| 0 <= k < j ==> value_order(#[trigger] self.times@[k], time) > 0,
                    0 <= newest_first_place(self.times@, time) <= n,
                    forall|k: int| 0 <= k < newest_first_place(self.times@, time) ==> value_order(#[trigger] self.times@[k], time) > 0,
                    newest_first_place(self.times@, time) < n ==> value_order(self.times@[newest_first_place(self.times@, time)], time) <= 0,
                ensures
                    j == newest_first_place(self.times@, time),
                decreases n - j,
            {
                if !newer(self.times[j], time) {
                    break;
                }
                j = j + 1;
            }
            at = j;
        }
        if at < max {
            self.times.insert(at, time);
            self.items.insert(at, item);
            true
        } else {
            false
        }
    }

    /// Keeps the first `max` results when at least that many are held, and
    /// then returns the modification time of the last one kept, if it has
    /// one: a search need not look at anything older. Fewer are left as
    /// they are.
    pub fn settle(&mut self, max: usize) -> (r: Option<i128>)
        requires
            old(self).wf(),
        ensures
            final(self).wf(),
            old(self).items().len() >= max ==> final(self).times() == old(self).times().take(max as int)
                && final(self).items() == old(self).items().take(max as int) && r == (if max > 0 {
                old(self).times()[max - 1]
            } else {
                None
            }),
            old(self).items().len() < max ==> final(self).times() == old(self).times() && final(self).items() == old(self).items() && r is None,
    {
        if self.items.len() >= max {
            self.times.truncate(max);
            self.items.truncate(max);
            if max > 0 {
                self.times[max - 1]
            } else {
                None
            }
        } else {
            None
        }
    }

    /// The results, newest first.
    pub fn into_items(self) -> (r: Vec<T>)
        ensures
            r@ == self.items(),
    {
        self.items
    }
}

/// Whether `a` is newer than `b`, an unknown time being the oldest.
fn newer(a: Option<i128>, b: Option<i128>) -> (r: bool)
    ensures
        r == (value_order(a, b) > 0),
{
    match (a, b) {
        (Some(x), Some(y)) => x > y,
        (Some(_), None) => true,
        _ => false,
    }
}

/// Results offered by their modification times stay newest first, whether
/// or not a result is kept.
pub proof fn lemma_offers_keep_results_newest_first(times: Seq<Option<i128>>, time: Option<i128>)
    requires
        newest_first(times),
    ensures
        newest_first(times.insert(newest_first_place(times, time), time)),
        forall|n: int| 0 <= n <= times.len() ==> newest_first(#[trigger] times.take(n)),
{
    lemma_newest_first_place(times, time);
    let p = newest_first_place(times, time);
    let t = times.insert(p, time);
    assert forall|i: int, j: int| 0 <= i < j < t.len() implies value_order(t[i], t[j]) >= 0 by {
        if j < p {
            assert(t[i] == times[i] && t[j] == times[j]);
        } else if j == p {
            assert(t[i] == times[i]);
        } else if i < p {
            assert(t[i] == times[i] && t[j] == times[j - 1]);
            assert(value_order(times[i], time) > 0);
            assert(value_order(times[p], time) <= 0);
            assert(value_order(times[i], times[p]) >= 0);
        } else if i == p {
            assert(t[j] == times[j - 1]);
            assert(value_order(times[p], time) <= 0);
            assert(value_order(times[p], times[j - 1]) >= 0);
        } else {
            assert(t[i] == times[i - 1] && t[j] == times[j - 1]);
        }
    }
    assert forall|n: int| 0 <= n <= times.len() implies newest_first(#[trigger] times.take(n)) by {
        assert forall|i: int, j: int| 0 <= i < j < times.take(n).len() implies value_order(times.take(n)[i], times.take(n)[j]) >= 0 by {
            assert(times.take(n)[i] == times[i] && times.take(n)[j] == times[j]);
        }
    }
}

/// Whether a search result is worth sending on once the kept results run
/// back to `last_kept`: a file's result only when its time is known and not
/// older; any result while nothing is known yet, or that is no file's.
pub open spec fn worth_sending_spec(last_kept: Option<i128>, by_time: bool, time: Option<i128>) -> bool {
    match last_kept {
        Some(last) => !by_time || (time matches Some(t) && t >= last),
        None => true,
    }
}

/// Whether a search result is worth sending on: see [`worth_sending_spec`].
pub fn worth_sending(last_kept: Option<i128>, by_time: bool, time: Option<i128>) -> (r: bool)
    ensures
        r == worth_sending_spec(last_kept, by_time, time),
{
    match last_kept {
        Some(last) => {
            if !by_time {
                true
            } else {
                match time {
                    Some(t) => t >= last,
                    None => false,
                }
            }
        },
        None => true,
    }
}

/// Nothing is lost by not sending what is not worth sending: once `max`
/// results are kept newest first, back to `last_kept`, a file's result
/// that is older, or whose time is unknown, would have its place after the
/// first `max` and would not be kept.
pub proof fn lemma_unsent_results_would_not_be_kept(times: Seq<Option<i128>>, max: int, time: Option<i128>)
    requires
        newest_first(times),
        0 < max <= times.len(),
        times[max - 1] is Some,
        !worth_sending_spec(times[max - 1], true, time),
    ensures
        newest_first_place(times, time) >= max,
{
    lemma_newest_first_place(times, time);
    let p = newest_first_place(times, time);
    if p < max {
        assert(value_order(times[p], time) <= 0);
        assert(value_order(times[p], times[max - 1]) >= 0);
    }
}

} // verus!
