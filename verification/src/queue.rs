use vstd::prelude::*;

use crate::danmaku::Danmaku;
use crate::sort::SortByTime;
use crate::sort::sorted_by_start;

verus! {

// ---------------------------------------------------------------------------
// The split point of a drain.
// ---------------------------------------------------------------------------

/// Length of the maximal prefix of `s` whose messages are due by `t`
/// (scheduled start at or before `t`).
pub open spec fn first_after(s: Seq<Danmaku>, t: u64) -> int
    decreases s.len(),
{
    if s.len() == 0 {
        0
    } else if s[0].start > t {
        0
    } else {
        1 + first_after(s.drop_first(), t)
    }
}

/// The messages a drain to time `t` removes, in order.
pub open spec fn due_prefix(s: Seq<Danmaku>, t: u64) -> Seq<Danmaku> {
    s.take(first_after(s, t))
}

/// The messages a drain to time `t` leaves pending, in order.
pub open spec fn rest_after(s: Seq<Danmaku>, t: u64) -> Seq<Danmaku> {
    s.skip(first_after(s, t))
}

pub proof fn lemma_first_after_bounds(s: Seq<Danmaku>, t: u64)
    ensures
        0 <= first_after(s, t) <= s.len(),
        forall|i: int| 0 <= i < first_after(s, t) ==> s[i].start <= t,
        first_after(s, t) < s.len() ==> s[first_after(s, t)].start > t,
    decreases s.len(),
{
    if s.len() > 0 && s[0].start <= t {
        lemma_first_after_bounds(s.drop_first(), t);
        assert forall|i: int| 0 <= i < first_after(s, t) implies s[i].start <= t by {
            if i > 0 {
                assert(s.drop_first()[i - 1].start <= t);
            }
        }
    }
}

/// The split point is pinned by its two sides: a prefix of due messages and
/// a first message past due (or the end of the list).
pub proof fn lemma_first_after_is(s: Seq<Danmaku>, t: u64, k: int)
    requires
        0 <= k <= s.len(),
        forall|i: int| 0 <= i < k ==> s[i].start <= t,
        k < s.len() ==> s[k].start > t,
    ensures
        first_after(s, t) == k,
    decreases s.len(),
{
    if s.len() > 0 && s[0].start <= t {
        assert(k != 0);
        assert forall|i: int| 0 <= i < k - 1 implies s.drop_first()[i].start <= t by {
            assert(s[i + 1].start <= t);
        }
        assert(k - 1 < s.drop_first().len() ==> s.drop_first()[k - 1].start > t);
        lemma_first_after_is(s.drop_first(), t, k - 1);
    }
}

// ---------------------------------------------------------------------------
// The queue.
// ---------------------------------------------------------------------------

/// Timed admission queue: an immutable master list sorted by start time, and
/// a pending view that is always a suffix of it and shrinks as time advances.
pub struct DanmakuQueue {
    now_queue: Vec<Danmaku>,
    all_queue: Vec<Danmaku>,
}

impl DanmakuQueue {
    /// The pending view: the messages not yet drained, in start-time order.
    pub closed spec fn pending(&self) -> Seq<Danmaku> {
        self.now_queue@
    }

    /// The master list: every known message, in start-time order.
    pub closed spec fn master(&self) -> Seq<Danmaku> {
        self.all_queue@
    }

    /// Queue invariant: both views are sorted and the pending view is a
    /// suffix of the master list.
    pub closed spec fn wf(&self) -> bool {
        &&& sorted_by_start(self.all_queue@)
        &&& sorted_by_start(self.now_queue@)
        &&& exists|k: int|
            0 <= k <= self.all_queue@.len() && self.now_queue@ =~= self.all_queue@.skip(k)
    }

    pub fn new() -> (result: DanmakuQueue)
        ensures
            result.wf(),
            result.master() == Seq::<Danmaku>::empty(),
            result.pending() == Seq::<Danmaku>::empty(),
    {
        let result = DanmakuQueue { now_queue: Vec::new(), all_queue: Vec::new() };
        proof {
            assert(result.now_queue@ =~= result.all_queue@.skip(0));
            assert(result.now_queue@ =~= Seq::<Danmaku>::empty());
        }
        result
    }

    /// Replaces all content: sorts the messages by start time, makes the full
    /// sorted list pending, then immediately drains (and discards) everything
    /// due by `time`.
    pub fn init(&mut self, danmaku: Vec<Danmaku>, time: u64)
        ensures
            final(self).wf(),
            sorted_by_start(final(self).master()),
            final(self).master().to_multiset() == danmaku@.to_multiset(),
            final(self).pending() == rest_after(final(self).master(), time),
            forall|i: int|
                0 <= i < final(self).pending().len() ==> final(self).pending()[i].start > time,
    {
        self.all_queue = danmaku;
        self.all_queue.sort_by_time();
        self.now_queue = clone_messages(&self.all_queue);
        proof {
            assert(self.now_queue@ =~= self.all_queue@.skip(0));
        }
        let _ = self.pop_to_time(time);
    }

    /// Puts the whole master list back in the pending view, then drains (and
    /// discards) everything due by `time`: the explicit-scrub reset.
    pub fn reset_time(&mut self, time: u64)
        requires
            old(self).wf(),
        ensures
            final(self).wf(),
            final(self).master() == old(self).master(),
            final(self).pending() == rest_after(final(self).master(), time),
            forall|i: int|
                0 <= i < final(self).pending().len() ==> final(self).pending()[i].start > time,
    {
        self.now_queue = clone_messages(&self.all_queue);
        proof {
            assert(self.now_queue@ =~= self.all_queue@.skip(0));
        }
        let _ = self.pop_to_time(time);
    }

    /// Removes and returns, in order, the maximal prefix of the pending view
    /// due by `time`.  Every returned message has `start <= time`; every
    /// message left pending has `start > time`.
    pub fn pop_to_time(&mut self, time: u64) -> (popped: Vec<Danmaku>)
        requires
            old(self).wf(),
        ensures
            final(self).wf(),
            final(self).master() == old(self).master(),
            popped@ == due_prefix(old(self).pending(), time),
            final(self).pending() == rest_after(old(self).pending(), time),
            old(self).pending() == popped@ + final(self).pending(),
            forall|i: int| 0 <= i < popped@.len() ==> popped@[i].start <= time,
            forall|i: int|
                0 <= i < final(self).pending().len() ==> final(self).pending()[i].start > time,
    {
        let n = self.now_queue.len();
        let mut lo: usize = 0;
        let mut hi: usize = n;
        while lo < hi
            invariant
                lo <= hi <= n,
                n == self.now_queue.len(),
                self.now_queue@ == old(self).now_queue@,
                sorted_by_start(self.now_queue@),
                forall|i: int| 0 <= i < lo ==> self.now_queue@[i].start <= time,
                forall|i: int| hi <= i < n ==> self.now_queue@[i].start > time,
            decreases hi - lo,
        {
            let mid: usize = lo + (hi - lo) / 2;
            if self.now_queue[mid].start <= time {
                proof {
                    assert forall|i: int| 0 <= i < mid + 1 implies
                        self.now_queue@[i].start <= time by {
                        if i < mid {
                            assert(self.now_queue@[i].start <= self.now_queue@[mid as int].start);
                        }
                    }
                }
                lo = mid + 1;
            } else {
                proof {
                    assert forall|i: int| mid <= i < n implies
                        self.now_queue@[i].start > time by {
                        if i > mid {
                            assert(self.now_queue@[mid as int].start <= self.now_queue@[i].start);
                        }
                    }
                }
                hi = mid;
            }
        }
        proof {
            lemma_first_after_is(self.now_queue@, time, lo as int);
        }
        let ghost before: Seq<Danmaku> = self.now_queue@;
        let mut tail = self.now_queue.split_off(lo);
        core::mem::swap(&mut self.now_queue, &mut tail);
        proof {
            assert(tail@ =~= before.take(lo as int));
            assert(self.now_queue@ =~= before.skip(lo as int));
            let k0: int = choose|k: int|
                0 <= k <= old(self).all_queue@.len() && old(self).now_queue@
                    =~= old(self).all_queue@.skip(k);
            assert(self.now_queue@ =~= self.all_queue@.skip(k0 + lo));
            assert forall|i: int, j: int|
                0 <= i < j < self.now_queue@.len() implies self.now_queue@[i].start
                <= self.now_queue@[j].start by {
                assert(before[lo + i].start <= before[lo + j].start);
            }
            assert(before =~= tail@ + self.now_queue@);
            assert forall|i: int|
                0 <= i < self.now_queue@.len() implies self.now_queue@[i].start > time by {
                if lo < n {
                    assert(before[lo as int].start <= before[lo + i].start);
                }
            }
        }
        tail
    }
}

impl Default for DanmakuQueue {
    fn default() -> (result: DanmakuQueue)
        ensures
            result.wf(),
            result.master() == Seq::<Danmaku>::empty(),
            result.pending() == Seq::<Danmaku>::empty(),
    {
        DanmakuQueue::new()
    }
}

/// Value-preserving copy of a message list.
fn clone_messages(v: &Vec<Danmaku>) -> (result: Vec<Danmaku>)
    ensures
        result@ == v@,
{
    let mut result: Vec<Danmaku> = Vec::new();
    proof {
        assert(result@ =~= v@.take(0));
    }
    let n = v.len();
    let mut i: usize = 0;
    while i < n
        invariant
            i <= n,
            n == v@.len(),
            result@ == v@.take(i as int),
        decreases n - i,
    {
        result.push(v[i].clone());
        proof {
            assert(result@ =~= v@.take(i + 1));
        }
        i = i + 1;
    }
    proof {
        assert(v@.take(n as int) =~= v@);
    }
    result
}

// ---------------------------------------------------------------------------
// Drain laws.
// ---------------------------------------------------------------------------

/// Draining a sorted list twice with non-decreasing times hands out each
/// message exactly once, in ascending start-time order: the two drained
/// prefixes concatenate to the single drain at the later time, and together
/// with what stays pending they reassemble the original list.
pub proof fn lemma_drain_exactly_once(s: Seq<Danmaku>, t1: u64, t2: u64)
    requires
        sorted_by_start(s),
        t1 <= t2,
    ensures
        due_prefix(s, t1) + due_prefix(rest_after(s, t1), t2) == due_prefix(s, t2),
        rest_after(rest_after(s, t1), t2) == rest_after(s, t2),
        due_prefix(s, t1) + due_prefix(rest_after(s, t1), t2) + rest_after(s, t2) == s,
        sorted_by_start(due_prefix(s, t1) + due_prefix(rest_after(s, t1), t2)),
{
    let f1: int = first_after(s, t1);
    lemma_first_after_bounds(s, t1);
    let r1: Seq<Danmaku> = s.skip(f1);
    let f2: int = first_after(r1, t2);
    lemma_first_after_bounds(r1, t2);
    assert forall|i: int| 0 <= i < f1 + f2 implies s[i].start <= t2 by {
        if i < f1 {
            assert(s[i].start <= t1);
        } else {
            assert(r1[i - f1].start <= t2);
        }
    }
    if f1 + f2 < s.len() {
        assert(s[f1 + f2] == r1[f2]);
    }
    lemma_first_after_is(s, t2, f1 + f2);
    assert(due_prefix(s, t1) + due_prefix(rest_after(s, t1), t2) =~= due_prefix(s, t2));
    assert(rest_after(rest_after(s, t1), t2) =~= rest_after(s, t2));
    assert(due_prefix(s, t2) + rest_after(s, t2) =~= s);
    assert forall|i: int, j: int|
        0 <= i < j < due_prefix(s, t2).len() implies due_prefix(s, t2)[i].start <= due_prefix(
        s,
        t2,
    )[j].start by {
        assert(s[i].start <= s[j].start);
    }
}

/// Draining twice with the same time returns nothing the second time.
pub proof fn lemma_drain_idempotent(s: Seq<Danmaku>, t: u64)
    ensures
        due_prefix(rest_after(s, t), t) == Seq::<Danmaku>::empty(),
        rest_after(rest_after(s, t), t) == rest_after(s, t),
{
    let r: Seq<Danmaku> = rest_after(s, t);
    lemma_first_after_bounds(s, t);
    if r.len() > 0 {
        assert(r[0] == s[first_after(s, t)]);
    }
    assert(first_after(r, t) == 0);
    assert(due_prefix(r, t) =~= Seq::<Danmaku>::empty());
    assert(rest_after(r, t) =~= r);
}

/// The pending view of a well-formed queue is sorted by start time at every
/// point of its lifetime, as is the master list.
pub proof fn lemma_pending_sorted(q: &DanmakuQueue)
    requires
        q.wf(),
    ensures
        sorted_by_start(q.pending()),
        sorted_by_start(q.master()),
{
}

/// The pending view is a suffix of the master list: what has been drained is
/// exactly a prefix of the sorted master list.
pub proof fn lemma_pending_is_suffix(q: &DanmakuQueue)
    requires
        q.wf(),
    ensures
        exists|k: int| 0 <= k <= q.master().len() && q.pending() == q.master().skip(k),
{
    let k0: int = choose|k: int|
        0 <= k <= q.master().len() && q.pending() =~= q.master().skip(k);
    assert(q.pending() == q.master().skip(k0));
}

} // verus!
