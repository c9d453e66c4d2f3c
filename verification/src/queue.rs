//! The arrival queue: tasks that have been born but not yet admitted to the
//! fair scheduling algorithm, bucketed by their arrival tick.

use vstd::prelude::*;
use crate::task::{Task, TaskStatus};
use vstd::multiset::Multiset;

verus! {

/// Buffers tasks by arrival tick.  Each bucket keeps its tasks in insertion
/// order; across buckets only the keys order anything.  Viewed as the
/// sequence of `(arrival tick, bucket)` pairs in the order the keys first
/// appeared; well-formedness says the keys are pairwise distinct and every
/// task sits in the bucket of its own start time.
pub struct TaskQueue {
    buckets: Vec<(u128, Vec<Task>)>,
}

impl View for TaskQueue {
    type V = Seq<(u128, Seq<Task>)>;

    closed spec fn view(&self) -> Seq<(u128, Seq<Task>)> {
        self.buckets@.map_values(|b: (u128, Vec<Task>)| (b.0, b.1@))
    }
}

/// Every task lies in the bucket keyed by its own start time.
pub open spec fn buckets_keyed(s: Seq<(u128, Seq<Task>)>) -> bool {
    forall|b: int, t: int| 0 <= b < s.len() && 0 <= t < s[b].1.len() ==> (#[trigger] s[b].1[t]).start_time == s[b].0
}

/// Each arrival tick keys at most one bucket, and each bucket holds exactly
/// the tasks whose start time is its key.
pub open spec fn queue_wf(s: Seq<(u128, Seq<Task>)>) -> bool {
    &&& forall|i: int, j: int| 0 <= i < j < s.len() ==> (#[trigger] s[i]).0 != (#[trigger] s[j]).0
    &&& buckets_keyed(s)
}

/// The tasks a queue holds, over all buckets, as a multiset.
pub open spec fn queue_multiset(s: Seq<(u128, Seq<Task>)>) -> Multiset<Task>
    decreases s.len(),
{
    if s.len() == 0 {
        Multiset::<Task>::empty()
    } else {
        queue_multiset(s.drop_last()).add(s.last().1.to_multiset())
    }
}

/// The index of the bucket keyed `k`, or the length if there is none.
pub open spec fn key_index(s: Seq<(u128, Seq<Task>)>, k: u128) -> int
    decreases s.len(),
{
    if s.len() == 0 {
        0
    } else if s[0].0 == k {
        0
    } else {
        1 + key_index(s.subrange(1, s.len() as int), k)
    }
}

/// Whether some bucket is keyed `k`.
pub open spec fn has_key(s: Seq<(u128, Seq<Task>)>, k: u128) -> bool {
    key_index(s, k) < s.len()
}

/// The index of the first bucket whose key is minimal.
pub open spec fn min_key_index(s: Seq<(u128, Seq<Task>)>) -> int
    decreases s.len(),
{
    if s.len() <= 1 {
        0
    } else {
        let j = min_key_index(s.drop_last());
        if s.last().0 < s[j].0 {
            s.len() - 1
        } else {
            j
        }
    }
}

/// What `add` does: an Idle or Terminated task is not newly arriving and is
/// dropped; otherwise the task goes to the back of the bucket keyed by its
/// `start_time`, a new bucket being opened if that key is not present.
pub open spec fn queue_add(s: Seq<(u128, Seq<Task>)>, t: Task) -> Seq<(u128, Seq<Task>)> {
    if t.state is Idle || t.state is Terminated {
        s
    } else if has_key(s, t.start_time) {
        let i = key_index(s, t.start_time);
        s.update(i, (t.start_time, s[i].1.push(t)))
    } else {
        s.push((t.start_time, seq![t]))
    }
}

/// What `append` does: `add` folded over the tasks in order.
pub open spec fn queue_append(s: Seq<(u128, Seq<Task>)>, ts: Seq<Task>) -> Seq<(u128, Seq<Task>)>
    decreases ts.len(),
{
    if ts.len() == 0 {
        s
    } else {
        queue_add(queue_append(s, ts.drop_last()), ts.last())
    }
}

/// `key_index` finds the first bucket keyed `k`: the index it returns is in
/// range exactly when the key occurs, that bucket then carries the key, and
/// no earlier bucket does.
pub proof fn lemma_key_index(s: Seq<(u128, Seq<Task>)>, k: u128)
    ensures
        0 <= key_index(s, k) <= s.len(),
        has_key(s, k) ==> s[key_index(s, k)].0 == k,
        forall|j: int| 0 <= j < key_index(s, k) ==> (#[trigger] s[j]).0 != k,
    decreases s.len(),
{
    if s.len() > 0 && s[0].0 != k {
        let sub = s.subrange(1, s.len() as int);
        lemma_key_index(sub, k);
        assert(forall|j: int| 0 <= j < sub.len() ==> #[trigger] sub[j] == s[j + 1]);
        assert forall|j: int| 0 <= j < key_index(s, k) implies (#[trigger] s[j]).0 != k by {
            if j > 0 {
                assert(sub[j - 1] == s[j]);
            }
        }
    }
}

/// `min_key_index` points at the first bucket with the least key: its index
/// is in range, no key is smaller, and every earlier bucket's key is
/// strictly larger.
pub proof fn lemma_min_key_index(s: Seq<(u128, Seq<Task>)>)
    requires
        s.len() > 0,
    ensures
        0 <= min_key_index(s) < s.len(),
        forall|i: int| 0 <= i < s.len() ==> s[min_key_index(s)].0 <= (#[trigger] s[i]).0,
        forall|i: int| 0 <= i < min_key_index(s) ==> s[min_key_index(s)].0 < (#[trigger] s[i]).0,
    decreases s.len(),
{
    if s.len() > 1 {
        lemma_min_key_index(s.drop_last());
        assert(forall|i: int| 0 <= i < s.len() - 1 ==> s.drop_last()[i] == (#[trigger] s[i]));
    }
}

impl TaskQueue {
    /// An empty arrival queue.
    pub fn new() -> (q: TaskQueue)
        ensures
            q@ == Seq::<(u128, Seq<Task>)>::empty(),
            queue_wf(q@),
    {
        let q = TaskQueue { buckets: Vec::new() };
        proof {
            assert(q@ =~~= Seq::<(u128, Seq<Task>)>::empty());
        }
        q
    }

    /// True exactly when no bucket is pending.
    pub fn is_empty(&self) -> (r: bool)
        ensures
            r == (self@.len() == 0),
    {
        self.buckets.len() == 0
    }

    /// Buffers one task in the bucket keyed by its `start_time`; an Idle or
    /// Terminated task is dropped, since such a task cannot be newly
    /// arriving.
    #[verifier::loop_isolation(false)]
    pub fn add(&mut self, task: Task)
        requires
            queue_wf(old(self)@),
        ensures
            final(self)@ == queue_add(old(self)@, task),
            queue_wf(final(self)@),
    {
        match task.get_status() {
            TaskStatus::Idle => {
                return;
            },
            TaskStatus::Terminated => {
                return;
            },
            _ => {},
        }

        let start_time = task.get_start_time();
        proof {
            lemma_key_index(self@, start_time);
        }

        let ghost orig = self@;
        let n = self.buckets.len();
        let mut i: usize = 0;
        while i < n
            invariant
                n == self.buckets.len(),
                self@ == orig,
                0 <= i <= n,
                forall|j: int| 0 <= j < i ==> (#[trigger] orig[j]).0 != start_time,
            decreases n - i,
        {
            if self.buckets[i].0 == start_time {
                // The bucket for this tick exists: append to it in place.
                let mut pair = self.buckets.remove(i);
                pair.1.push(task);
                self.buckets.insert(i, pair);
                proof {
                    lemma_key_index(orig, start_time);
                    let ki = key_index(orig, start_time);
                    if ki < i as int {
                        assert(orig[ki].0 != start_time);
                        assert(orig[ki].0 == start_time);
                    }
                    if ki > i as int {
                        assert(orig[i as int].0 != start_time);
                    }
                    assert(ki == i as int);
                    assert(self@ =~~= queue_add(orig, task));
                    lemma_queue_add_wf(orig, task);
                }
                return;
            }
            i = i + 1;
        }
        proof {
            if has_key(orig, start_time) {
                assert(orig[key_index(orig, start_time)].0 == start_time);
            }
            assert(!has_key(orig, start_time));
        }
        self.buckets.push((start_time, vec![task]));
        proof {
            assert(self@ =~~= queue_add(orig, task));
            lemma_queue_add_wf(orig, task);
        }
    }

    /// `add` applied to each task, in order.
    #[verifier::loop_isolation(false)]
    pub fn append(&mut self, tasks: &[Task])
        requires
            queue_wf(old(self)@),
        ensures
            final(self)@ == queue_append(old(self)@, tasks@),
            queue_wf(final(self)@),
    {
        let ghost orig = self@;
        let n = tasks.len();
        let mut i: usize = 0;
        while i < n
            invariant
                n == tasks@.len(),
                0 <= i <= n,
                self@ == queue_append(orig, tasks@.take(i as int)),
                queue_wf(self@),
            decreases n - i,
        {
            self.add(tasks[i]);
            proof {
                assert(tasks@.take(i as int + 1).drop_last() =~= tasks@.take(i as int));
                assert(tasks@.take(i as int + 1).last() == tasks@[i as int]);
            }
            i = i + 1;
        }
        proof {
            assert(tasks@.take(n as int) =~= tasks@);
        }
    }

    /// Removes and returns the bucket with the smallest key across all
    /// buckets — the earliest still-pending arrival tick, whatever the
    /// caller's notion of the current time.  An empty queue yields an empty
    /// batch.
    #[verifier::loop_isolation(false)]
    pub fn pop(&mut self) -> (batch: Vec<Task>)
        requires
            queue_wf(old(self)@),
        ensures
            queue_wf(final(self)@),
            old(self)@.len() == 0 ==> final(self)@ == old(self)@ && batch@ == Seq::<Task>::empty(),
            old(self)@.len() > 0 ==> {
                let m = min_key_index(old(self)@);
                &&& batch@ == old(self)@[m].1
                &&& final(self)@ == old(self)@.remove(m)
                &&& forall|i: int| 0 <= i < old(self)@.len() ==> old(self)@[m].0 <= (#[trigger] old(self)@[i]).0
            },
    {
        let n = self.buckets.len();
        if n == 0 {
            return Vec::new();
        }

        let ghost orig = self@;
        let mut best: usize = 0;
        let mut i: usize = 1;
        while i < n
            invariant
                n == self.buckets.len(),
                self@ == orig,
                0 <= best < i <= n,
                forall|j: int| 0 <= j < i ==> orig[best as int].0 <= (#[trigger] orig[j]).0,
                forall|j: int| 0 <= j < best ==> orig[best as int].0 < (#[trigger] orig[j]).0,
            decreases n - i,
        {
            if self.buckets[i].0 < self.buckets[best].0 {
                best = i;
            }
            i = i + 1;
        }

        proof {
            lemma_min_key_index(orig);
            let m = min_key_index(orig);
            // Both `best` and `m` are first indices of the minimal key, so
            // they coincide.
            assert(orig[m].0 <= orig[best as int].0);
            assert(orig[best as int].0 <= orig[m].0);
            if m < best as int {
                assert(orig[best as int].0 < orig[m].0);
            }
            if (best as int) < m {
                assert(orig[m].0 < orig[best as int].0);
            }
            assert(m == best as int);
        }

        let pair = self.buckets.remove(best);
        proof {
            assert(self@ =~~= orig.remove(best as int));
        }
        pair.1
    }

    /// Removes and returns the bucket keyed exactly `time`; if no such
    /// bucket exists the queue is unchanged and the batch is empty.
    #[verifier::loop_isolation(false)]
    pub fn remove(&mut self, time: u128) -> (batch: Vec<Task>)
        requires
            queue_wf(old(self)@),
        ensures
            queue_wf(final(self)@),
            has_key(old(self)@, time) ==> {
                let i = key_index(old(self)@, time);
                &&& batch@ == old(self)@[i].1
                &&& final(self)@ == old(self)@.remove(i)
            },
            !has_key(old(self)@, time) ==> final(self)@ == old(self)@ && batch@ == Seq::<Task>::empty(),
    {
        let ghost orig = self@;
        proof {
            lemma_key_index(orig, time);
        }
        let n = self.buckets.len();
        let mut i: usize = 0;
        while i < n
            invariant
                n == self.buckets.len(),
                self@ == orig,
                0 <= i <= n,
                forall|j: int| 0 <= j < i ==> (#[trigger] orig[j]).0 != time,
            decreases n - i,
        {
            if self.buckets[i].0 == time {
                proof {
                    lemma_key_index(orig, time);
                    let ki = key_index(orig, time);
                    if ki < i as int {
                        assert(orig[ki].0 != time);
                        assert(orig[ki].0 == time);
                    }
                    if ki > i as int {
                        assert(orig[i as int].0 != time);
                    }
                    assert(ki == i as int);
                }
                let pair = self.buckets.remove(i);
                proof {
                    assert(self@ =~~= orig.remove(i as int));
                }
                return pair.1;
            }
            i = i + 1;
        }
        proof {
            if has_key(orig, time) {
                assert(orig[key_index(orig, time)].0 == time);
            }
            assert(!has_key(orig, time));
        }
        Vec::new()
    }
}

/// `add` preserves well-formedness: appending into an existing bucket keeps
/// every key in place and files the task under its own start time, and a
/// new bucket opens only for a key not yet present, keyed by the task's
/// start time.
pub proof fn lemma_queue_add_wf(s: Seq<(u128, Seq<Task>)>, t: Task)
    requires
        queue_wf(s),
    ensures
        queue_wf(queue_add(s, t)),
{
    lemma_key_index(s, t.start_time);
    let s2 = queue_add(s, t);
    if !(t.state is Idle || t.state is Terminated) {
        if has_key(s, t.start_time) {
            let ki = key_index(s, t.start_time);
            assert forall|b: int, u: int| 0 <= b < s2.len() && 0 <= u < s2[b].1.len() implies
                (#[trigger] s2[b].1[u]).start_time == s2[b].0 by {
                if b == ki && u == s2[b].1.len() - 1 {
                    assert(s2[b].1[u] == t);
                } else {
                    assert(s2[b].1[u] == s[b].1[u]);
                }
            }
        } else {
            assert forall|i: int, j: int| 0 <= i < j < s2.len() implies
                (#[trigger] s2[i]).0 != (#[trigger] s2[j]).0 by {
                if j == s.len() {
                    assert(s[i].0 != t.start_time);
                }
            }
            assert forall|b: int, u: int| 0 <= b < s2.len() && 0 <= u < s2[b].1.len() implies
                (#[trigger] s2[b].1[u]).start_time == s2[b].0 by {
                if b == s.len() {
                    assert(s2[b].1[u] == t);
                }
            }
        }
    }
}

/// Removing bucket `i` takes exactly that bucket's tasks out of the queue's
/// multiset.
pub proof fn lemma_queue_multiset_remove(s: Seq<(u128, Seq<Task>)>, i: int)
    requires
        0 <= i < s.len(),
    ensures
        queue_multiset(s) == queue_multiset(s.remove(i)).add(s[i].1.to_multiset()),
    decreases s.len(),
{
    if i == s.len() - 1 {
        assert(s.remove(i) =~= s.drop_last());
        assert(queue_multiset(s) =~= queue_multiset(s.remove(i)).add(s[i].1.to_multiset()));
    } else {
        lemma_queue_multiset_remove(s.drop_last(), i);
        assert(s.remove(i).drop_last() =~= s.drop_last().remove(i));
        assert(s.remove(i).last() == s.last());
        assert(s.drop_last()[i] == s[i]);
        assert(queue_multiset(s) =~= queue_multiset(s.remove(i)).add(s[i].1.to_multiset()));
    }
}

/// Pushing one task into bucket `i` adds exactly that task to the queue's
/// multiset, whatever key the updated pair carries.
proof fn lemma_queue_multiset_update_push(s: Seq<(u128, Seq<Task>)>, i: int, k: u128, t: Task)
    requires
        0 <= i < s.len(),
    ensures
        queue_multiset(s.update(i, (k, s[i].1.push(t)))) == queue_multiset(s).insert(t),
    decreases s.len(),
{
    broadcast use vstd::seq_lib::group_to_multiset_ensures;

    let s2 = s.update(i, (k, s[i].1.push(t)));
    if i == s.len() - 1 {
        assert(s2.drop_last() =~= s.drop_last());
        assert(s2.last() == (k, s[i].1.push(t)));
        assert(queue_multiset(s2) =~= queue_multiset(s).insert(t));
    } else {
        lemma_queue_multiset_update_push(s.drop_last(), i, k, t);
        assert(s.drop_last()[i] == s[i]);
        assert(s2.drop_last() =~= s.drop_last().update(i, (k, s[i].1.push(t))));
        assert(s2.last() == s.last());
        assert(queue_multiset(s2) =~= queue_multiset(s).insert(t));
    }
}

/// `add` neither loses nor duplicates a task: a task that is not Idle or
/// Terminated joins the queue's multiset exactly once.
pub proof fn lemma_queue_add_multiset(s: Seq<(u128, Seq<Task>)>, t: Task)
    requires
        !(t.state is Idle),
        !(t.state is Terminated),
    ensures
        queue_multiset(queue_add(s, t)) == queue_multiset(s).insert(t),
{
    broadcast use vstd::seq_lib::group_to_multiset_ensures;

    lemma_key_index(s, t.start_time);
    if has_key(s, t.start_time) {
        lemma_queue_multiset_update_push(s, key_index(s, t.start_time), t.start_time, t);
    } else {
        let s2 = s.push((t.start_time, seq![t]));
        assert(s2.drop_last() =~= s);
        assert(seq![t] =~= Seq::<Task>::empty().push(t));
        assert(Seq::<Task>::empty().to_multiset() =~= Multiset::<Task>::empty()) by {
            Seq::<Task>::empty().to_multiset_ensures();
        }
        assert(queue_multiset(s2) =~= queue_multiset(s).insert(t));
    }
}

/// `append` neither loses nor duplicates a task: a batch of tasks none of
/// which is Idle or Terminated joins the queue's multiset exactly once
/// each.  Together with the round-trip lemma below, inserting N tasks and
/// then popping repeatedly yields exactly those N tasks.
pub proof fn lemma_queue_append_multiset(s: Seq<(u128, Seq<Task>)>, ts: Seq<Task>)
    requires
        forall|i: int| 0 <= i < ts.len() ==> !((#[trigger] ts[i]).state is Idle) && !(ts[i].state is Terminated),
    ensures
        queue_multiset(queue_append(s, ts)) == queue_multiset(s).add(ts.to_multiset()),
    decreases ts.len(),
{
    broadcast use vstd::seq_lib::group_to_multiset_ensures;

    if ts.len() == 0 {
        assert(ts.to_multiset() =~= Multiset::<Task>::empty());
        assert(queue_multiset(s).add(ts.to_multiset()) =~= queue_multiset(s));
    } else {
        let front = ts.drop_last();
        assert(forall|i: int| 0 <= i < front.len() ==> #[trigger] front[i] == ts[i]);
        lemma_queue_append_multiset(s, front);
        lemma_queue_add_multiset(queue_append(s, front), ts.last());
        assert(ts =~= front.push(ts.last()));
        assert(queue_multiset(queue_append(s, ts)) =~= queue_multiset(s).add(ts.to_multiset()));
    }
}

/// Queue bucketing round trip, one release at a time.  Popping a non-empty
/// well-formed queue releases exactly the bucket of the least pending
/// arrival time: every task of the batch carries that start time, every
/// bucket still pending is keyed strictly later, and no task is lost or
/// duplicated — the queue's tasks are exactly the batch's plus the
/// remainder's.  Repeated pops therefore yield all tasks, partitioned by
/// distinct start times in ascending order.
pub proof fn lemma_pop_round_trip(s: Seq<(u128, Seq<Task>)>)
    requires
        queue_wf(s),
        s.len() > 0,
    ensures
        ({
            let m = min_key_index(s);
            &&& forall|t: int| 0 <= t < s[m].1.len() ==> (#[trigger] s[m].1[t]).start_time == s[m].0
            &&& forall|i: int| 0 <= i < s.remove(m).len() ==> s[m].0 < (#[trigger] s.remove(m)[i]).0
            &&& queue_multiset(s) == queue_multiset(s.remove(m)).add(s[m].1.to_multiset())
            &&& queue_wf(s.remove(m))
        }),
{
    lemma_min_key_index(s);
    let m = min_key_index(s);
    lemma_queue_multiset_remove(s, m);
    assert forall|i: int| 0 <= i < s.remove(m).len() implies s[m].0 < (#[trigger] s.remove(m)[i]).0 by {
        if i < m {
            assert(s.remove(m)[i] == s[i]);
        } else {
            assert(s.remove(m)[i] == s[i + 1]);
        }
    }
    assert forall|b: int, u: int| 0 <= b < s.remove(m).len() && 0 <= u < s.remove(m)[b].1.len() implies
        (#[trigger] s.remove(m)[b].1[u]).start_time == s.remove(m)[b].0 by {
        if b < m {
            assert(s.remove(m)[b] == s[b]);
        } else {
            assert(s.remove(m)[b] == s[b + 1]);
        }
    }
}

} // verus!
