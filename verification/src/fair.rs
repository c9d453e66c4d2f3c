//! The fair scheduling algorithm: a vruntime-ordered ready set plus a FIFO
//! of tasks blocked on I/O.  The task with the least accumulated virtual
//! runtime — proportionally the least CPU share so far — always runs next.
//!
//! The algorithm holds no clock of its own: every operation that recomputes
//! a vruntime key takes the current tick as an explicit argument, which
//! keeps it a pure function of its inputs.

use vstd::prelude::*;
use std::collections::VecDeque;
use rbtree::RBTree;
use crate::task::{Task, TaskStatus};
use crate::task::{spec_vruntime_update, spec_cpu_cycle, spec_io_cycle, can_cpu_cycle, can_io_cycle, vruntime_delta};
use crate::ready_tree::{tree_entries, tree_new, tree_is_empty, tree_insert, tree_pop_first};
use crate::ready_tree::{entries_sorted, tree_insert_spec, lemma_tree_insert_sorted, lemma_first_gt, first_gt};

verus! {

/// The ready set ordered by vruntime key, and the idle FIFO.
pub struct FairAlgorithm {
    tree: RBTree<u64, Task>,
    idle: VecDeque<Task>,
}

/// What a task must satisfy for `insert` at tick `now` to run within machine
/// limits: a task bound for the ready tree needs a positive weight (the
/// divisor) and headroom in its vruntime accumulator.  Terminated and Idle
/// tasks never touch the accumulator.
pub open spec fn can_insert(t: Task, now: u128) -> bool {
    (!(t.state is Terminated) && !(t.state is Idle)) ==> {
        &&& t.weight > 0
        &&& t.vruntime + vruntime_delta(now, t.start_time, t.weight) <= u64::MAX
    }
}

/// Every task of the batch admits insertion at tick `now`.
pub open spec fn all_insertable(ts: Seq<Task>, now: u128) -> bool {
    forall|i: int| 0 <= i < ts.len() ==> can_insert(#[trigger] ts[i], now)
}

/// The task as it enters the ready tree: vruntime recomputed against `now`
/// (measured from the original arrival time), then scheduled to Waiting.
/// Its new vruntime is its key.
pub open spec fn ready_task(t: Task, now: u128) -> Task {
    Task { state: TaskStatus::Waiting, ..spec_vruntime_update(t, now) }
}

/// What `insert` does: a Terminated task is dropped silently; an Idle task
/// goes to the back of the idle FIFO unchanged; any other task is keyed by
/// its recomputed vruntime and placed into the ready order.
pub open spec fn fair_insert_spec(ready: Seq<(u64, Task)>, idle: Seq<Task>, t: Task, now: u128) -> (Seq<(u64, Task)>, Seq<Task>) {
    if t.state is Terminated {
        (ready, idle)
    } else if t.state is Idle {
        (ready, idle.push(t))
    } else {
        (tree_insert_spec(ready, ready_task(t, now).vruntime, ready_task(t, now)), idle)
    }
}

/// What `push` does: `insert` folded over the tasks in order.
pub open spec fn fair_push_spec(ready: Seq<(u64, Task)>, idle: Seq<Task>, ts: Seq<Task>, now: u128) -> (Seq<(u64, Task)>, Seq<Task>)
    decreases ts.len(),
{
    if ts.len() == 0 {
        (ready, idle)
    } else {
        let prev = fair_push_spec(ready, idle, ts.drop_last(), now);
        fair_insert_spec(prev.0, prev.1, ts.last(), now)
    }
}

/// What the single-step driver `run` needs of the minimum-vruntime task so
/// that its CPU cycle and reinsertion stay within machine limits.
pub open spec fn can_run_step(ready: Seq<(u64, Task)>, now: u128) -> bool {
    ready.len() > 0 ==> {
        let t = Task { state: TaskStatus::Running, ..ready[0].1 };
        &&& can_cpu_cycle(t)
        &&& can_insert(spec_cpu_cycle(t), now)
    }
}

/// What the idle step needs of the head of the idle FIFO.
pub open spec fn can_idle_step(idle: Seq<Task>, now: u128) -> bool {
    idle.len() > 0 ==> {
        &&& can_io_cycle(idle[0])
        &&& can_insert(spec_io_cycle(idle[0]), now)
    }
}

impl FairAlgorithm {
    /// The ready set as its vruntime-ordered `(key, task)` sequence; of
    /// equal keys, the earlier-inserted task stands first.
    pub closed spec fn ready(&self) -> Seq<(u64, Task)> {
        tree_entries(self.tree)
    }

    /// The idle FIFO, front first.
    pub closed spec fn idle_q(&self) -> Seq<Task> {
        self.idle@
    }

    /// The algorithm's invariant: the ready sequence is sorted by key and no
    /// longer than the tree's length counter allows, every ready task is
    /// Waiting, and every task in the idle FIFO is Idle.
    pub open spec fn wf(&self) -> bool {
        &&& entries_sorted(self.ready())
        &&& self.ready().len() <= usize::MAX
        &&& forall|i: int| 0 <= i < self.ready().len() ==> (#[trigger] self.ready()[i]).1.state is Waiting
        &&& forall|i: int| 0 <= i < self.idle_q().len() ==> (#[trigger] self.idle_q()[i]).state is Idle
    }

    /// An empty algorithm: nothing ready, nothing idle.
    pub fn new() -> (alg: FairAlgorithm)
        ensures
            alg.wf(),
            alg.ready() == Seq::<(u64, Task)>::empty(),
            alg.idle_q() == Seq::<Task>::empty(),
    {
        FairAlgorithm { tree: tree_new(), idle: VecDeque::new() }
    }

    /// Admits one task at tick `now`: Terminated tasks are dropped, Idle
    /// tasks join the idle FIFO, and every other task has its vruntime
    /// recomputed, becomes Waiting, and enters the ready order under that
    /// key.
    pub fn insert(&mut self, task: Task, now: u128)
        requires
            old(self).wf(),
            can_insert(task, now),
            old(self).ready().len() < usize::MAX,
        ensures
            final(self).wf(),
            final(self).ready() == fair_insert_spec(old(self).ready(), old(self).idle_q(), task, now).0,
            final(self).idle_q() == fair_insert_spec(old(self).ready(), old(self).idle_q(), task, now).1,
            final(self).ready().len() <= old(self).ready().len() + 1,
    {
        match task.get_status() {
            TaskStatus::Terminated => {
                return;
            },
            TaskStatus::Idle => {
                self.idle.push_back(task);
                return;
            },
            _ => {},
        }

        let mut task = task;
        let key: u64 = task.vruntime(now);
        task.schedule();
        proof {
            lemma_tree_insert_sorted(self.ready(), key, task);
            lemma_first_gt(self.ready(), key);
        }
        let ghost old_ready = self.ready();
        tree_insert(&mut self.tree, key, task);
        proof {
            let p = first_gt(old_ready, key);
            assert forall|i: int| 0 <= i < self.ready().len() implies (#[trigger] self.ready()[i]).1.state is Waiting by {
                if i < p {
                    assert(self.ready()[i] == old_ready[i]);
                } else if i > p {
                    assert(self.ready()[i] == old_ready[i - 1]);
                }
            }
        }
    }

    /// `insert` applied to each task, in order.
    #[verifier::loop_isolation(false)]
    pub fn push(&mut self, tasks: Vec<Task>, now: u128)
        requires
            old(self).wf(),
            all_insertable(tasks@, now),
            old(self).ready().len() + tasks@.len() < usize::MAX,
        ensures
            final(self).wf(),
            final(self).ready() == fair_push_spec(old(self).ready(), old(self).idle_q(), tasks@, now).0,
            final(self).idle_q() == fair_push_spec(old(self).ready(), old(self).idle_q(), tasks@, now).1,
            final(self).ready().len() <= old(self).ready().len() + tasks@.len(),
    {
        let ghost orig_ready = self.ready();
        let ghost orig_idle = self.idle_q();
        let n = tasks.len();
        let mut i: usize = 0;
        while i < n
            invariant
                0 <= i <= n,
                self.wf(),
                self.ready() == fair_push_spec(orig_ready, orig_idle, tasks@.take(i as int), now).0,
                self.idle_q() == fair_push_spec(orig_ready, orig_idle, tasks@.take(i as int), now).1,
                self.ready().len() <= orig_ready.len() + i,
            decreases n - i,
        {
            self.insert(tasks[i], now);
            proof {
                assert(tasks@.take(i as int + 1).drop_last() =~= tasks@.take(i as int));
                assert(tasks@.take(i as int + 1).last() == tasks@[i as int]);
            }
            i = i + 1;
        }
        proof {
            assert(tasks@.take(n as int) =~= tasks@);
        }
    }

    /// Removes and returns the task with the least vruntime key — the
    /// in-order first entry — moved to Running.  The fairness selection
    /// rule: no entry in the ready order carries a smaller key.
    pub fn pop(&mut self) -> (r: Box<Task>)
        requires
            old(self).wf(),
            old(self).ready().len() > 0,
        ensures
            final(self).wf(),
            *r == (Task { state: TaskStatus::Running, ..old(self).ready()[0].1 }),
            final(self).ready() == old(self).ready().drop_first(),
            final(self).idle_q() == old(self).idle_q(),
            forall|i: int| 0 <= i < old(self).ready().len() ==> old(self).ready()[0].0 <= (#[trigger] old(self).ready()[i]).0,
    {
        let ghost old_ready = self.ready();
        match tree_pop_first(&mut self.tree) {
            Some(pair) => {
                let mut task = pair.1;
                task.run();
                proof {
                    assert forall|i: int| 0 <= i < self.ready().len() implies (#[trigger] self.ready()[i]).1.state is Waiting by {
                        assert(self.ready()[i] == old_ready[i + 1]);
                    }
                }
                Box::new(task)
            },
            None => vstd::pervasive::unreached(),
        }
    }

    /// True exactly when the ready order is empty (the idle FIFO does not
    /// count).
    pub fn is_empty(&self) -> (r: bool)
        ensures
            r == (self.ready().len() == 0),
    {
        tree_is_empty(&self.tree)
    }

    /// True exactly when both the ready order and the idle FIFO are empty.
    pub fn is_finished(&self) -> (r: bool)
        ensures
            r == (self.ready().len() == 0 && self.idle_q().len() == 0),
    {
        tree_is_empty(&self.tree) && self.idle.len() == 0
    }

    /// One driving step: if any task is ready, the minimum-vruntime task is
    /// popped, runs one CPU cycle, and is reinserted — under a freshly
    /// recomputed key, so running a task changes its ordering.
    pub fn run(&mut self, now: u128)
        requires
            old(self).wf(),
            can_run_step(old(self).ready(), now),
        ensures
            final(self).wf(),
            old(self).ready().len() == 0 ==> final(self).ready() == old(self).ready() && final(self).idle_q() == old(self).idle_q(),
            old(self).ready().len() > 0 ==> {
                let stepped = spec_cpu_cycle(Task { state: TaskStatus::Running, ..old(self).ready()[0].1 });
                &&& final(self).ready() == fair_insert_spec(old(self).ready().drop_first(), old(self).idle_q(), stepped, now).0
                &&& final(self).idle_q() == fair_insert_spec(old(self).ready().drop_first(), old(self).idle_q(), stepped, now).1
            },
    {
        if self.is_empty() {
            return;
        }
        let mut task = *self.pop();
        task.cpu_cycle();
        self.insert(task, now);
    }

    /// One idle-service step: exactly one task — the head of the idle FIFO —
    /// advances its I/O burst by one cycle and is reinserted: to the FIFO's
    /// tail if still Idle, into the ready order if its I/O burst just
    /// completed.  One task per call is the deliberate policy, whatever the
    /// FIFO's length.
    pub fn idle(&mut self, now: u128)
        requires
            old(self).wf(),
            can_idle_step(old(self).idle_q(), now),
            old(self).ready().len() < usize::MAX,
        ensures
            final(self).wf(),
            old(self).idle_q().len() == 0 ==> final(self).ready() == old(self).ready() && final(self).idle_q() == old(self).idle_q(),
            old(self).idle_q().len() > 0 ==> {
                let stepped = spec_io_cycle(old(self).idle_q()[0]);
                &&& final(self).ready() == fair_insert_spec(old(self).ready(), old(self).idle_q().drop_first(), stepped, now).0
                &&& final(self).idle_q() == fair_insert_spec(old(self).ready(), old(self).idle_q().drop_first(), stepped, now).1
            },
    {
        if self.idle.len() == 0 {
            return;
        }
        let mut curr = match self.idle.pop_front() {
            Some(t) => t,
            None => vstd::pervasive::unreached(),
        };
        curr.io_cycle();
        self.insert(curr, now);
    }
}

/// Fairness ordering: when the ready tasks carry pairwise distinct vruntime
/// keys, the entry `pop` returns — the in-order first — has the strictly
/// smallest key of all.
pub proof fn lemma_pop_fairness(alg: FairAlgorithm)
    requires
        alg.wf(),
        alg.ready().len() > 0,
        forall|i: int, j: int| 0 <= i < j < alg.ready().len() ==> (#[trigger] alg.ready()[i]).0 != (#[trigger] alg.ready()[j]).0,
    ensures
        forall|i: int| 0 < i < alg.ready().len() ==> alg.ready()[0].0 < (#[trigger] alg.ready()[i]).0,
{
}

} // verus!
