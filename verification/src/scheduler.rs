//! The simulation driver's decision core.
//!
//! The full simulation runs as three concurrent actors — a clock driver, a
//! task-birth generator, and a run loop — joined by channels.  All the
//! scheduling decisions of the run loop's iteration live here, as a single
//! step from (state, event) to (state, action): the caller hands in the tick
//! it observed, at most one newly born task, and whether any births are
//! still pending, and gets back which task ran and whether the simulation is
//! over.  The channels, locks and threads around it stay outside.

use vstd::prelude::*;
use crate::task::{Task, TaskStatus, spec_cpu_cycle, spec_io_cycle};
use crate::queue::{TaskQueue, queue_wf, queue_add, min_key_index};
use crate::fair::{FairAlgorithm, fair_push_spec, fair_insert_spec, all_insertable, can_run_step, can_idle_step};

verus! {

/// The scheduling state the run loop carries: the arrival queue of born but
/// not yet admitted tasks, and the fair scheduling algorithm.
pub struct Scheduler {
    queue: TaskQueue,
    rq: FairAlgorithm,
}

/// One full run-loop iteration at tick `time`, over the views of the state:
/// admit at most one born task to the arrival queue; release the
/// earliest-arrival bucket into the fair algorithm; if any task is ready,
/// run the minimum-vruntime task for one CPU cycle and reinsert it; service
/// one idle task; report which task ran and whether everything is finished.
/// The components are, in order: the arrival queue, the ready order, the
/// idle FIFO, the id of the task that ran, and the completion flag.
pub open spec fn spec_step(
    q0: Seq<(u128, Seq<Task>)>,
    r0: Seq<(u64, Task)>,
    i0: Seq<Task>,
    born: Option<Task>,
    time: u128,
    pending_empty: bool,
) -> (Seq<(u128, Seq<Task>)>, Seq<(u64, Task)>, Seq<Task>, Option<u16>, bool) {
    let q1 = match born {
        Some(t) => queue_add(q0, t),
        None => q0,
    };
    let batch = if q1.len() == 0 { Seq::<Task>::empty() } else { q1[min_key_index(q1)].1 };
    let q2 = if q1.len() == 0 { q1 } else { q1.remove(min_key_index(q1)) };
    let pushed = fair_push_spec(r0, i0, batch, time);
    let after_run = if pushed.0.len() > 0 {
        fair_insert_spec(
            pushed.0.drop_first(),
            pushed.1,
            spec_cpu_cycle(Task { state: TaskStatus::Running, ..pushed.0[0].1 }),
            time,
        )
    } else {
        pushed
    };
    let ran = if pushed.0.len() > 0 { Some(pushed.0[0].1.id) } else { None::<u16> };
    let after_idle = if after_run.1.len() > 0 {
        fair_insert_spec(after_run.0, after_run.1.drop_first(), spec_io_cycle(after_run.1[0]), time)
    } else {
        after_run
    };
    let done = after_idle.0.len() == 0 && after_idle.1.len() == 0 && pending_empty;
    (q2, after_idle.0, after_idle.1, ran, done)
}

/// The machine limits a step at tick `time` must respect: every task in the
/// released batch admits insertion (positive weight, vruntime headroom), the
/// task that runs can take a CPU cycle and re-enter, the serviced idle task
/// can take an I/O cycle and re-enter, and the ready order has room.
pub open spec fn step_ok(
    q0: Seq<(u128, Seq<Task>)>,
    r0: Seq<(u64, Task)>,
    i0: Seq<Task>,
    born: Option<Task>,
    time: u128,
) -> bool {
    let q1 = match born {
        Some(t) => queue_add(q0, t),
        None => q0,
    };
    let batch = if q1.len() == 0 { Seq::<Task>::empty() } else { q1[min_key_index(q1)].1 };
    let pushed = fair_push_spec(r0, i0, batch, time);
    let after_run = if pushed.0.len() > 0 {
        fair_insert_spec(
            pushed.0.drop_first(),
            pushed.1,
            spec_cpu_cycle(Task { state: TaskStatus::Running, ..pushed.0[0].1 }),
            time,
        )
    } else {
        pushed
    };
    &&& all_insertable(batch, time)
    &&& can_run_step(pushed.0, time)
    &&& can_idle_step(after_run.1, time)
    &&& r0.len() + batch.len() + 1 < usize::MAX
}

impl Scheduler {
    /// The arrival queue's view.
    pub closed spec fn arrivals(&self) -> Seq<(u128, Seq<Task>)> {
        self.queue@
    }

    /// The ready order's view.
    pub closed spec fn ready(&self) -> Seq<(u64, Task)> {
        self.rq.ready()
    }

    /// The idle FIFO's view.
    pub closed spec fn idle_q(&self) -> Seq<Task> {
        self.rq.idle_q()
    }

    pub closed spec fn wf(&self) -> bool {
        &&& queue_wf(self.arrivals())
        &&& self.rq.wf()
    }

    /// A scheduler with nothing queued, nothing ready and nothing idle.
    pub fn new() -> (s: Scheduler)
        ensures
            s.wf(),
            s.arrivals() == Seq::<(u128, Seq<Task>)>::empty(),
            s.ready() == Seq::<(u64, Task)>::empty(),
            s.idle_q() == Seq::<Task>::empty(),
    {
        Scheduler { queue: TaskQueue::new(), rq: FairAlgorithm::new() }
    }

    /// One run-loop iteration at tick `time`.  Returns the id of the task
    /// that received a CPU cycle, if any, and whether the simulation is
    /// complete: nothing ready, nothing idle, and — per `pending_empty`,
    /// the caller's word — no more births expected.
    pub fn step(&mut self, born: Option<Task>, time: u128, pending_empty: bool) -> (r: (Option<u16>, bool))
        requires
            old(self).wf(),
            step_ok(old(self).arrivals(), old(self).ready(), old(self).idle_q(), born, time),
        ensures
            final(self).wf(),
            final(self).arrivals() == spec_step(old(self).arrivals(), old(self).ready(), old(self).idle_q(), born, time, pending_empty).0,
            final(self).ready() == spec_step(old(self).arrivals(), old(self).ready(), old(self).idle_q(), born, time, pending_empty).1,
            final(self).idle_q() == spec_step(old(self).arrivals(), old(self).ready(), old(self).idle_q(), born, time, pending_empty).2,
            r.0 == spec_step(old(self).arrivals(), old(self).ready(), old(self).idle_q(), born, time, pending_empty).3,
            r.1 == spec_step(old(self).arrivals(), old(self).ready(), old(self).idle_q(), born, time, pending_empty).4,
    {
        let ghost q0 = self.arrivals();
        let ghost r0 = self.ready();
        let ghost i0 = self.idle_q();

        match born {
            Some(t) => self.queue.add(t),
            None => {},
        }
        let ghost q1 = self.arrivals();
        proof {
            assert(q1 == (match born {
                Some(t) => queue_add(q0, t),
                None => q0,
            }));
        }

        let batch = self.queue.pop();
        let ghost sbatch = if q1.len() == 0 { Seq::<Task>::empty() } else { q1[min_key_index(q1)].1 };
        proof {
            assert(step_ok(q0, r0, i0, born, time));
            assert(batch@ == sbatch);
            assert(all_insertable(sbatch, time));
        }
        self.rq.push(batch, time);
        let ghost pushed = fair_push_spec(r0, i0, sbatch, time);
        proof {
            assert(self.ready() == pushed.0 && self.idle_q() == pushed.1);
            assert(self.ready().len() <= r0.len() + sbatch.len());
        }

        let mut ran: Option<u16> = None;
        if !self.rq.is_empty() {
            let mut curr: Task = *self.rq.pop();
            ran = Some(curr.get_id());
            curr.cpu_cycle();
            self.rq.insert(curr, time);
        }
        let ghost after_run = if pushed.0.len() > 0 {
            fair_insert_spec(
                pushed.0.drop_first(),
                pushed.1,
                spec_cpu_cycle(Task { state: TaskStatus::Running, ..pushed.0[0].1 }),
                time,
            )
        } else {
            pushed
        };
        proof {
            assert(self.ready() == after_run.0 && self.idle_q() == after_run.1);
            assert(self.ready().len() <= r0.len() + sbatch.len());
        }

        self.rq.idle(time);

        let done = self.rq.is_finished() && pending_empty;
        (ran, done)
    }
}

} // verus!
