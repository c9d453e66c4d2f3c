//! The per-task state machine: CPU bursts, I/O bursts, and the weighted
//! virtual-runtime accumulator that the fair scheduling algorithm orders by.

use vstd::prelude::*;

verus! {

/// The lifecycle state of a task.
#[derive(Clone, Copy, Debug, Eq, PartialEq, Structural)]
pub enum TaskStatus {
    /// Blocked on I/O.
    Idle,
    /// Currently executing on the virtual processor.
    Running,
    /// All CPU time consumed; absorbing.
    Terminated,
    /// Admitted and eligible for CPU, ordered in the ready set.
    Waiting,
    /// Just created, not yet admitted.
    New,
}

/// The immutable descriptor a task is born from.
#[derive(Clone, Copy)]
pub struct TaskChar {
    pub id: u16,
    pub cpu_time: u64,
    pub cpu_burst_length: u64,
    pub io_burst_length: u64,
    pub weight: u32,
}

impl TaskChar {
    pub fn new(id: u16, cpu_time: u64, cpu_burst_length: u64, io_burst_length: u64, weight: u32) -> (c: TaskChar)
        ensures
            c == (TaskChar { id, cpu_time, cpu_burst_length, io_burst_length, weight }),
    {
        TaskChar { id, cpu_time, cpu_burst_length, io_burst_length, weight }
    }

    pub fn get_id(&self) -> (r: u16)
        ensures
            r == self.id,
    {
        self.id
    }

    pub fn get_cpu_time(&self) -> (r: u64)
        ensures
            r == self.cpu_time,
    {
        self.cpu_time
    }

    pub fn get_cpu_burst_length(&self) -> (r: u64)
        ensures
            r == self.cpu_burst_length,
    {
        self.cpu_burst_length
    }

    pub fn get_io_burst_length(&self) -> (r: u64)
        ensures
            r == self.io_burst_length,
    {
        self.io_burst_length
    }

    pub fn get_weight(&self) -> (r: u32)
        ensures
            r == self.weight,
    {
        self.weight
    }
}

/// The mutable runtime entity.  `runtime` counts CPU ticks consumed,
/// `vruntime` the weighted virtual runtime, `idle_time` the ticks spent in
/// the current I/O wait, and `start_time` the tick at which this instance
/// became eligible to run (never reset except by `restart`).
#[derive(Clone, Copy, Debug)]
pub struct Task {
    pub id: u16,
    pub cpu_time: u64,
    pub cpu_burst_length: u64,
    pub io_burst_length: u64,
    pub state: TaskStatus,
    pub runtime: u64,
    pub vruntime: u64,
    pub idle_time: u64,
    pub start_time: u128,
    pub weight: u32,
}

impl PartialEq for Task {
    /// Two tasks are the same task exactly when their ids agree.
    fn eq(&self, other: &Task) -> (r: bool) {
        self.id == other.id
    }
}

impl vstd::std_specs::cmp::PartialEqSpecImpl for Task {
    open spec fn obeys_eq_spec() -> bool {
        true
    }

    open spec fn eq_spec(&self, other: &Task) -> bool {
        self.id == other.id
    }
}

/// The elapsed ticks since `start_time`, computed exactly as the accumulator
/// does: wrapping subtraction on the tick width, truncated to 64 bits.  A
/// `now` earlier than `start_time` therefore yields a huge delta, which
/// pushes such a task to the back of the ready order.
pub open spec fn wrap_delta(now: u128, start_time: u128) -> u64 {
    vstd::wrapping::u128_specs::wrapping_sub(now, start_time) as u64
}

/// The vruntime increment earned at tick `now`: elapsed time since the
/// original arrival divided by the weight, in integer division.  Larger
/// weight means slower vruntime growth and hence more CPU share.
pub open spec fn vruntime_delta(now: u128, start_time: u128, weight: u32) -> u64
    recommends
        weight > 0,
{
    (wrap_delta(now, start_time) as int / weight as int) as u64
}

/// The task as `vruntime` leaves it: the weighted delta against the original
/// arrival time is added onto the accumulator, and nothing else changes.
pub open spec fn spec_vruntime_update(t: Task, now: u128) -> Task {
    Task { vruntime: (t.vruntime + vruntime_delta(now, t.start_time, t.weight)) as u64, ..t }
}

/// One CPU cycle: only a Running task advances; its runtime grows by one
/// tick; reaching `cpu_time` terminates it; otherwise completing a full CPU
/// burst (runtime a positive multiple of `cpu_burst_length`) sends it Idle.
pub open spec fn spec_cpu_cycle(t: Task) -> Task {
    if !(t.state is Running) {
        t
    } else {
        let rt = (t.runtime + 1) as u64;
        if rt >= t.cpu_time {
            Task { runtime: rt, state: TaskStatus::Terminated, ..t }
        } else if t.cpu_burst_length != 0 && rt as int % t.cpu_burst_length as int == 0 {
            Task { runtime: rt, state: TaskStatus::Idle, ..t }
        } else {
            Task { runtime: rt, ..t }
        }
    }
}

/// One I/O cycle: only an Idle task advances; its idle time grows by one
/// tick, and on reaching `io_burst_length` it resets to zero and the task
/// becomes Waiting again.
pub open spec fn spec_io_cycle(t: Task) -> Task {
    if !(t.state is Idle) {
        t
    } else {
        let it = (t.idle_time + 1) as u64;
        if it >= t.io_burst_length {
            Task { idle_time: 0, state: TaskStatus::Waiting, ..t }
        } else {
            Task { idle_time: it, ..t }
        }
    }
}

/// What `cpu_cycle` needs to run without a counter overflow or a division by
/// zero: machine limits only, nothing of the scheduling policy.
pub open spec fn can_cpu_cycle(t: Task) -> bool {
    t.state is Running ==> {
        &&& t.runtime < u64::MAX
        &&& (t.runtime + 1 < t.cpu_time ==> t.cpu_burst_length > 0)
    }
}

/// What `io_cycle` needs to run without a counter overflow.
pub open spec fn can_io_cycle(t: Task) -> bool {
    t.state is Idle ==> t.idle_time < u64::MAX
}

/// `spec_cpu_cycle` iterated `n` times.
pub open spec fn spec_cpu_cycles(t: Task, n: nat) -> Task
    decreases n,
{
    if n == 0 {
        t
    } else {
        spec_cpu_cycle(spec_cpu_cycles(t, (n - 1) as nat))
    }
}

/// `spec_io_cycle` iterated `n` times.
pub open spec fn spec_io_cycles(t: Task, n: nat) -> Task
    decreases n,
{
    if n == 0 {
        t
    } else {
        spec_io_cycle(spec_io_cycles(t, (n - 1) as nat))
    }
}

impl Task {
    pub fn new(id: u16, cpu_time: u64, cpu_burst_length: u64, io_burst_length: u64, start_time: u128, weight: u32) -> (t: Task)
        ensures
            t == (Task {
                id,
                cpu_time,
                cpu_burst_length,
                io_burst_length,
                state: TaskStatus::New,
                runtime: 0,
                vruntime: 0,
                idle_time: 0,
                start_time,
                weight,
            }),
    {
        Task {
            id,
            cpu_time,
            cpu_burst_length,
            io_burst_length,
            state: TaskStatus::New,
            runtime: 0,
            vruntime: 0,
            idle_time: 0,
            start_time,
            weight,
        }
    }

    pub fn get_id(&self) -> (r: u16)
        ensures
            r == self.id,
    {
        self.id
    }

    pub fn get_cpu_time(&self) -> (r: u64)
        ensures
            r == self.cpu_time,
    {
        self.cpu_time
    }

    pub fn get_start_time(&self) -> (r: u128)
        ensures
            r == self.start_time,
    {
        self.start_time
    }

    pub fn get_status(&self) -> (r: TaskStatus)
        ensures
            r == self.state,
    {
        self.state
    }

    pub fn get_runtime(&self) -> (r: u64)
        ensures
            r == self.runtime,
    {
        self.runtime
    }

    pub fn weight(&self) -> (r: u32)
        ensures
            r == self.weight,
    {
        self.weight
    }

    /// Moves the task to Terminated, the absorbing state.
    pub fn terminate(&mut self)
        ensures
            *final(self) == (Task { state: TaskStatus::Terminated, ..*old(self) }),
    {
        self.state = TaskStatus::Terminated;
    }

    /// Recomputes the vruntime key against the current tick and returns it.
    /// The delta is measured from the original `start_time` at every call,
    /// not from the last time the task was scheduled.
    pub fn vruntime(&mut self, now: u128) -> (key: u64)
        requires
            old(self).weight > 0,
            old(self).vruntime + vruntime_delta(now, old(self).start_time, old(self).weight) <= u64::MAX,
        ensures
            *final(self) == spec_vruntime_update(*old(self), now),
            key == final(self).vruntime,
    {
        let dt: u64 = #[verifier::truncate] (now.wrapping_sub(self.start_time) as u64);
        let delta_exec_weighted: u64 = dt / (self.weight as u64);
        self.vruntime = self.vruntime + delta_exec_weighted;
        self.vruntime
    }

    /// Moves the task to Idle.  A Terminated task cannot yield: the caller
    /// must rule that out, as the scheduling core does.
    pub fn to_idle(&mut self)
        requires
            !(old(self).state is Terminated),
        ensures
            *final(self) == (Task { state: TaskStatus::Idle, ..*old(self) }),
    {
        self.state = TaskStatus::Idle;
    }

    /// Moves the task to Waiting.  A Terminated task cannot be scheduled:
    /// the caller must rule that out, as the scheduling core does.
    pub fn schedule(&mut self)
        requires
            !(old(self).state is Terminated),
        ensures
            *final(self) == (Task { state: TaskStatus::Waiting, ..*old(self) }),
    {
        self.state = TaskStatus::Waiting;
    }

    /// Moves the task to Running; succeeds on every non-terminated task.
    pub fn run(&mut self)
        requires
            !(old(self).state is Terminated),
        ensures
            *final(self) == (Task { state: TaskStatus::Running, ..*old(self) }),
    {
        self.state = TaskStatus::Running;
    }

    /// Reuses the task as a fresh instance arriving at `time`.
    pub fn restart(&mut self, time: u128)
        ensures
            *final(self) == (Task {
                runtime: 0,
                idle_time: 0,
                state: TaskStatus::New,
                start_time: time,
                ..*old(self)
            }),
    {
        self.runtime = 0;
        self.idle_time = 0;
        self.state = TaskStatus::New;
        self.start_time = time;
    }

    /// Executes one CPU cycle.  A task that is not Running is left unchanged.
    pub fn cpu_cycle(&mut self)
        requires
            can_cpu_cycle(*old(self)),
        ensures
            *final(self) == spec_cpu_cycle(*old(self)),
            old(self).state is Running ==> final(self).runtime == old(self).runtime + 1,
            !(old(self).state is Running) ==> *final(self) == *old(self),
            old(self).state is Running ==> (final(self).state is Terminated <==> old(self).runtime + 1 >= old(self).cpu_time),
            (old(self).state is Running && old(self).runtime + 1 < old(self).cpu_time) ==> (
                final(self).state is Idle <==> (old(self).runtime + 1) as int % old(self).cpu_burst_length as int == 0
            ),
    {
        match self.state {
            TaskStatus::Running => {
                self.runtime = self.runtime + 1;
                if self.runtime >= self.cpu_time {
                    self.terminate();
                } else if self.runtime % self.cpu_burst_length == 0 {
                    self.to_idle();
                }
            },
            _ => {},
        }
    }

    /// Executes one I/O cycle.  A task that is not Idle is left unchanged.
    pub fn io_cycle(&mut self)
        requires
            can_io_cycle(*old(self)),
        ensures
            *final(self) == spec_io_cycle(*old(self)),
            !(old(self).state is Idle) ==> *final(self) == *old(self),
            old(self).state is Idle ==> (final(self).state is Waiting <==> old(self).idle_time + 1 >= old(self).io_burst_length),
            (old(self).state is Idle && old(self).idle_time + 1 >= old(self).io_burst_length) ==> final(self).idle_time == 0,
    {
        match self.state {
            TaskStatus::Idle => {
                self.idle_time = self.idle_time + 1;
                if self.idle_time >= self.io_burst_length {
                    self.idle_time = 0;
                    self.schedule();
                }
            },
            _ => {},
        }
    }
}

/// Termination is permanent: however many further CPU cycles are applied to
/// a Terminated task, it is left exactly as it is.  Together with
/// `cpu_cycle`'s own contract — runtime grows by one per cycle while Running
/// and the state becomes Terminated exactly when runtime reaches `cpu_time`
/// — this makes Terminated absorbing under the cycle operations.
pub proof fn lemma_terminated_is_absorbing(t: Task, n: nat)
    requires
        t.state is Terminated,
    ensures
        spec_cpu_cycles(t, n) == t,
        spec_io_cycle(t) == t,
    decreases n,
{
    if n > 0 {
        lemma_terminated_is_absorbing(t, (n - 1) as nat);
    }
}

/// CPU progress: repeated CPU cycles on a Running task strictly increase its
/// runtime, one tick per cycle — as long as the cycles stay strictly below
/// the termination bound and cross no burst boundary, the task is still
/// Running with runtime larger by exactly `n`.  The boundaries themselves
/// are covered by `cpu_cycle`'s own contract: the state becomes Terminated
/// exactly when runtime reaches `cpu_time`, Idle exactly at a positive
/// multiple of `cpu_burst_length`; and Terminated is permanent, by
/// `lemma_terminated_is_absorbing`.
pub proof fn lemma_cpu_progress(t: Task, n: nat)
    requires
        t.state is Running,
        t.cpu_burst_length > 0,
        t.runtime + n < t.cpu_time,
        forall|m: int| t.runtime < m <= t.runtime + n ==> #[trigger] (m % (t.cpu_burst_length as int)) != 0,
    ensures
        spec_cpu_cycles(t, n) == (Task { runtime: (t.runtime + n) as u64, ..t }),
    decreases n,
{
    if n > 0 {
        lemma_cpu_progress(t, (n - 1) as nat);
    }
}

/// I/O completion happens exactly at the burst boundary: a task that enters
/// an I/O wait (Idle with `idle_time` zero) and has an I/O burst of length
/// `k >= 1` is still Idle with `idle_time == n` after any `n < k` I/O
/// cycles, and after exactly `k` cycles it is Waiting with `idle_time`
/// reset to zero.  (A burst of length zero completes on the first cycle,
/// not after zero cycles, so it is excluded here.)
pub proof fn lemma_io_completion(t: Task, n: nat)
    requires
        t.state is Idle,
        t.idle_time == 0,
        t.io_burst_length > 0,
        n <= t.io_burst_length,
    ensures
        n < t.io_burst_length ==> spec_io_cycles(t, n) == (Task { idle_time: n as u64, ..t }),
        n == t.io_burst_length ==> spec_io_cycles(t, n) == (Task { idle_time: 0, state: TaskStatus::Waiting, ..t }),
    decreases n,
{
    if n > 0 {
        lemma_io_completion(t, (n - 1) as nat);
    }
}

/// Weight monotonicity: at any tick, a task of larger weight earns a
/// vruntime increment no larger than one of smaller weight with the same
/// arrival time — larger weight never accrues vruntime faster.
pub proof fn lemma_weight_monotonic(now: u128, start_time: u128, w1: u32, w2: u32)
    requires
        0 < w1 <= w2,
    ensures
        vruntime_delta(now, start_time, w2) <= vruntime_delta(now, start_time, w1),
{
    let dt = wrap_delta(now, start_time) as int;
    vstd::arithmetic::div_mod::lemma_div_is_ordered_by_denominator(dt, w1 as int, w2 as int);
}

} // verus!
