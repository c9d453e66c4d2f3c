use completely_fair_scheduler::task::{Task, TaskStatus};
use completely_fair_scheduler::queue::TaskQueue;
use completely_fair_scheduler::clock::Clock;
use completely_fair_scheduler::fair::FairAlgorithm;
use completely_fair_scheduler::scheduler::Scheduler;

#[test]
fn fairness_pop_returns_strictly_smallest_key() {
    // Three tasks of weight 1 admitted at different ticks accumulate
    // distinct vruntime keys: (now - start) / weight.
    let mut rq = FairAlgorithm::new();
    rq.insert(Task::new(1, 100, 10, 5, 0, 1), 5); // key 5
    rq.insert(Task::new(2, 100, 10, 5, 0, 1), 2); // key 2
    rq.insert(Task::new(3, 100, 10, 5, 0, 1), 9); // key 9
    let first = rq.pop();
    assert_eq!(first.get_id(), 2);
    let second = rq.pop();
    assert_eq!(second.get_id(), 1);
    let third = rq.pop();
    assert_eq!(third.get_id(), 3);
    assert!(rq.is_empty());
}

#[test]
fn weight_monotonicity_heavier_task_accrues_slower() {
    // Same arrival, same configuration, weights 2 < 5: the heavier task's
    // vruntime delta is no larger, so it is selected first.
    let mut light = Task::new(1, 100, 10, 5, 0, 2);
    let mut heavy = Task::new(2, 100, 10, 5, 0, 5);
    assert_eq!(light.vruntime(10), 5); // (10 - 0) / 2
    assert_eq!(heavy.vruntime(10), 2); // (10 - 0) / 5

    let mut rq = FairAlgorithm::new();
    rq.insert(Task::new(1, 100, 10, 5, 0, 2), 10);
    rq.insert(Task::new(2, 100, 10, 5, 0, 5), 10);
    assert_eq!(rq.pop().get_id(), 2);
}

#[test]
fn vruntime_formula_exact_and_cumulative() {
    // vruntime accumulates (now - start_time) / weight with integer
    // division, measured from the original arrival time at every call.
    let mut task = Task::new(1, 100, 10, 5, 3, 4);
    assert_eq!(task.vruntime(13), 2); // (13 - 3) / 4 = 2
    assert_eq!(task.vruntime(23), 7); // 2 + (23 - 3) / 4 = 7
}

#[test]
fn vruntime_wraps_when_clock_lags_arrival() {
    // A task inserted before its recorded arrival tick wraps around and
    // lands at the very back of the ready order.
    let mut task = Task::new(1, 100, 10, 5, 5, 1);
    assert_eq!(task.vruntime(4), u64::MAX);
}

#[test]
fn termination_is_reached_and_permanent() {
    let mut task = Task::new(1, 3, 10, 5, 0, 1);
    task.run();
    assert_eq!(task.get_status(), TaskStatus::Running);

    task.cpu_cycle();
    assert_eq!(task.get_runtime(), 1);
    assert_eq!(task.get_status(), TaskStatus::Running);
    task.cpu_cycle();
    assert_eq!(task.get_runtime(), 2);
    assert_eq!(task.get_status(), TaskStatus::Running);
    task.cpu_cycle();
    assert_eq!(task.get_runtime(), 3);
    assert_eq!(task.get_status(), TaskStatus::Terminated);

    // Further cycles on a Terminated task are guarded no-ops.
    task.cpu_cycle();
    task.io_cycle();
    assert_eq!(task.get_status(), TaskStatus::Terminated);
    assert_eq!(task.get_runtime(), 3);
}

#[test]
fn burst_boundary_sends_task_idle_exactly_at_multiples() {
    let mut task = Task::new(1, 10, 3, 5, 0, 1);
    task.run();
    task.cpu_cycle();
    assert_eq!(task.get_status(), TaskStatus::Running); // runtime 1
    task.cpu_cycle();
    assert_eq!(task.get_status(), TaskStatus::Running); // runtime 2
    task.cpu_cycle();
    assert_eq!(task.get_status(), TaskStatus::Idle); // runtime 3 == 1 * 3
    assert_eq!(task.get_runtime(), 3);
}

#[test]
fn io_completes_exactly_after_burst_length_cycles() {
    let mut task = Task::new(1, 10, 3, 4, 0, 1);
    task.to_idle();
    for expected in 1..4u64 {
        task.io_cycle();
        assert_eq!(task.get_status(), TaskStatus::Idle);
        let _ = expected;
    }
    task.io_cycle(); // the 4th cycle completes the burst
    assert_eq!(task.get_status(), TaskStatus::Waiting);
    // idle_time reset is observable through the next I/O wait: it again
    // takes exactly 4 cycles.
    task.run();
    task.to_idle();
    for _ in 0..3 {
        task.io_cycle();
        assert_eq!(task.get_status(), TaskStatus::Idle);
    }
    task.io_cycle();
    assert_eq!(task.get_status(), TaskStatus::Waiting);
}

#[test]
fn queue_round_trip_partitions_by_ascending_start_time() {
    let mut queue = TaskQueue::new();
    queue.add(Task::new(1, 10, 5, 5, 7, 1));
    queue.add(Task::new(2, 10, 5, 5, 3, 1));
    queue.add(Task::new(3, 10, 5, 5, 7, 1));
    queue.add(Task::new(4, 10, 5, 5, 5, 1));

    let batch = queue.pop();
    assert_eq!(batch.len(), 1);
    assert_eq!(batch[0].get_id(), 2);
    assert_eq!(batch[0].get_start_time(), 3);

    let batch = queue.pop();
    assert_eq!(batch.len(), 1);
    assert_eq!(batch[0].get_id(), 4);
    assert_eq!(batch[0].get_start_time(), 5);

    let batch = queue.pop();
    assert_eq!(batch.len(), 2);
    assert_eq!(batch[0].get_id(), 1);
    assert_eq!(batch[1].get_id(), 3);
    assert_eq!(batch[0].get_start_time(), 7);
    assert_eq!(batch[1].get_start_time(), 7);

    assert!(queue.is_empty());
    assert_eq!(queue.pop().len(), 0);
}

#[test]
fn queue_drops_idle_and_terminated_arrivals() {
    let mut queue = TaskQueue::new();
    let mut idle_task = Task::new(1, 10, 5, 5, 1, 1);
    idle_task.to_idle();
    let mut dead_task = Task::new(2, 10, 5, 5, 1, 1);
    dead_task.terminate();
    queue.add(idle_task);
    queue.add(dead_task);
    assert!(queue.is_empty());
}

#[test]
fn queue_remove_missing_key_yields_empty_batch() {
    let mut queue = TaskQueue::new();
    queue.add(Task::new(1, 10, 5, 5, 4, 1));
    let batch = queue.remove(9);
    assert_eq!(batch.len(), 0);
    assert!(!queue.is_empty());
    let batch = queue.remove(4);
    assert_eq!(batch.len(), 1);
    assert!(queue.is_empty());
}

#[test]
fn clock_counts_every_tick() {
    let mut clock = Clock::new();
    assert_eq!(clock.time(), 0);
    for _ in 0..50 {
        clock.tick();
    }
    assert_eq!(clock.time(), 50);
    for _ in 0..50 {
        clock.tick();
    }
    assert_eq!(clock.time(), 100);
}

#[test]
fn fair_algorithm_routes_idle_and_drops_terminated() {
    let mut rq = FairAlgorithm::new();
    let mut dead = Task::new(1, 10, 5, 5, 0, 1);
    dead.terminate();
    rq.insert(dead, 0);
    assert!(rq.is_empty());
    assert!(rq.is_finished());

    let mut blocked = Task::new(2, 10, 5, 2, 0, 1);
    blocked.to_idle();
    rq.insert(blocked, 0);
    // The idle FIFO does not count as ready work, but it is unfinished work.
    assert!(rq.is_empty());
    assert!(!rq.is_finished());

    // Two idle services complete the I/O burst of length 2 and requeue the
    // task into the ready order.
    rq.idle(3);
    assert!(rq.is_empty());
    rq.idle(3);
    assert!(!rq.is_empty());
    let task = rq.pop();
    assert_eq!(task.get_id(), 2);
    assert_eq!(task.get_status(), TaskStatus::Running);
    assert!(rq.is_finished());
}

#[test]
fn fair_run_executes_one_cycle_and_requeues() {
    let mut rq = FairAlgorithm::new();
    rq.insert(Task::new(1, 10, 3, 5, 0, 1), 0);
    rq.run(0);
    assert!(!rq.is_empty());
    let task = rq.pop();
    assert_eq!(task.get_runtime(), 1);
    assert!(rq.is_finished());
}

#[test]
fn scheduler_drives_two_tasks_to_completion() {
    let mut sched = Scheduler::new();
    let mut clock = Clock::new();
    let births = vec![Task::new(1, 3, 2, 1, 0, 1), Task::new(2, 2, 5, 5, 1, 1)];
    let mut next_birth = 0;

    let mut ran_one = false;
    let mut ran_two = false;
    let mut finished = false;
    for _ in 0..100 {
        let time = clock.time();
        let born = if next_birth < births.len() && births[next_birth].get_start_time() <= time {
            next_birth += 1;
            Some(births[next_birth - 1])
        } else {
            None
        };
        let pending_empty = next_birth == births.len();
        let (ran, done) = sched.step(born, time, pending_empty);
        match ran {
            Some(1) => ran_one = true,
            Some(2) => ran_two = true,
            _ => {}
        }
        clock.tick();
        if done {
            finished = true;
            break;
        }
    }
    assert!(ran_one);
    assert!(ran_two);
    assert!(finished);
}
