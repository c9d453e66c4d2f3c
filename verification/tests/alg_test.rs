use completely_fair_scheduler::queue::TaskQueue;
use completely_fair_scheduler::task::Task;
use completely_fair_scheduler::clock::Clock;
use completely_fair_scheduler::fair::FairAlgorithm;

#[test]
fn test_no_update() {
    // Create 6 tasks
    let task_one = Task::new(1, 13191, 10, 5, 1, 5);
    let task_two = Task::new(2, 13289, 10, 5, 1, 4);
    let task_three = Task::new(3, 139, 10, 5, 2, 8);
    let task_four = Task::new(4, 31921, 5, 10, 3, 4);
    let task_five = Task::new(5, 3874, 7, 3, 5, 2);
    let task_six = Task::new(6, 17013, 10, 6, 5, 5);

    // Create a new task queue
    let mut task_queue = TaskQueue::new();

    // Append the tasks to the task queue
    task_queue.append(&[
        task_one, task_two, task_three, task_four, task_five, task_six,
    ]);

    // Create a system clock and a fair scheduling algorithm
    let mut sysclock = Clock::new();
    let mut rq = FairAlgorithm::new();

    // Advance the system clock
    sysclock.tick();

    // While the task queue is not empty, pop tasks and add to the fair scheduling algorithm
    while !task_queue.is_empty() {
        let tasks = task_queue.pop();
        rq.push(tasks, sysclock.time());
        sysclock.tick();
    }

    // Pop the first task from the fair scheduling algorithm
    let first = rq.pop();
    // Check if the id of the first task is equal to 1
    assert_eq!(first.get_id(), 1);

    // Advance the system clock
    sysclock.tick();

    // Pop the second task from the fair scheduling algorithm
    let second = rq.pop();
    // Check if the id of the second task is equal to 2
    assert_eq!(second.get_id(), 2);

    // Advance the system clock
    sysclock.tick();

    // Pop the third task from the fair scheduling algorithm
    let third = rq.pop();
    // Check if the id of the third task is equal to 3
    assert_eq!(third.get_id(), 3);
}

#[test]
fn test_with_update() {
    // Create task objects with specified properties
    let task_one = Task::new(1, 13191, 10, 5, 1, 5);
    let task_two = Task::new(2, 13289, 10, 5, 1, 4);
    let task_three = Task::new(3, 139, 10, 5, 2, 8);
    let task_four = Task::new(4, 31921, 5, 10, 3, 4);
    let task_five = Task::new(5, 3874, 7, 3, 5, 2);
    let task_six = Task::new(6, 17013, 10, 6, 5, 5);

    // Create a task queue and add all the task objects to it
    let mut task_queue = TaskQueue::new();
    task_queue.append(&[
        task_one, task_two, task_three, task_four, task_five, task_six,
    ]);

    // Create a system clock and a Fair Algorithm object
    let mut sysclock = Clock::new();
    let mut rq = FairAlgorithm::new();

    // Start ticking the system clock
    sysclock.tick();

    // Pop tasks and push them to the Fair Algorithm, ticking the clock after each batch
    while !task_queue.is_empty() {
        let tasks = task_queue.pop();
        rq.push(tasks, sysclock.time());
        sysclock.tick();
    }

    // Pop the first task from the Fair Algorithm and check if its id is 1
    let mut curr = rq.pop();
    assert_eq!(curr.get_id(), 1);

    // Perform a CPU cycle on the task, tick the clock, and reinsert the task
    curr.cpu_cycle();
    sysclock.tick();
    rq.insert(*curr, sysclock.time());

    // Pop the next task from the Fair Algorithm and check if its id is 2
    curr = rq.pop();
    assert_eq!(curr.get_id(), 2);

    // Perform a CPU cycle on the task, tick the clock, and reinsert the task
    curr.cpu_cycle();
    sysclock.tick();
    rq.insert(*curr, sysclock.time());

    // Pop the next task from the Fair Algorithm and check if its id is 3
    curr = rq.pop();
    assert_eq!(curr.get_id(), 3);
}
