use completely_fair_scheduler::task::{Task, TaskStatus};

#[test]
fn test_execute() {
    // Initialize a variable `x` with value 3
    let mut x = 3;

    // Create a vector to hold the tasks being driven
    let mut tasks: Vec<Task> = Vec::new();

    // Create two `Task` objects and push them into the vector
    tasks.push(Task::new(1, 5, 5, 0, 1, 1));
    tasks.push(Task::new(2, 10, 5, 0, 1, 1));

    // Keeps running tasks while there is any task in the task queue
    while tasks.len() > 0 {
        let y = tasks.len();

        // Vector to store the indices of tasks that need to be removed
        let mut to_remove: Vec<usize> = Vec::new();

        // Loop through all tasks
        for i in 0..y {
            println!("Performing sequence for task {:?}", tasks[i].get_id());

            // Check the task status and perform respective operations
            match tasks[i].get_status() {
                TaskStatus::Running => {
                    match tasks[i].get_id() {
                        1 => {
                            x = x + 1;
                            println!("Executing task 1");
                        }
                        id => println!("Executing task {:?}", id),
                    };
                    tasks[i].cpu_cycle();
                }
                TaskStatus::Waiting => {
                    tasks[i].run();
                }
                TaskStatus::Idle => {
                    tasks[i].io_cycle();
                }
                TaskStatus::New => {
                    tasks[i].schedule();
                }
                TaskStatus::Terminated => {
                    to_remove.push(i);
                }
            };
        }

        // Remove all terminated tasks from the task queue
        for idx in to_remove {
            tasks.remove(idx);
        }
    }

    println!("All tasks terminated");

    assert_eq!(x, 8);
}

#[test]
fn test_preempt() {
    let mut x = 3;

    let mut tasks: Vec<Task> = Vec::new();

    let mut my_task = Task::new(1, 8, 2, 5, 1, 1);
    let mut other_task = Task::new(2, 10, 7, 3, 1, 1);

    my_task.schedule();
    other_task.schedule();

    tasks.push(my_task);
    tasks.push(other_task);

    while tasks.len() > 0 {
        let y = tasks.len();
        let mut to_remove: Vec<usize> = Vec::new();

        let min_key = {
            let mut min_key = 0;
            for i in 1..y {
                if tasks[i].get_runtime() < tasks[min_key].get_runtime() {
                    if tasks[min_key].get_status() == TaskStatus::Running {
                        tasks[min_key].schedule(); // preempt
                    }

                    min_key = i;
                }
            }
            println!("Performing sequence for task {:?}", tasks[min_key].get_id());
            min_key
        };

        // If the task's status is "Waiting", run the task.
        if tasks[min_key].get_status() == TaskStatus::Waiting {
            tasks[min_key].run();
        }

        // If the task's status is "Running", execute the task's code.
        if tasks[min_key].get_status() == TaskStatus::Running {
            match tasks[min_key].get_id() {
                1 => {
                    x = x + 1;
                }
                id => println!("Executing task {:?}", id),
            };
            tasks[min_key].cpu_cycle();
        }

        // Check all tasks for termination or idle status.
        for i in 0..y {
            if tasks[i].get_status() == TaskStatus::Terminated {
                to_remove.push(i);
            }
            if tasks[i].get_status() == TaskStatus::Idle {
                tasks[i].io_cycle();
            }
        }

        // Remove all terminated tasks from the vector.
        for idx in to_remove {
            tasks.remove(idx);
        }
    }

    println!("All tasks terminated");

    assert_eq!(x, 11);
}
