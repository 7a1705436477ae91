use http_server_lib::server::task::{Task, TaskId};
use http_server_lib::server::queue::Queue;
use http_server_lib::server::executor::{Executor, TASK_CAPACITY};

#[test]
fn queue_is_first_in_first_out() {
    let mut q = Queue::new(2);
    assert!(q.is_empty());
    assert_eq!(q.push(TaskId(1)), Ok(()));
    assert_eq!(q.push(TaskId(2)), Ok(()));
    assert_eq!(q.push(TaskId(3)), Err("Queue is at max capacity!"));
    assert_eq!(q.len(), 2);
    assert_eq!(q.pop(), Some(TaskId(1)));
    assert_eq!(q.pop(), Some(TaskId(2)));
    assert_eq!(q.pop(), None);
    assert!(q.is_empty());
}

#[test]
fn test_exec_spawn() {
    let mut exec: Executor<&str> = Executor::new();
    exec.spawn(Task::new(TaskId(0), "Hello World!"));
    let mut ran = Vec::new();
    while exec.has_ready() {
        if let Some(task) = exec.next_task() {
            ran.push(task.future);
        }
    }
    assert_eq!(ran, vec!["Hello World!"]);
}

#[test]
fn executor_runs_tasks_in_queue_order() {
    let mut exec: Executor<u32> = Executor::new();
    exec.spawn(Task::new(TaskId(5), 50));
    exec.spawn(Task::new(TaskId(3), 30));
    let t = exec.next_task().unwrap();
    assert_eq!(t.id, TaskId(5));
    exec.put_back(t);
    assert_eq!(exec.wake(TaskId(5)), Ok(()));
    assert_eq!(exec.next_task().unwrap().future, 30);
    assert_eq!(exec.next_task().unwrap().future, 50);
    assert!(exec.next_task().is_none());
    assert!(exec.wake(TaskId(9)).is_ok());
    assert!(exec.next_task().is_none());
    assert!(!exec.has_ready());
}

#[test]
fn the_ready_queue_is_bounded() {
    let mut exec: Executor<()> = Executor::new();
    let mut i: u64 = 0;
    while (i as usize) < TASK_CAPACITY {
        assert!(exec.wake(TaskId(i)).is_ok());
        i += 1;
    }
    assert!(exec.wake(TaskId(i)).is_err());
}
