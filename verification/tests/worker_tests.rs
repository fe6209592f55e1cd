use spindle::worker::Worker;
use spindle::worker::WorkerState;

fn run_all(worker: &mut Worker) -> Vec<u64> {
    let mut order = Vec::new();
    while let Some(task) = worker.run_once() {
        order.push(task);
    }
    worker.set_state(WorkerState::Stopped);
    order
}

#[test]
fn worker_test_worker_creation() {
    let worker = Worker::new(0);
    assert_eq!(worker.id(), 0);
    assert_eq!(worker.state(), WorkerState::Idle);
}

#[test]
fn worker_test_worker_next_priority() {
    let mut worker = Worker::new(0);
    worker.push(1);
    worker.set_next(2);
    assert_eq!(worker.run_once(), Some(2));
    assert_eq!(worker.state(), WorkerState::Running);
}

#[test]
fn worker_tests_test_worker_creation() {
    let worker = Worker::new(0);
    assert_eq!(worker.id(), 0);
    assert_eq!(worker.state(), WorkerState::Idle);
}

#[test]
fn test_worker_multiple_ids() {
    let worker1 = Worker::new(0);
    let worker2 = Worker::new(1);
    let worker3 = Worker::new(42);

    assert_eq!(worker1.id(), 0);
    assert_eq!(worker2.id(), 1);
    assert_eq!(worker3.id(), 42);
}

#[test]
fn test_worker_state_transitions() {
    let mut worker = Worker::new(0);

    assert_eq!(worker.state(), WorkerState::Idle);

    worker.set_state(WorkerState::Running);
    assert_eq!(worker.state(), WorkerState::Running);

    worker.set_state(WorkerState::Stopped);
    assert_eq!(worker.state(), WorkerState::Stopped);

    worker.set_state(WorkerState::Idle);
    assert_eq!(worker.state(), WorkerState::Idle);
}

#[test]
fn test_worker_push_and_run() {
    let mut worker = Worker::new(0);
    worker.push(7);
    let ran = worker.run_once();
    assert!(ran.is_some(), "Worker should have run a task");
    assert_eq!(ran, Some(7), "Task should have been executed");
}

#[test]
fn worker_tests_test_worker_next_priority() {
    let mut worker = Worker::new(0);
    worker.push(100);
    worker.set_next(200);
    let order = run_all(&mut worker);
    assert_eq!(order[0], 200);
}

#[test]
fn test_worker_next_replacement() {
    let mut worker = Worker::new(0);
    worker.set_next(1);
    worker.set_next(2);
    let first = worker.run_once().unwrap();
    let second = worker.run_once().unwrap();
    let order = vec![first, second];
    assert_eq!(order.len(), 2);
    assert_eq!(order[0], 2);
    assert_eq!(order[1], 1);
}

#[test]
fn test_worker_multiple_tasks() {
    let mut worker = Worker::new(0);
    for i in 0..5 {
        worker.push(i);
    }
    let order = run_all(&mut worker);
    assert_eq!(order.len(), 5);
    assert_eq!(worker.state(), WorkerState::Stopped);
}

#[test]
fn test_worker_empty_queue() {
    let mut worker = Worker::new(0);
    let ran = worker.run_once();
    assert!(ran.is_none(), "Worker should not run when queue is empty");
    assert_eq!(worker.state(), WorkerState::Idle);
}

#[test]
fn test_worker_run_stops_when_empty() {
    let mut worker = Worker::new(0);
    worker.push(9);
    let order = run_all(&mut worker);
    assert_eq!(order.len(), 1);
    assert_eq!(worker.state(), WorkerState::Stopped);
}

#[test]
fn test_worker_state_changes_during_execution() {
    let mut worker = Worker::new(0);
    assert_eq!(worker.state(), WorkerState::Idle);
    worker.push(3);
    let ran = worker.run_once();
    assert!(ran.is_some());
    assert_eq!(worker.state(), WorkerState::Running);
}

#[test]
fn test_worker_fifo_order() {
    let mut worker = Worker::new(0);
    for i in 0..5 {
        worker.push(i);
    }
    let order = run_all(&mut worker);
    assert_eq!(order.len(), 5);
    assert_eq!(order, vec![0, 1, 2, 3, 4]);
}

#[test]
fn test_worker_mixed_next_and_queue() {
    let mut worker = Worker::new(0);
    for i in 1..=3 {
        worker.push(i);
    }
    worker.set_next(0);
    let order = run_all(&mut worker);
    assert_eq!(order.len(), 4);
    assert_eq!(order[0], 0);
    assert_eq!(order[1], 1);
    assert_eq!(order[2], 2);
    assert_eq!(order[3], 3);
}

#[test]
fn pending_task_pushed_back_runs_after_queue() {
    let mut worker = Worker::new(0);
    worker.push(1);
    worker.push(2);
    let t = worker.run_once().unwrap();
    worker.push(t);
    assert_eq!(run_all(&mut worker), vec![2, 1]);
}

#[test]
fn get_next_task_keeps_state() {
    let mut worker = Worker::new(5);
    worker.push(1);
    assert_eq!(worker.get_next_task(), Some(1));
    assert_eq!(worker.state(), WorkerState::Idle);
    assert_eq!(worker.get_next_task(), None);
}
