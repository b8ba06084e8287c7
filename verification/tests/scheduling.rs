use jrinx_core::executor::{Executor, ExecutorStatus, Task, TaskPriority};
use jrinx_core::inspector::{Inspector, InspectorMode, InspectorStatus};
use jrinx_core::platform::Platform;
use jrinx_core::runtime::{Runtime, RuntimeStatus};

#[test]
fn executor_runs_highest_priority_task_first() {
    let mut ex = Executor::new(1, 0, 0);
    ex.spawn(Task { id: 1, priority: 1, yields_left: 0 });
    ex.spawn(Task { id: 2, priority: 9, yields_left: 0 });
    ex.spawn(Task { id: 3, priority: 5, yields_left: 0 });
    ex.step();
    assert_eq!(ex.current_task_priority(), 9);
    ex.step();
    assert_eq!(ex.current_task_priority(), 5);
    ex.step();
    assert_eq!(ex.current_task_priority(), 1);
    assert_eq!(ex.status, ExecutorStatus::Finished);
}

#[test]
fn executor_requeues_yielding_task() {
    let mut ex = Executor::new(1, 0, 0);
    ex.spawn(Task { id: 1, priority: 3, yields_left: 2 });
    ex.step();
    assert_eq!(ex.status, ExecutorStatus::Runnable);
    assert_eq!(ex.tasks[0].yields_left, 1);
    ex.step();
    ex.step();
    assert_eq!(ex.status, ExecutorStatus::Finished);
    assert!(ex.tasks.is_empty());
}

#[test]
fn task_priority_wrapper_holds_value() {
    assert_eq!(TaskPriority::new(10).value, 10);
}

#[test]
fn inspector_rejects_duplicate_executors() {
    let root = Executor::new(7, 0, 0);
    let mut inspector = Inspector::new(1, InspectorMode::Bootstrap, root);
    let dup = Executor::new(7, 0, 0);
    assert!(inspector.register_executor(dup).is_err());
    let other = Executor::new(8, 0, 0);
    assert!(inspector.register_executor(other).is_ok());
    assert!(inspector.unregister_executor(8).is_ok());
    assert!(inspector.unregister_executor(99).is_err());
}

#[test]
fn inspector_run_finishes_when_tasks_complete() {
    let mut root = Executor::new(1, 0, 0);
    root.spawn(Task { id: 1, priority: 5, yields_left: 3 });
    root.spawn(Task { id: 2, priority: 2, yields_left: 1 });
    let mut inspector = Inspector::new(1, InspectorMode::Bootstrap, root);
    inspector.run();
    assert_eq!(inspector.status(), InspectorStatus::Finished);
    assert!(inspector.is_empty());
}

#[test]
fn runtime_outer_loop_returns_when_all_tasks_complete() {
    // Scheduler liveness: in Bootstrap mode, once every spawned task
    // completes, the runtime's outer loop returns at Endpoint.
    let mut ex_a = Executor::new(1, 4, 0);
    ex_a.spawn(Task { id: 1, priority: 5, yields_left: 10 });
    ex_a.spawn(Task { id: 2, priority: 1, yields_left: 0 });
    let mut ex_b = Executor::new(2, 9, 0);
    ex_b.spawn(Task { id: 3, priority: 3, yields_left: 4 });
    let mut inspector = Inspector::new(1, InspectorMode::Bootstrap, ex_a);
    inspector.register_executor(ex_b).unwrap();
    let mut runtime = Runtime::new(0, 0);
    runtime.register_inspector(inspector).unwrap();
    runtime.start();
    assert_eq!(runtime.status(), RuntimeStatus::Endpoint);
    assert!(runtime.inspectors.is_empty());
}

#[test]
fn runtime_rejects_duplicate_inspectors() {
    let mut runtime = Runtime::new(0, 0);
    let a = Inspector::new(4, InspectorMode::Bootstrap, Executor::new(1, 0, 0));
    let b = Inspector::new(4, InspectorMode::Bootstrap, Executor::new(2, 0, 0));
    assert!(runtime.register_inspector(a).is_ok());
    assert!(runtime.register_inspector(b).is_err());
}

#[test]
fn policy_priority_reads_running_chain_or_maximum() {
    let mut runtime = Runtime::new(0, 0);
    // Not running: the policy treats the hart as idle-unavailable.
    assert_eq!(runtime.policy_priority(), 255);
    assert!(runtime.current_task_priority().is_err());

    let mut ex = Executor::new(3, 0, 0);
    ex.spawn(Task { id: 1, priority: 7, yields_left: 1 });
    ex.step();
    let mut inspector = Inspector::new(9, InspectorMode::Bootstrap, ex);
    inspector.status = InspectorStatus::Running(3);
    runtime.register_inspector(inspector).unwrap();
    runtime.status = RuntimeStatus::Running(9);
    assert_eq!(runtime.policy_priority(), 7);
    assert_eq!(runtime.current_task_priority().unwrap(), 7);
}

#[test]
fn scheduler_ids_are_process_wide_and_distinct() {
    let mut platform = Platform::new();
    let a = platform.fresh_inspector_id();
    let b = platform.fresh_inspector_id();
    let c = platform.fresh_inspector_id();
    assert_ne!(a, b);
    assert_ne!(b, c);
    assert_ne!(a, c);
    // Counters of different kinds are independent.
    assert_eq!(platform.fresh_executor_id(), 0);
    assert_eq!(platform.fresh_task_id(), 0);
    assert_eq!(platform.fresh_task_id(), 1);
}
