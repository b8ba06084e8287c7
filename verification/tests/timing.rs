use jrinx_core::platform::{Platform, TrapOutcome, TrapReason};
use jrinx_core::timed_event::{EventOp, TimedEventHandler, TimedEventQueue, TimedEventTracker};

const SECOND: u64 = 1_000_000_000;

#[test]
fn queue_keeps_deadline_order() {
    let mut q = TimedEventQueue::new();
    let handler = TimedEventHandler::new(EventOp::Noop, EventOp::Noop);
    q.create(30, handler);
    q.create(10, handler);
    q.create(20, handler);
    let deadlines: Vec<u64> = q.events.iter().map(|e| e.deadline).collect();
    assert_eq!(deadlines, vec![10, 20, 30]);
}

#[test]
fn queue_equal_deadlines_fire_in_creation_order() {
    let mut q = TimedEventQueue::new();
    let a = q.create(10, TimedEventHandler::new(EventOp::Record(1), EventOp::Noop));
    let b = q.create(10, TimedEventHandler::new(EventOp::Record(2), EventOp::Noop));
    assert!(a < b);
    assert_eq!(q.events[0].id, a);
    assert_eq!(q.events[1].id, b);
}

#[test]
fn peek_outdated_sees_only_due_events() {
    let mut q = TimedEventQueue::new();
    let handler = TimedEventHandler::new(EventOp::Noop, EventOp::Noop);
    q.create(50, handler);
    assert!(q.peek_outdated(49).is_none());
    let ev = q.peek_outdated(50).unwrap();
    assert_eq!(ev.deadline, 50);
}

#[test]
fn drain_returns_due_prefix_in_order() {
    let mut q = TimedEventQueue::new();
    let handler = TimedEventHandler::new(EventOp::Noop, EventOp::Noop);
    q.create(30, handler);
    q.create(10, handler);
    q.create(20, handler);
    q.create(40, handler);
    let fired = q.drain_outdated(25);
    let deadlines: Vec<u64> = fired.iter().map(|e| e.deadline).collect();
    assert_eq!(deadlines, vec![10, 20]);
    assert_eq!(q.events.len(), 2);
    assert_eq!(q.next_deadline(), Some(30));
}

#[test]
fn timed_event_ordering() {
    // Events created at now+3s, now+2s, now+1s fire as [1, 2, 3] over
    // three timer interrupts.
    let mut platform = Platform::new();
    let now: u64 = 0;
    for i in (1..=3u64).rev() {
        let mut q = platform.timed_queues.remove(0);
        q.create(
            now + i * SECOND,
            TimedEventHandler::new(EventOp::Record(i), EventOp::Noop),
        );
        platform.timed_queues.insert(0, q);
    }
    for i in 1..=3u64 {
        let next = platform.timer_interrupt(0, now + i * SECOND);
        assert_eq!(platform.event_log.len() as u64, i);
        if i < 3 {
            assert_eq!(next, Some(now + (i + 1) * SECOND));
        } else {
            assert_eq!(next, None);
        }
    }
    assert_eq!(platform.event_log, vec![1, 2, 3]);
    assert_eq!(platform.timer_int_count, 3);
}

#[test]
fn timed_event_cancel() {
    // A cancelled event runs its cancellation action exactly once, never
    // fires, and leaves nothing outdated behind.
    let mut platform = Platform::new();
    let now: u64 = 0;
    let mut q = platform.timed_queues.remove(0);
    let id = q.create(
        now + SECOND,
        TimedEventHandler::new(EventOp::Record(7), EventOp::Record(9)),
    );
    platform.timed_queues.insert(0, q);

    let tracker = TimedEventTracker { cpu_id: 0, event_id: id };
    platform.cancel_timed_event(tracker).unwrap();
    assert_eq!(platform.event_log, vec![9]);
    assert!(platform.timed_queues[0].peek_outdated(now + 2 * SECOND).is_none());

    // Cancelling again reports the invalid status and records nothing.
    assert!(platform.cancel_timed_event(tracker).is_err());
    assert_eq!(platform.event_log, vec![9]);

    // The timer fires nothing afterwards.
    platform.timer_interrupt(0, now + 2 * SECOND);
    assert_eq!(platform.event_log, vec![9]);
}

#[test]
fn trap_dispatch_decodes_causes() {
    let mut platform = Platform::new();
    match platform.handle_trap(0, TrapReason::SoftwareInterrupt, 5) {
        TrapOutcome::Soft => {}
        _ => panic!("software interrupt must decode to Soft"),
    }
    assert_eq!(platform.count(), 1);
    match platform.handle_trap(0, TrapReason::TimerInterrupt, 5) {
        TrapOutcome::Timer { next_deadline } => assert_eq!(next_deadline, None),
        _ => panic!("timer interrupt must decode to Timer"),
    }
    assert_eq!(platform.timer_int_count, 1);
    match platform.handle_trap(0, TrapReason::Breakpoint, 5) {
        TrapOutcome::Fatal(TrapReason::Breakpoint) => {}
        _ => panic!("breakpoint must be fatal"),
    }
}
