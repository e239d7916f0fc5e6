use a10y::config::Secret;
use a10y::schedule::{Scheduler, SchedulerAction, SchedulerEvent, MAX_SWEEP_MILLIS, MIN_TRIGGER_SPACING_MILLIS};

const START: SchedulerAction = SchedulerAction::StartSweep { timeout_millis: 10000 };

#[test]
fn fixed_limits() {
    assert_eq!(MAX_SWEEP_MILLIS, 10000);
    assert_eq!(MIN_TRIGGER_SPACING_MILLIS, 1000);
}

#[test]
fn first_tick_starts_a_sweep() {
    let mut s = Scheduler::new();
    assert!(s.is_idle());
    assert_eq!(s.step(SchedulerEvent::Tick { now: 15000 }), START);
    assert!(!s.is_idle());
    assert_eq!(s.step(SchedulerEvent::SweepReturned), SchedulerAction::SweepDone);
    assert!(s.is_idle());
    assert_eq!(s.step(SchedulerEvent::SweepReturned), SchedulerAction::Wait);
}

#[test]
fn close_ticks_do_not_overlap() {
    let mut s = Scheduler::new();
    assert_eq!(s.step(SchedulerEvent::Tick { now: 0 }), START);
    assert_eq!(s.step(SchedulerEvent::Tick { now: 400 }), SchedulerAction::Defer);
    assert!(s.has_pending());
    assert_eq!(s.step(SchedulerEvent::SweepReturned), SchedulerAction::SweepDone);
    // finished, but still inside the spacing: the tick stays deferred
    assert_eq!(s.step(SchedulerEvent::Tick { now: 999 }), SchedulerAction::Defer);
    assert_eq!(s.step(SchedulerEvent::Clock { now: 999 }), SchedulerAction::Wait);
    assert_eq!(s.step(SchedulerEvent::Clock { now: 1000 }), START);
    assert!(!s.has_pending());
}

#[test]
fn overdue_sweep_is_cancelled() {
    let mut s = Scheduler::new();
    assert_eq!(s.step(SchedulerEvent::Tick { now: 5000 }), START);
    assert_eq!(s.step(SchedulerEvent::Clock { now: 14999 }), SchedulerAction::Wait);
    assert_eq!(s.step(SchedulerEvent::Clock { now: 15000 }), SchedulerAction::CancelSweep);
    assert!(s.is_idle());
    assert_eq!(s.step(SchedulerEvent::SweepReturned), SchedulerAction::Wait);
    assert_eq!(s.step(SchedulerEvent::Tick { now: 15000 }), START);
}

#[test]
fn idle_clock_without_pending_tick_waits() {
    let mut s = Scheduler::new();
    assert_eq!(s.step(SchedulerEvent::Clock { now: 100 }), SchedulerAction::Wait);
    assert!(s.is_idle());
}

#[test]
fn secret_debug_hides_value() {
    let s = Secret { value: "hunter2".to_string() };
    assert_eq!(s.redacted(), "Secret { value: \"<REDACTED>\" }");
    assert!(!s.redacted().contains(&s.value));
}

#[test]
fn tick_after_cancel_starts_next_sweep() {
    let mut s = Scheduler::new();
    assert_eq!(s.step(SchedulerEvent::Tick { now: 0 }), START);
    assert_eq!(s.step(SchedulerEvent::Tick { now: 9000 }), SchedulerAction::Defer);
    assert_eq!(s.step(SchedulerEvent::Clock { now: 10000 }), SchedulerAction::CancelSweep);
    assert_eq!(s.step(SchedulerEvent::Clock { now: 10000 }), START);
}
