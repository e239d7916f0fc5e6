use vstd::prelude::*;

verus! {

/// The longest a sweep may run before it is cancelled, in milliseconds.
pub const MAX_SWEEP_MILLIS: u64 = 10000;

/// The least time between the starts of two sweeps, in milliseconds.
pub const MIN_TRIGGER_SPACING_MILLIS: u64 = 1000;

/// The job that a schedule tick asks for: one sweep of all checks.
#[derive(Clone, Copy, Debug, Default)]
pub struct Sweep;

/// Whether a sweep is running, and since when.
#[derive(Clone, Copy, Debug, PartialEq, Eq, Structural)]
pub enum SchedulerPhase {
    Idle,
    Sweeping { started_at: u64 },
}

/// What the scheduler is told. Times are milliseconds on a monotonic clock.
#[derive(Clone, Copy, Debug, PartialEq, Eq, Structural)]
pub enum SchedulerEvent {
    /// The cron schedule fired.
    Tick { now: u64 },
    /// The running sweep returned.
    SweepReturned,
    /// Time passed; the scheduler may cancel an overdue sweep or start a
    /// deferred one.
    Clock { now: u64 },
}

/// What the scheduler asks its runner to do.
#[derive(Clone, Copy, Debug, PartialEq, Eq, Structural)]
pub enum SchedulerAction {
    /// Start a sweep, and cancel it if it has not returned within the timeout.
    StartSweep { timeout_millis: u64 },
    /// The tick is kept pending until a sweep may start.
    Defer,
    /// Cancel the running sweep: its deadline has passed.
    CancelSweep,
    /// The sweep is over: log its completion and the next scheduled tick.
    SweepDone,
    /// Nothing to do.
    Wait,
}

/// The scheduler's state: its phase, when the last sweep started, and
/// whether a tick is waiting for its turn.
pub struct Scheduler {
    phase: SchedulerPhase,
    last_start: Option<u64>,
    pending: bool,
}

/// The mathematical state of a scheduler.
pub struct SchedulerView {
    pub phase: SchedulerPhase,
    pub last_start: Option<u64>,
    pub pending: bool,
}

impl View for Scheduler {
    type V = SchedulerView;

    closed spec fn view(&self) -> SchedulerView {
        SchedulerView { phase: self.phase, last_start: self.last_start, pending: self.pending }
    }
}

/// A running sweep is the one that started last.
pub open spec fn sched_wf(s: SchedulerView) -> bool {
    match s.phase {
        SchedulerPhase::Sweeping { started_at } => s.last_start == Some(started_at),
        SchedulerPhase::Idle => true,
    }
}

/// The scheduler before any tick.
pub open spec fn initial() -> SchedulerView {
    SchedulerView { phase: SchedulerPhase::Idle, last_start: None, pending: false }
}

/// The minimum spacing has passed since the last start, if any.
pub open spec fn spacing_elapsed(s: SchedulerView, now: u64) -> bool {
    match s.last_start {
        Some(t) => now >= t + MIN_TRIGGER_SPACING_MILLIS,
        None => true,
    }
}

/// The state right after a sweep starts at `now`.
pub open spec fn started(now: u64) -> SchedulerView {
    SchedulerView {
        phase: SchedulerPhase::Sweeping { started_at: now },
        last_start: Some(now),
        pending: false,
    }
}

/// The effect of one event on the scheduler, and the action it calls for.
pub open spec fn sched_next(s: SchedulerView, e: SchedulerEvent) -> (SchedulerView, SchedulerAction) {
    match e {
        SchedulerEvent::Tick { now } => {
            if s.phase is Idle && spacing_elapsed(s, now) {
                (started(now), SchedulerAction::StartSweep { timeout_millis: MAX_SWEEP_MILLIS })
            } else {
                (SchedulerView { pending: true, ..s }, SchedulerAction::Defer)
            }
        },
        SchedulerEvent::SweepReturned => {
            if s.phase is Sweeping {
                (SchedulerView { phase: SchedulerPhase::Idle, ..s }, SchedulerAction::SweepDone)
            } else {
                (s, SchedulerAction::Wait)
            }
        },
        SchedulerEvent::Clock { now } => match s.phase {
            SchedulerPhase::Sweeping { started_at } => {
                if now >= started_at + MAX_SWEEP_MILLIS {
                    (
                        SchedulerView { phase: SchedulerPhase::Idle, ..s },
                        SchedulerAction::CancelSweep,
                    )
                } else {
                    (s, SchedulerAction::Wait)
                }
            },
            SchedulerPhase::Idle => {
                if s.pending && spacing_elapsed(s, now) {
                    (
                        started(now),
                        SchedulerAction::StartSweep { timeout_millis: MAX_SWEEP_MILLIS },
                    )
                } else {
                    (s, SchedulerAction::Wait)
                }
            },
        },
    }
}

/// The time an event carries, where it carries one.
pub open spec fn event_time(e: SchedulerEvent) -> Option<u64> {
    match e {
        SchedulerEvent::Tick { now } => Some(now),
        SchedulerEvent::Clock { now } => Some(now),
        SchedulerEvent::SweepReturned => None,
    }
}

impl Scheduler {
    /// An idle scheduler that has never started a sweep.
    pub fn new() -> (r: Scheduler)
        ensures
            r@ == initial(),
            sched_wf(r@),
    {
        Scheduler { phase: SchedulerPhase::Idle, last_start: None, pending: false }
    }

    fn spacing_elapsed(&self, now: u64) -> (r: bool)
        ensures
            r == spacing_elapsed(self@, now),
    {
        match self.last_start {
            Some(t) => now >= t && now - t >= MIN_TRIGGER_SPACING_MILLIS,
            None => true,
        }
    }

    fn start(&mut self, now: u64) -> (a: SchedulerAction)
        ensures
            final(self)@ == started(now),
            a == (SchedulerAction::StartSweep { timeout_millis: MAX_SWEEP_MILLIS }),
    {
        self.phase = SchedulerPhase::Sweeping { started_at: now };
        self.last_start = Some(now);
        self.pending = false;
        SchedulerAction::StartSweep { timeout_millis: MAX_SWEEP_MILLIS }
    }

    /// Applies one event and returns the action it calls for.
    pub fn step(&mut self, e: SchedulerEvent) -> (a: SchedulerAction)
        ensures
            (final(self)@, a) == sched_next(old(self)@, e),
            sched_wf(old(self)@) ==> sched_wf(final(self)@),
    {
        match e {
            SchedulerEvent::Tick { now } => {
                if matches!(self.phase, SchedulerPhase::Idle) && self.spacing_elapsed(now) {
                    self.start(now)
                } else {
                    self.pending = true;
                    SchedulerAction::Defer
                }
            },
            SchedulerEvent::SweepReturned => {
                if matches!(self.phase, SchedulerPhase::Sweeping { .. }) {
                    self.phase = SchedulerPhase::Idle;
                    SchedulerAction::SweepDone
                } else {
                    SchedulerAction::Wait
                }
            },
            SchedulerEvent::Clock { now } => match self.phase {
                SchedulerPhase::Sweeping { started_at } => {
                    if now >= started_at && now - started_at >= MAX_SWEEP_MILLIS {
                        self.phase = SchedulerPhase::Idle;
                        SchedulerAction::CancelSweep
                    } else {
                        SchedulerAction::Wait
                    }
                },
                SchedulerPhase::Idle => {
                    if self.pending && self.spacing_elapsed(now) {
                        self.start(now)
                    } else {
                        SchedulerAction::Wait
                    }
                },
            },
        }
    }

    /// Whether no sweep is running.
    pub fn is_idle(&self) -> (r: bool)
        ensures
            r == (self@.phase is Idle),
    {
        matches!(self.phase, SchedulerPhase::Idle)
    }

    /// Whether a deferred tick is waiting for its turn.
    pub fn has_pending(&self) -> (r: bool)
        ensures
            r == self@.pending,
    {
        self.pending
    }
}

/// A sweep starts only while none is running and only once the minimum
/// spacing has passed since the previous start; the start becomes the
/// previous start. Any other event leaves the previous start as it was. So
/// sweeps never overlap, and no two starts are closer than the spacing.
pub proof fn lemma_starts_are_spaced(s: SchedulerView, e: SchedulerEvent)
    requires
        sched_wf(s),
    ensures
        sched_wf(sched_next(s, e).0),
        sched_next(s, e).1 is StartSweep ==> (s.phase is Idle && event_time(e) is Some
            && spacing_elapsed(s, event_time(e)->0) && sched_next(s, e).0 == started(
            event_time(e)->0,
        )),
        !(sched_next(s, e).1 is StartSweep) ==> sched_next(s, e).0.last_start == s.last_start,
{
}

/// A tick that comes sooner than the minimum spacing after a tick that
/// started a sweep is deferred, not run beside the first.
pub proof fn lemma_close_tick_deferred(s: SchedulerView, t1: u64, t2: u64)
    requires
        sched_next(s, (SchedulerEvent::Tick { now: t1 })).1 is StartSweep,
        t2 < t1 + MIN_TRIGGER_SPACING_MILLIS,
    ensures
        sched_next(sched_next(s, (SchedulerEvent::Tick { now: t1 })).0, (SchedulerEvent::Tick { now: t2 })).1
            == SchedulerAction::Defer,
{
}

/// A sweep that has run for the maximum duration is cancelled at the next
/// clock event, the scheduler is idle again, and the next tick, at that time
/// or later, starts a new sweep.
pub proof fn lemma_sweep_bounded(s: SchedulerView, now: u64, later: u64)
    requires
        sched_wf(s),
        s.phase is Sweeping,
        now >= s.phase->started_at + MAX_SWEEP_MILLIS,
        later >= now,
    ensures
        sched_next(s, (SchedulerEvent::Clock { now })).1 == SchedulerAction::CancelSweep,
        sched_next(s, (SchedulerEvent::Clock { now })).0.phase is Idle,
        sched_wf(sched_next(s, (SchedulerEvent::Clock { now })).0),
        sched_next(sched_next(s, (SchedulerEvent::Clock { now })).0, (SchedulerEvent::Tick { now: later })).1
            == (SchedulerAction::StartSweep { timeout_millis: MAX_SWEEP_MILLIS }),
{
}

} // verus!
