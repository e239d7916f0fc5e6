use vstd::prelude::*;
use std::sync::Arc;
use opentelemetry::metrics::Gauge;
use crate::check::HealthCheck;
use crate::classify::{acquire_hc_result, classification, ProbeOutcome};
use crate::status::status_ordinal;

verus! {

/// Declares opentelemetry's `Gauge`, the instrument that observations are
/// recorded into. The library only carries it; nothing is assumed of it.
#[verifier::external_type_specification]
#[verifier::external_body]
#[verifier::reject_recursive_types(T)]
pub struct ExGauge<T>(Gauge<T>);

/// Where one check stands within a sweep.
#[derive(Clone, Copy, Debug, PartialEq, Eq, Structural)]
pub enum ProbeSlot {
    /// Its probe has not reported yet.
    Pending,
    /// Its probe reported and this observation was recorded for it.
    Recorded { value: u64 },
    /// Its probe task failed; nothing is recorded for it this sweep.
    Faulted,
}

/// What happened to one sweep, as reported by whoever runs the probes.
#[derive(Clone, Copy, Debug, PartialEq, Eq, Structural)]
pub enum SweepEvent {
    /// The probe of check `index` finished with this outcome.
    ProbeFinished { index: usize, outcome: ProbeOutcome },
    /// The probe task of check `index` failed before producing an outcome.
    ProbeFaulted { index: usize },
    /// The overall sweep deadline passed.
    DeadlineExpired,
}

/// What the runner of a sweep must do in answer to an event.
#[derive(Clone, Copy, Debug, PartialEq, Eq, Structural)]
pub enum SweepAction {
    /// Record one observation with this value for check `index`.
    Record { index: usize, value: u64 },
    /// Log the failure of check `index`; record nothing for it.
    ReportFault { index: usize },
    /// Cancel the probes that are still outstanding; their results are dropped.
    AbandonPending,
    /// Nothing to do: the event was stale, repeated or out of range.
    Ignore,
}

/// The progress of one sweep: one slot per configured check, and whether the
/// overall deadline has passed.
pub struct SweepRun {
    slots: Vec<ProbeSlot>,
    expired: bool,
}

/// The mathematical state of a sweep.
pub struct SweepRunView {
    pub slots: Seq<ProbeSlot>,
    pub expired: bool,
}

impl View for SweepRun {
    type V = SweepRunView;

    closed spec fn view(&self) -> SweepRunView {
        SweepRunView { slots: self.slots@, expired: self.expired }
    }
}

/// A fresh sweep over `n` checks.
pub open spec fn start_view(n: nat) -> SweepRunView {
    SweepRunView { slots: Seq::new(n, |i: int| ProbeSlot::Pending), expired: false }
}

/// The effect of one event on a sweep, and the action it calls for.
pub open spec fn next(s: SweepRunView, e: SweepEvent) -> (SweepRunView, SweepAction) {
    if s.expired {
        (s, SweepAction::Ignore)
    } else {
        match e {
            SweepEvent::ProbeFinished { index, outcome } => {
                if index < s.slots.len() && s.slots[index as int] == ProbeSlot::Pending {
                    let value = status_ordinal(classification(outcome)) as u64;
                    (
                        SweepRunView {
                            slots: s.slots.update(index as int, ProbeSlot::Recorded { value }),
                            expired: false,
                        },
                        SweepAction::Record { index, value },
                    )
                } else {
                    (s, SweepAction::Ignore)
                }
            },
            SweepEvent::ProbeFaulted { index } => {
                if index < s.slots.len() && s.slots[index as int] == ProbeSlot::Pending {
                    (
                        SweepRunView {
                            slots: s.slots.update(index as int, ProbeSlot::Faulted),
                            expired: false,
                        },
                        SweepAction::ReportFault { index },
                    )
                } else {
                    (s, SweepAction::Ignore)
                }
            },
            SweepEvent::DeadlineExpired => (
                SweepRunView { slots: s.slots, expired: true },
                SweepAction::AbandonPending,
            ),
        }
    }
}

/// A sweep is complete once every check has settled or the deadline passed.
pub open spec fn complete(s: SweepRunView) -> bool {
    s.expired || forall|i: int| 0 <= i < s.slots.len() ==> s.slots[i] != ProbeSlot::Pending
}

/// The number of recorded slots.
pub open spec fn count_recorded(slots: Seq<ProbeSlot>) -> nat
    decreases slots.len(),
{
    if slots.len() == 0 {
        0
    } else {
        count_recorded(slots.drop_last()) + if slots.last() is Recorded {
            1nat
        } else {
            0nat
        }
    }
}

impl SweepRun {
    /// Starts a sweep over `n` checks, all of them pending.
    pub fn start(n: usize) -> (r: SweepRun)
        ensures
            r@ == start_view(n as nat),
    {
        let mut slots: Vec<ProbeSlot> = Vec::new();
        let mut i: usize = 0;
        while i < n
            invariant
                i <= n,
                slots@ == Seq::new(i as nat, |j: int| ProbeSlot::Pending),
            decreases n - i,
        {
            slots.push(ProbeSlot::Pending);
            i = i + 1;
            assert(slots@ =~= Seq::new(i as nat, |j: int| ProbeSlot::Pending));
        }
        SweepRun { slots, expired: false }
    }

    /// Applies one event and returns the action it calls for.
    pub fn step(&mut self, e: &SweepEvent) -> (a: SweepAction)
        ensures
            (final(self)@, a) == next(old(self)@, *e),
    {
        if self.expired {
            return SweepAction::Ignore;
        }
        match e {
            SweepEvent::ProbeFinished { index, outcome } => {
                let i = *index;
                if i < self.slots.len() && matches!(self.slots[i], ProbeSlot::Pending) {
                    let value = acquire_hc_result(outcome).status.as_u64();
                    self.slots.set(i, ProbeSlot::Recorded { value });
                    SweepAction::Record { index: i, value }
                } else {
                    SweepAction::Ignore
                }
            },
            SweepEvent::ProbeFaulted { index } => {
                let i = *index;
                if i < self.slots.len() && matches!(self.slots[i], ProbeSlot::Pending) {
                    self.slots.set(i, ProbeSlot::Faulted);
                    SweepAction::ReportFault { index: i }
                } else {
                    SweepAction::Ignore
                }
            },
            SweepEvent::DeadlineExpired => {
                self.expired = true;
                SweepAction::AbandonPending
            },
        }
    }

    /// Whether the sweep is over.
    pub fn is_complete(&self) -> (r: bool)
        ensures
            r == complete(self@),
    {
        if self.expired {
            return true;
        }
        let mut i: usize = 0;
        while i < self.slots.len()
            invariant
                !self.expired,
                i <= self.slots@.len(),
                forall|j: int| 0 <= j < i ==> self.slots@[j] != ProbeSlot::Pending,
            decreases self.slots@.len() - i,
        {
            if matches!(self.slots[i], ProbeSlot::Pending) {
                assert(self@.slots[i as int] == ProbeSlot::Pending);
                return false;
            }
            i = i + 1;
        }
        true
    }

    /// The number of observations recorded so far in this sweep.
    pub fn recorded_count(&self) -> (r: usize)
        ensures
            r == count_recorded(self@.slots),
    {
        let mut n: usize = 0;
        let mut i: usize = 0;
        while i < self.slots.len()
            invariant
                i <= self.slots@.len(),
                n == count_recorded(self.slots@.subrange(0, i as int)),
                n <= i,
            decreases self.slots@.len() - i,
        {
            assert(self.slots@.subrange(0, i + 1).drop_last() =~= self.slots@.subrange(0, i as int));
            if let ProbeSlot::Recorded { .. } = self.slots[i] {
                n = n + 1;
            }
            i = i + 1;
        }
        assert(self.slots@.subrange(0, i as int) =~= self.slots@);
        n
    }

    /// The slot of check `index`.
    pub fn slot(&self, index: usize) -> (r: ProbeSlot)
        requires
            index < self@.slots.len(),
        ensures
            r == self@.slots[index as int],
    {
        self.slots[index]
    }

    /// The number of checks in this sweep.
    pub fn len(&self) -> (r: usize)
        ensures
            r == self@.slots.len(),
    {
        self.slots.len()
    }
}

/// The sweep coordinator: the configured checks, shared read-only by every
/// sweep, and the gauge that observations go to.
pub struct HealthCheckSweepService {
    gauge: Gauge<u64>,
    checks: Vec<Arc<HealthCheck>>,
}

impl HealthCheckSweepService {
    /// The configured checks.
    pub closed spec fn spec_checks(&self) -> Seq<Arc<HealthCheck>> {
        self.checks@
    }

    /// The gauge that observations are recorded into.
    pub closed spec fn spec_gauge(&self) -> Gauge<u64> {
        self.gauge
    }

    pub fn new(checks: Vec<Arc<HealthCheck>>, gauge: Gauge<u64>) -> (r: Self)
        ensures
            r.spec_checks() == checks@,
            r.spec_gauge() == gauge,
    {
        HealthCheckSweepService { gauge, checks }
    }

    /// The checks this service sweeps.
    pub fn checks(&self) -> (r: &Vec<Arc<HealthCheck>>)
        ensures
            r@ == self.spec_checks(),
    {
        &self.checks
    }

    /// The gauge observations are recorded into.
    pub fn gauge(&self) -> (r: &Gauge<u64>)
        ensures
            *r == self.spec_gauge(),
    {
        &self.gauge
    }

    /// Begins one sweep: one pending slot per configured check.
    pub fn begin_sweep(&self) -> (r: SweepRun)
        ensures
            r@ == start_view(self.spec_checks().len()),
    {
        SweepRun::start(self.checks.len())
    }

    /// The tags of the observation for check `index`: its team, then its feature.
    pub fn metric_tags(&self, index: usize) -> (r: (String, String))
        requires
            index < self.spec_checks().len(),
        ensures
            r.0@ == self.spec_checks()[index as int].metadata.team@,
            r.1@ == self.spec_checks()[index as int].metadata.feature@,
    {
        let check: &HealthCheck = &self.checks[index];
        (check.metadata.team.clone(), check.metadata.feature.clone())
    }
}

/// The state after replaying `events`, in order, on a fresh sweep over `n` checks.
pub open spec fn replay(n: nat, events: Seq<SweepEvent>) -> SweepRunView
    decreases events.len(),
{
    if events.len() == 0 {
        start_view(n)
    } else {
        next(replay(n, events.drop_last()), events.last()).0
    }
}

/// The number of `Record` actions that replaying `events` on a fresh sweep
/// over `n` checks calls for: the observations that sweep records.
pub open spec fn records_emitted(n: nat, events: Seq<SweepEvent>) -> nat
    decreases events.len(),
{
    if events.len() == 0 {
        0
    } else {
        records_emitted(n, events.drop_last()) + if next(
            replay(n, events.drop_last()),
            events.last(),
        ).1 is Record {
            1nat
        } else {
            0nat
        }
    }
}

/// The event reports a finished probe of check `i`.
pub open spec fn finishes(e: SweepEvent, i: int) -> bool {
    match e {
        SweepEvent::ProbeFinished { index, .. } => index == i,
        _ => false,
    }
}

/// Some event of `events` reports a finished probe of check `i`.
pub open spec fn reported(events: Seq<SweepEvent>, i: int) -> bool {
    exists|j: int| 0 <= j < events.len() && finishes(#[trigger] events[j], i)
}

/// The event is a task fault or the deadline.
pub open spec fn disrupts(e: SweepEvent) -> bool {
    match e {
        SweepEvent::ProbeFinished { .. } => false,
        _ => true,
    }
}

proof fn lemma_count_update(s: Seq<ProbeSlot>, i: int, x: ProbeSlot)
    requires
        0 <= i < s.len(),
    ensures
        count_recorded(s.update(i, x)) + (if s[i] is Recorded { 1int } else { 0int })
            == count_recorded(s) + (if x is Recorded { 1int } else { 0int }),
    decreases s.len(),
{
    if i == s.len() - 1 {
        assert(s.update(i, x).drop_last() =~= s.drop_last());
    } else {
        assert(s.update(i, x).drop_last() =~= s.drop_last().update(i, x));
        lemma_count_update(s.drop_last(), i, x);
    }
}

proof fn lemma_count_bounds(s: Seq<ProbeSlot>)
    ensures
        count_recorded(s) <= s.len(),
        (forall|i: int| 0 <= i < s.len() ==> s[i] is Recorded) ==> count_recorded(s) == s.len(),
        (forall|i: int| 0 <= i < s.len() ==> s[i] == ProbeSlot::Pending) ==> count_recorded(s) == 0,
    decreases s.len(),
{
    if s.len() > 0 {
        lemma_count_bounds(s.drop_last());
        assert forall|i: int| 0 <= i < s.drop_last().len() implies s.drop_last()[i] == s[i] by {}
    }
}

proof fn lemma_replay_counts(n: nat, events: Seq<SweepEvent>)
    ensures
        replay(n, events).slots.len() == n,
        records_emitted(n, events) == count_recorded(replay(n, events).slots),
    decreases events.len(),
{
    if events.len() == 0 {
        lemma_count_bounds(start_view(n).slots);
    } else {
        let prev = events.drop_last();
        lemma_replay_counts(n, prev);
        let s = replay(n, prev);
        let e = events.last();
        match e {
            SweepEvent::ProbeFinished { index, outcome } => {
                if !s.expired && index < s.slots.len() && s.slots[index as int]
                    == ProbeSlot::Pending {
                    let value = status_ordinal(classification(outcome)) as u64;
                    lemma_count_update(s.slots, index as int, ProbeSlot::Recorded { value });
                }
            },
            SweepEvent::ProbeFaulted { index } => {
                if !s.expired && index < s.slots.len() && s.slots[index as int]
                    == ProbeSlot::Pending {
                    lemma_count_update(s.slots, index as int, ProbeSlot::Faulted);
                }
            },
            SweepEvent::DeadlineExpired => {},
        }
    }
}

proof fn lemma_replay_settles(n: nat, events: Seq<SweepEvent>)
    requires
        forall|j: int| 0 <= j < events.len() ==> !disrupts(#[trigger] events[j]),
    ensures
        !replay(n, events).expired,
        forall|i: int|
            0 <= i < n ==> (#[trigger] replay(n, events).slots[i] is Recorded || replay(
                n,
                events,
            ).slots[i] == ProbeSlot::Pending),
        forall|i: int, j: int|
            0 <= i < n && 0 <= j < events.len() && finishes(#[trigger] events[j], i)
                ==> #[trigger] replay(n, events).slots[i] is Recorded,
    decreases events.len(),
{
    lemma_replay_counts(n, events);
    if events.len() > 0 {
        let prev = events.drop_last();
        assert forall|j: int| 0 <= j < prev.len() implies !disrupts(#[trigger] prev[j]) by {
            assert(prev[j] == events[j]);
        }
        lemma_replay_settles(n, prev);
        lemma_replay_counts(n, prev);
        assert forall|i: int, j: int|
            0 <= i < n && 0 <= j < events.len() && finishes(#[trigger] events[j], i)
                implies #[trigger] replay(n, events).slots[i] is Recorded by {
            if j < events.len() - 1 {
                assert(prev[j] == events[j]);
            }
        }
    }
}

/// Every sweep records at most one observation per configured check, and a
/// sweep in which every check's probe reports (with no task fault and no
/// deadline) records exactly one per check and is then complete, whether the
/// probes succeeded or failed, in whatever order they reported, and however
/// often a report was repeated.
pub proof fn lemma_one_observation_per_check(n: nat, events: Seq<SweepEvent>)
    ensures
        records_emitted(n, events) <= n,
        (forall|j: int| 0 <= j < events.len() ==> !disrupts(#[trigger] events[j]))
            && (forall|i: int| 0 <= i < n ==> #[trigger] reported(events, i))
            ==> records_emitted(n, events) == n && complete(replay(n, events)),
{
    lemma_replay_counts(n, events);
    lemma_count_bounds(replay(n, events).slots);
    if (forall|j: int| 0 <= j < events.len() ==> !disrupts(#[trigger] events[j]))
        && (forall|i: int| 0 <= i < n ==> #[trigger] reported(events, i)) {
        lemma_replay_settles(n, events);
        let s = replay(n, events);
        assert forall|i: int| 0 <= i < s.slots.len() implies s.slots[i] is Recorded by {
            assert(reported(events, i));
            let j = choose|j: int| 0 <= j < events.len() && finishes(#[trigger] events[j], i);
        }
        lemma_count_bounds(s.slots);
    }
}

/// The number of `Record { index: i, value: v }` actions that replaying
/// `events` on a fresh sweep over `n` checks calls for.
pub open spec fn records_for(n: nat, events: Seq<SweepEvent>, i: int, v: u64) -> nat
    decreases events.len(),
{
    if events.len() == 0 {
        0
    } else {
        records_for(n, events.drop_last(), i, v) + if next(
            replay(n, events.drop_last()),
            events.last(),
        ).1 matches SweepAction::Record { index, value } && index == i && value == v {
            1nat
        } else {
            0nat
        }
    }
}

/// The outcome a finished-probe event carries.
pub open spec fn outcome_of(e: SweepEvent) -> ProbeOutcome {
    match e {
        SweepEvent::ProbeFinished { outcome, .. } => outcome,
        _ => ProbeOutcome::NoResponse,
    }
}

/// `events[j]` is the first report of check `i` in `events`.
pub open spec fn first_report(events: Seq<SweepEvent>, i: int, j: int) -> bool {
    &&& 0 <= j < events.len()
    &&& finishes(events[j], i)
    &&& forall|k: int| 0 <= k < j ==> !finishes(#[trigger] events[k], i)
}

/// The observation a check's first report calls for.
pub open spec fn observed_value(e: SweepEvent) -> u64 {
    status_ordinal(classification(outcome_of(e))) as u64
}

proof fn lemma_records_match_slots(n: nat, events: Seq<SweepEvent>)
    ensures
        forall|i: int, v: u64|
            0 <= i < n ==> #[trigger] records_for(n, events, i, v) == if replay(n, events).slots[i]
                == (ProbeSlot::Recorded { value: v }) {
                1nat
            } else {
                0nat
            },
    decreases events.len(),
{
    lemma_replay_counts(n, events);
    if events.len() > 0 {
        let prev = events.drop_last();
        lemma_records_match_slots(n, prev);
        lemma_replay_counts(n, prev);
        let s = replay(n, prev);
        assert forall|i: int, v: u64|
            0 <= i < n implies #[trigger] records_for(n, events, i, v) == if replay(n, events).slots[i]
                == (ProbeSlot::Recorded { value: v }) {
                1nat
            } else {
                0nat
            } by {
            assert(records_for(n, prev, i, v) == if s.slots[i] == (ProbeSlot::Recorded { value: v }) {
                1nat
            } else {
                0nat
            });
            match events.last() {
                SweepEvent::ProbeFinished { index, outcome } => {
                    if !s.expired && index < s.slots.len() && s.slots[index as int]
                        == ProbeSlot::Pending && index as int != i {
                        assert(replay(n, events).slots[i] == s.slots[i]);
                    }
                },
                SweepEvent::ProbeFaulted { index } => {},
                SweepEvent::DeadlineExpired => {},
            }
        }
    }
}

proof fn lemma_first_report_recorded(n: nat, events: Seq<SweepEvent>)
    requires
        forall|j: int| 0 <= j < events.len() ==> !disrupts(#[trigger] events[j]),
    ensures
        forall|i: int|
            0 <= i < n && #[trigger] replay(n, events).slots[i] != ProbeSlot::Pending ==> reported(
                events,
                i,
            ),
        forall|i: int, j: int|
            0 <= i < n && #[trigger] first_report(events, i, j) ==> replay(n, events).slots[i]
                == (ProbeSlot::Recorded { value: observed_value(events[j]) }),
    decreases events.len(),
{
    lemma_replay_settles(n, events);
    lemma_replay_counts(n, events);
    if events.len() > 0 {
        let prev = events.drop_last();
        assert forall|j: int| 0 <= j < prev.len() implies !disrupts(#[trigger] prev[j]) by {
            assert(prev[j] == events[j]);
        }
        lemma_first_report_recorded(n, prev);
        lemma_replay_settles(n, prev);
        lemma_replay_counts(n, prev);
        let last = events.len() - 1;
        assert(!disrupts(events[last]));
        assert forall|i: int|
            0 <= i < n && #[trigger] replay(n, events).slots[i] != ProbeSlot::Pending implies reported(
            events,
            i,
        ) by {
            if replay(n, prev).slots[i] != ProbeSlot::Pending {
                let k = choose|k: int| 0 <= k < prev.len() && finishes(#[trigger] prev[k], i);
                assert(events[k] == prev[k]);
            } else {
                assert(finishes(events[last], i));
            }
        }
        assert forall|i: int, j: int|
            0 <= i < n && #[trigger] first_report(events, i, j) implies replay(n, events).slots[i]
                == (ProbeSlot::Recorded { value: observed_value(events[j]) }) by {
            if j < last {
                assert forall|k: int| 0 <= k < j implies !finishes(#[trigger] prev[k], i) by {
                    assert(prev[k] == events[k]);
                }
                assert(prev[j] == events[j]);
                assert(first_report(prev, i, j));
            } else {
                if replay(n, prev).slots[i] != ProbeSlot::Pending {
                    let k = choose|k: int| 0 <= k < prev.len() && finishes(#[trigger] prev[k], i);
                    assert(events[k] == prev[k]);
                    assert(!finishes(events[k], i));
                }
            }
        }
    }
}

/// In a sweep with no task fault and no deadline, every check records
/// exactly one observation, valued at the status its first report is
/// classified as (a probe that got no response records `Unknown`), and
/// nothing else; a check that never reports records nothing.
pub proof fn lemma_each_check_recorded_once(n: nat, events: Seq<SweepEvent>)
    requires
        forall|j: int| 0 <= j < events.len() ==> !disrupts(#[trigger] events[j]),
    ensures
        forall|i: int, j: int, v: u64|
            0 <= i < n && #[trigger] first_report(events, i, j) ==> #[trigger] records_for(
                n,
                events,
                i,
                v,
            ) == if v == observed_value(events[j]) {
                1nat
            } else {
                0nat
            },
        forall|i: int, v: u64|
            0 <= i < n && !reported(events, i) ==> #[trigger] records_for(n, events, i, v) == 0,
{
    lemma_records_match_slots(n, events);
    lemma_first_report_recorded(n, events);
}

proof fn lemma_expired_replay(n: nat, pre: Seq<SweepEvent>, post: Seq<SweepEvent>)
    ensures
        replay(n, pre.push(SweepEvent::DeadlineExpired) + post).expired,
        replay(n, pre.push(SweepEvent::DeadlineExpired) + post).slots == replay(n, pre).slots,
    decreases post.len(),
{
    let full = pre.push(SweepEvent::DeadlineExpired) + post;
    if post.len() == 0 {
        assert(full.drop_last() =~= pre);
    } else {
        assert(full.drop_last() =~= pre.push(SweepEvent::DeadlineExpired) + post.drop_last());
        lemma_expired_replay(n, pre, post.drop_last());
    }
}

/// When the deadline passes after the reports `pre`, the sweep is complete
/// and records exactly what it recorded before the deadline, whatever
/// arrives later: with no task fault before it, each check that reported in
/// time has exactly one observation, valued at its first report, and a check
/// that never reported has none.
pub proof fn lemma_deadline_keeps_timely(n: nat, pre: Seq<SweepEvent>, post: Seq<SweepEvent>)
    ensures
        complete(replay(n, pre.push(SweepEvent::DeadlineExpired) + post)),
        records_emitted(n, pre.push(SweepEvent::DeadlineExpired) + post) == records_emitted(n, pre),
        forall|i: int, v: u64|
            0 <= i < n ==> #[trigger] records_for(n, pre.push(SweepEvent::DeadlineExpired) + post, i, v)
                == records_for(n, pre, i, v),
        (forall|j: int| 0 <= j < pre.len() ==> !disrupts(#[trigger] pre[j])) ==> (forall|
            i: int,
            j: int,
            v: u64,
        |
            0 <= i < n && #[trigger] first_report(pre, i, j) ==> #[trigger] records_for(
                n,
                pre.push(SweepEvent::DeadlineExpired) + post,
                i,
                v,
            ) == if v == observed_value(pre[j]) {
                1nat
            } else {
                0nat
            }),
        (forall|j: int| 0 <= j < pre.len() ==> !disrupts(#[trigger] pre[j])) ==> (forall|
            i: int,
            v: u64,
        |
            0 <= i < n && !reported(pre, i) ==> #[trigger] records_for(
                n,
                pre.push(SweepEvent::DeadlineExpired) + post,
                i,
                v,
            ) == 0),
{
    let full = pre.push(SweepEvent::DeadlineExpired) + post;
    lemma_expired_replay(n, pre, post);
    lemma_replay_counts(n, full);
    lemma_replay_counts(n, pre);
    lemma_records_match_slots(n, full);
    lemma_records_match_slots(n, pre);
    if forall|j: int| 0 <= j < pre.len() ==> !disrupts(#[trigger] pre[j]) {
        lemma_each_check_recorded_once(n, pre);
        assert forall|i: int, j: int, v: u64|
            0 <= i < n && #[trigger] first_report(pre, i, j) implies #[trigger] records_for(
                n,
                full,
                i,
                v,
            ) == if v == observed_value(pre[j]) {
                1nat
            } else {
                0nat
            } by {
            assert(records_for(n, full, i, v) == records_for(n, pre, i, v));
        }
        assert forall|i: int, v: u64|
            0 <= i < n && !reported(pre, i) implies #[trigger] records_for(n, full, i, v) == 0 by {
            assert(records_for(n, full, i, v) == records_for(n, pre, i, v));
        }
    }
}

/// Once the deadline passes, a sweep is complete, keeps every observation
/// recorded before it, and ignores every later report.
pub proof fn lemma_deadline_ends_sweep(s: SweepRunView, e: SweepEvent)
    ensures
        complete(next(s, SweepEvent::DeadlineExpired).0),
        next(s, SweepEvent::DeadlineExpired).0.slots == s.slots,
        next(next(s, SweepEvent::DeadlineExpired).0, e) == (next(s, SweepEvent::DeadlineExpired).0, SweepAction::Ignore),
{
}

/// A sweep over no checks is complete from the start and records nothing,
/// whatever is reported to it.
pub proof fn lemma_empty_sweep(events: Seq<SweepEvent>)
    ensures
        complete(start_view(0)),
        records_emitted(0, events) == 0,
{
    lemma_one_observation_per_check(0, events);
}

} // verus!
