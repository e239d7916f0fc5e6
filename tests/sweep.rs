use std::sync::Arc;

use a10y::check::{HealthCheck, HealthCheckMetaData};
use a10y::classify::ProbeOutcome;
use a10y::status::HealthCheckStatus;
use a10y::sweep::{HealthCheckSweepService, ProbeSlot, SweepAction, SweepEvent, SweepRun};

fn check(team: &str, feature: &str) -> Arc<HealthCheck> {
    Arc::new(HealthCheck {
        url: format!("http://localhost:3000/{feature}"),
        metadata: HealthCheckMetaData {
            component: "api".to_string(),
            datacenter: "dc1".to_string(),
            environment: "test".to_string(),
            feature: feature.to_string(),
            system: "a10y".to_string(),
            team: team.to_string(),
        },
    })
}

fn service(n: usize) -> HealthCheckSweepService {
    let gauge = opentelemetry::global::meter("a10y-test").u64_gauge("a10y.status_code").build();
    let checks = (0..n).map(|i| check("core", &format!("f{i}"))).collect();
    HealthCheckSweepService::new(checks, gauge)
}

fn finished(index: usize, outcome: ProbeOutcome) -> SweepEvent {
    SweepEvent::ProbeFinished { index, outcome }
}

fn count_records(actions: &[SweepAction]) -> usize {
    actions.iter().filter(|a| matches!(a, SweepAction::Record { .. })).count()
}

#[test]
fn one_observation_per_check_even_when_probes_fail() {
    let svc = service(3);
    let mut run = svc.begin_sweep();
    let events = [
        finished(2, ProbeOutcome::NoResponse),
        finished(0, ProbeOutcome::Response { code: 200, payload: None }),
        finished(1, ProbeOutcome::Response { code: 503, payload: None }),
    ];
    let actions: Vec<SweepAction> = events.iter().map(|e| run.step(e)).collect();
    assert_eq!(
        actions,
        vec![
            SweepAction::Record { index: 2, value: 4 },
            SweepAction::Record { index: 0, value: 1 },
            SweepAction::Record { index: 1, value: 0 },
        ]
    );
    assert_eq!(count_records(&actions), 3);
    assert_eq!(run.recorded_count(), 3);
    assert!(run.is_complete());
}

#[test]
fn repeated_and_unknown_reports_are_ignored() {
    let mut run = SweepRun::start(2);
    let up = ProbeOutcome::Response { code: 200, payload: None };
    assert_eq!(run.step(&finished(0, up)), SweepAction::Record { index: 0, value: 1 });
    assert_eq!(run.step(&finished(0, ProbeOutcome::NoResponse)), SweepAction::Ignore);
    assert_eq!(run.step(&finished(7, up)), SweepAction::Ignore);
    assert_eq!(run.slot(0), ProbeSlot::Recorded { value: 1 });
    assert_eq!(run.recorded_count(), 1);
    assert!(!run.is_complete());
}

#[test]
fn faulted_task_records_nothing_and_does_not_stop_others() {
    let mut run = SweepRun::start(2);
    assert_eq!(run.step(&SweepEvent::ProbeFaulted { index: 1 }), SweepAction::ReportFault { index: 1 });
    let degraded = ProbeOutcome::Response { code: 503, payload: Some(HealthCheckStatus::Degraded) };
    assert_eq!(run.step(&finished(0, degraded)), SweepAction::Record { index: 0, value: 2 });
    assert_eq!(run.step(&finished(1, ProbeOutcome::NoResponse)), SweepAction::Ignore);
    assert_eq!(run.slot(1), ProbeSlot::Faulted);
    assert_eq!(run.recorded_count(), 1);
    assert!(run.is_complete());
}

#[test]
fn deadline_keeps_timely_results_and_drops_the_rest() {
    let mut run = SweepRun::start(3);
    let up = ProbeOutcome::Response { code: 200, payload: None };
    assert_eq!(run.step(&finished(0, up)), SweepAction::Record { index: 0, value: 1 });
    assert_eq!(run.step(&finished(2, up)), SweepAction::Record { index: 2, value: 1 });
    assert!(!run.is_complete());
    assert_eq!(run.step(&SweepEvent::DeadlineExpired), SweepAction::AbandonPending);
    assert!(run.is_complete());
    assert_eq!(run.step(&finished(1, up)), SweepAction::Ignore);
    assert_eq!(run.slot(1), ProbeSlot::Pending);
    assert_eq!(run.recorded_count(), 2);
}

#[test]
fn empty_sweep_is_complete_at_once() {
    let svc = service(0);
    let mut run = svc.begin_sweep();
    assert_eq!(run.len(), 0);
    assert!(run.is_complete());
    assert_eq!(run.recorded_count(), 0);
    assert_eq!(run.step(&finished(0, ProbeOutcome::NoResponse)), SweepAction::Ignore);
    assert_eq!(run.recorded_count(), 0);
}

#[test]
fn observations_are_tagged_with_team_and_feature() {
    let gauge = opentelemetry::global::meter("a10y-test").u64_gauge("a10y.status_code").build();
    let svc = HealthCheckSweepService::new(vec![check("payments", "checkout"), check("search", "query")], gauge);
    assert_eq!(svc.checks().len(), 2);
    assert_eq!(svc.metric_tags(1), ("search".to_string(), "query".to_string()));
    assert_eq!(svc.metric_tags(0), ("payments".to_string(), "checkout".to_string()));
}
