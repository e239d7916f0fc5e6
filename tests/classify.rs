use a10y::classify::{acquire_hc_result, ProbeOutcome};
use a10y::status::{HealthCheckResult, HealthCheckStatus};

fn classify(outcome: ProbeOutcome) -> HealthCheckStatus {
    acquire_hc_result(&outcome).status
}

#[test]
fn ordinals_are_fixed() {
    assert_eq!(HealthCheckStatus::Down.as_u64(), 0);
    assert_eq!(HealthCheckStatus::Up.as_u64(), 1);
    assert_eq!(HealthCheckStatus::Degraded.as_u64(), 2);
    assert_eq!(HealthCheckStatus::OutOfService.as_u64(), 3);
    assert_eq!(HealthCheckStatus::Unknown.as_u64(), 4);
}

#[test]
fn no_response_is_unknown() {
    assert_eq!(classify(ProbeOutcome::NoResponse), HealthCheckStatus::Unknown);
    assert_ne!(classify(ProbeOutcome::NoResponse), HealthCheckStatus::Down);
}

#[test]
fn ok_with_unparseable_body_is_up() {
    let r = acquire_hc_result(&ProbeOutcome::Response { code: 200, payload: None });
    assert_eq!(r, HealthCheckResult { status: HealthCheckStatus::Up });
}

#[test]
fn unavailable_with_unparseable_body_is_down() {
    assert_eq!(
        classify(ProbeOutcome::Response { code: 503, payload: None }),
        HealthCheckStatus::Down
    );
}

#[test]
fn code_range_edges() {
    assert_eq!(classify(ProbeOutcome::Response { code: 199, payload: None }), HealthCheckStatus::Down);
    assert_eq!(classify(ProbeOutcome::Response { code: 204, payload: None }), HealthCheckStatus::Up);
    assert_eq!(classify(ProbeOutcome::Response { code: 299, payload: None }), HealthCheckStatus::Up);
    assert_eq!(classify(ProbeOutcome::Response { code: 300, payload: None }), HealthCheckStatus::Down);
    assert_eq!(classify(ProbeOutcome::Response { code: 404, payload: None }), HealthCheckStatus::Down);
}

#[test]
fn degraded_payload_wins_over_code() {
    let degraded = Some(HealthCheckStatus::Degraded);
    assert_eq!(classify(ProbeOutcome::Response { code: 200, payload: degraded }), HealthCheckStatus::Degraded);
    assert_eq!(classify(ProbeOutcome::Response { code: 503, payload: degraded }), HealthCheckStatus::Degraded);
}

#[test]
fn every_payload_status_is_taken_verbatim() {
    let all = [
        HealthCheckStatus::Down,
        HealthCheckStatus::Up,
        HealthCheckStatus::Degraded,
        HealthCheckStatus::OutOfService,
        HealthCheckStatus::Unknown,
    ];
    for s in all {
        assert_eq!(classify(ProbeOutcome::Response { code: 200, payload: Some(s) }), s);
        assert_eq!(classify(ProbeOutcome::Response { code: 500, payload: Some(s) }), s);
    }
}
