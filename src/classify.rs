use vstd::prelude::*;
use crate::status::{HealthCheckResult, HealthCheckStatus};

verus! {

/// What one probe obtained, before classification.
#[derive(Clone, Copy, Debug, PartialEq, Eq, Structural)]
pub enum ProbeOutcome {
    /// No response at all: timeout, connection refused, name resolution failure.
    NoResponse,
    /// A response with its HTTP status code, and the status that its body
    /// self-reports where the body parses as a status payload.
    Response { code: u16, payload: Option<HealthCheckStatus> },
}

/// A 2xx HTTP status code.
pub open spec fn is_success_code(code: u16) -> bool {
    200 <= code && code <= 299
}

/// The status a probe outcome is classified as: a parsed payload verbatim,
/// else the code range of the response, else `Unknown`.
pub open spec fn classification(o: ProbeOutcome) -> HealthCheckStatus {
    match o {
        ProbeOutcome::NoResponse => HealthCheckStatus::Unknown,
        ProbeOutcome::Response { code, payload } => match payload {
            Some(s) => s,
            None => if is_success_code(code) {
                HealthCheckStatus::Up
            } else {
                HealthCheckStatus::Down
            },
        },
    }
}

/// Classifies the outcome of one probe. Every outcome maps to a status.
pub fn acquire_hc_result(outcome: &ProbeOutcome) -> (r: HealthCheckResult)
    ensures
        r.status == classification(*outcome),
{
    match outcome {
        ProbeOutcome::NoResponse => HealthCheckResult { status: HealthCheckStatus::Unknown },
        ProbeOutcome::Response { code, payload } => match payload {
            Some(s) => HealthCheckResult { status: *s },
            None => {
                if 200 <= *code && *code <= 299 {
                    HealthCheckResult { status: HealthCheckStatus::Up }
                } else {
                    HealthCheckResult { status: HealthCheckStatus::Down }
                }
            },
        },
    }
}

/// A probe that got no response is `Unknown`, never `Down`.
pub proof fn lemma_no_response_is_unknown()
    ensures
        classification(ProbeOutcome::NoResponse) == HealthCheckStatus::Unknown,
        classification(ProbeOutcome::NoResponse) != HealthCheckStatus::Down,
{
}

/// A self-reported status in a parsed payload wins over any HTTP code.
pub proof fn lemma_payload_wins(code: u16, s: HealthCheckStatus)
    ensures
        classification((ProbeOutcome::Response { code, payload: Some(s) })) == s,
{
}

/// Without a parsed payload a response is `Up` exactly when its code is 2xx,
/// and `Down` otherwise.
pub proof fn lemma_code_fallback(code: u16)
    ensures
        is_success_code(code) ==> classification((ProbeOutcome::Response { code, payload: None }))
            == HealthCheckStatus::Up,
        !is_success_code(code) ==> classification((ProbeOutcome::Response { code, payload: None }))
            == HealthCheckStatus::Down,
{
}

} // verus!
