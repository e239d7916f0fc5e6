use vstd::prelude::*;

verus! {

/// The closed taxonomy of health states a service may report.
///
/// Each variant has a fixed ordinal, the value exported as the metric; the
/// table must only ever be appended to.
#[derive(Clone, Copy, Debug, PartialEq, Eq, Structural)]
pub enum HealthCheckStatus {
    Down,
    Up,
    Degraded,
    OutOfService,
    Unknown,
}

/// The exported ordinal of a status.
pub open spec fn status_ordinal(s: HealthCheckStatus) -> nat {
    match s {
        HealthCheckStatus::Down => 0,
        HealthCheckStatus::Up => 1,
        HealthCheckStatus::Degraded => 2,
        HealthCheckStatus::OutOfService => 3,
        HealthCheckStatus::Unknown => 4,
    }
}

impl HealthCheckStatus {
    /// The metric value of this status.
    pub fn as_u64(&self) -> (r: u64)
        ensures
            r == status_ordinal(*self),
    {
        match self {
            HealthCheckStatus::Down => 0,
            HealthCheckStatus::Up => 1,
            HealthCheckStatus::Degraded => 2,
            HealthCheckStatus::OutOfService => 3,
            HealthCheckStatus::Unknown => 4,
        }
    }
}

/// The outcome of one probe: the status it was classified as.
#[derive(Clone, Copy, Debug, PartialEq, Eq, Structural)]
pub struct HealthCheckResult {
    pub status: HealthCheckStatus,
}

/// The ordinal table is fixed and total: every status has one of the values
/// zero to four, as listed, and no two statuses share a value, so the value
/// alone identifies the status.
pub proof fn lemma_ordinal_table(a: HealthCheckStatus, b: HealthCheckStatus)
    ensures
        status_ordinal(HealthCheckStatus::Down) == 0,
        status_ordinal(HealthCheckStatus::Up) == 1,
        status_ordinal(HealthCheckStatus::Degraded) == 2,
        status_ordinal(HealthCheckStatus::OutOfService) == 3,
        status_ordinal(HealthCheckStatus::Unknown) == 4,
        status_ordinal(a) < 5,
        status_ordinal(a) == status_ordinal(b) <==> a == b,
{
}

} // verus!
