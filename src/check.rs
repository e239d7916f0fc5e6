use vstd::prelude::*;

verus! {

/// The tags of a configured check, carried on its metric.
#[derive(Clone, Debug)]
pub struct HealthCheckMetaData {
    pub component: String,
    pub datacenter: String,
    pub environment: String,
    pub feature: String,
    pub system: String,
    pub team: String,
}

/// A configured probe target: the endpoint to query and its tags.
#[derive(Clone, Debug)]
pub struct HealthCheck {
    pub url: String,
    pub metadata: HealthCheckMetaData,
}

} // verus!
