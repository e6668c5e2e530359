//! Settings of the agent.

use vstd::prelude::*;

verus! {

/// Under what the cloud sink files the metrics.
#[derive(Clone, Debug, PartialEq, Eq)]
pub struct CloudwatchConfig {
    /// The namespace of the metrics.
    pub namespace: String,
    /// The value of the dimension that tells this service's metrics from
    /// those of others.
    pub service_name: String,
}

} // verus!
