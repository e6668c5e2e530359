//! What the cloud sink is asked to store for one summary: three metrics in
//! one request.

use crate::config::CloudwatchConfig;
use crate::metrics::Measurement;
use std::time::SystemTime;
use vstd::prelude::*;

verus! {

/// A metric of the cloud sink.
#[derive(Clone, Copy, Debug, PartialEq, Eq, Structural)]
pub enum Metric {
    CpuUtilization,
    MemoryUtilization,
    MaxMemoryUtilization,
}

/// One value of one metric, as the cloud sink stores it. Its dimension is
/// the service's name, its unit is per cent.
#[derive(Debug, PartialEq, Eq)]
pub struct MetricDatum {
    pub metric: Metric,
    pub service_name: String,
    pub value: u32,
    pub timestamp: SystemTime,
}

/// The request that stores one summary.
#[derive(Debug, PartialEq, Eq)]
pub struct PutMetricData {
    pub namespace: String,
    pub metric_data: Vec<MetricDatum>,
}

impl Metric {
    /// The name under which the sink knows the metric.
    pub open spec fn name_of(self) -> Seq<char> {
        match self {
            Metric::CpuUtilization => "CPUUtilization"@,
            Metric::MemoryUtilization => "MemoryUtilization"@,
            Metric::MaxMemoryUtilization => "MaxMemoryUtilization"@,
        }
    }

    /// The value of the metric that `summary` holds.
    pub open spec fn value_of(self, summary: Measurement) -> u32 {
        match self {
            Metric::CpuUtilization => summary.cpu_utilization,
            Metric::MemoryUtilization => summary.mem_utilization,
            Metric::MaxMemoryUtilization => summary.max_mem_utilization,
        }
    }

    /// The name under which the sink knows the metric.
    pub fn name(&self) -> (name: &'static str)
        ensures
            name@ == self.name_of(),
    {
        match self {
            Metric::CpuUtilization => "CPUUtilization",
            Metric::MemoryUtilization => "MemoryUtilization",
            Metric::MaxMemoryUtilization => "MaxMemoryUtilization",
        }
    }

    /// The value of the metric that `summary` holds.
    pub fn value(&self, summary: &Measurement) -> (value: u32)
        ensures
            value == self.value_of(*summary),
    {
        match self {
            Metric::CpuUtilization => summary.cpu_utilization,
            Metric::MemoryUtilization => summary.mem_utilization,
            Metric::MaxMemoryUtilization => summary.max_mem_utilization,
        }
    }
}

/// The metrics of a request, in its order.
pub open spec fn metrics_of_request() -> Seq<Metric> {
    seq![Metric::CpuUtilization, Metric::MemoryUtilization, Metric::MaxMemoryUtilization]
}

/// The name of the dimension of every datum.
pub fn dimension_name() -> (name: &'static str)
    ensures
        name@ == "ServiceName"@,
{
    "ServiceName"
}

/// The unit of every datum.
pub fn unit_name() -> (name: &'static str)
    ensures
        name@ == "Percent"@,
{
    "Percent"
}

/// The datum of `metric` for `summary`.
pub fn metric_datum(metric: Metric, summary: &Measurement, config: &CloudwatchConfig) -> (datum:
    MetricDatum)
    ensures
        datum.metric == metric,
        datum.service_name@ == config.service_name@,
        datum.value == metric.value_of(*summary),
        datum.timestamp == summary.timestamp,
{
    MetricDatum {
        metric,
        service_name: config.service_name.clone(),
        value: metric.value(summary),
        timestamp: summary.timestamp,
    }
}

/// The request that stores `summary`: in the namespace of `config`, one datum
/// for each of CPU utilization, memory utilization and peak memory
/// utilization, in this order, each with the summary's timestamp and the
/// service's name.
pub fn put_metric_data(summary: &Measurement, config: &CloudwatchConfig) -> (request:
    PutMetricData)
    ensures
        request.namespace@ == config.namespace@,
        request.metric_data@.len() == 3,
        forall|i: int|
            0 <= i < 3 ==> {
                &&& (#[trigger] request.metric_data@[i]).metric == metrics_of_request()[i]
                &&& request.metric_data@[i].service_name@ == config.service_name@
                &&& request.metric_data@[i].value == metrics_of_request()[i].value_of(*summary)
                &&& request.metric_data@[i].timestamp == summary.timestamp
            },
{
    let mut metric_data: Vec<MetricDatum> = Vec::new();
    metric_data.push(metric_datum(Metric::CpuUtilization, summary, config));
    metric_data.push(metric_datum(Metric::MemoryUtilization, summary, config));
    metric_data.push(metric_datum(Metric::MaxMemoryUtilization, summary, config));
    PutMetricData { namespace: config.namespace.clone(), metric_data }
}

} // verus!
