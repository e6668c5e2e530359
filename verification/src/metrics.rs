//! Measurements of CPU and memory utilization: taking one from the host's raw
//! readings, and summarizing a window of them.

use crate::memory::{capped, collect_memory, memory_of, MemoryReadings, FULL_SCALE};
use crate::stats::{
    lemma_maximum, lemma_median_at_most, lemma_median_bounds, lemma_minimum, maximum,
    maximum_of, median, median_of,
};
use std::time::SystemTime;
use vstd::prelude::*;

verus! {

/// `std::time::SystemTime`, an instant of the wall clock. It is carried
/// through as it is: nothing is known here of what it holds.
#[verifier::external_type_specification]
#[verifier::external_body]
pub struct ExSystemTime(SystemTime);

/// A utilization data point: one raw sample, or the summary of a window of
/// samples. Utilizations are fractions in units of `1 / FULL_SCALE`.
#[derive(Clone, Copy, Debug, PartialEq, Eq)]
pub struct Measurement {
    pub timestamp: SystemTime,
    pub mem_utilization: u32,
    pub max_mem_utilization: u32,
    pub cpu_utilization: u32,
    pub sample_count: u32,
}

/// What one reading of the host gives: the usage of each logical core, as a
/// fraction of that core in units of `1 / FULL_SCALE` (`None` where the
/// reading is not a number), and the memory counters.
#[derive(Clone, Debug, PartialEq, Eq)]
pub struct RawSample {
    pub cpu_usage: Vec<Option<u32>>,
    pub memory: MemoryReadings,
}

impl Measurement {
    /// Every utilization is a fraction between 0 and 1, and at least one
    /// sample is counted.
    pub open spec fn in_domain(&self) -> bool {
        &&& self.cpu_utilization <= FULL_SCALE
        &&& self.mem_utilization <= FULL_SCALE
        &&& self.max_mem_utilization <= FULL_SCALE
        &&& self.sample_count >= 1
    }

    /// The peak of memory utilization is not below memory utilization.
    pub open spec fn peak_covers_usage(&self) -> bool {
        self.mem_utilization <= self.max_mem_utilization
    }
}

/// The CPU utilizations of `series`, in its order.
pub open spec fn cpu_values(series: Seq<Measurement>) -> Seq<u32> {
    Seq::new(series.len(), |i: int| series[i].cpu_utilization)
}

/// The memory utilizations of `series`, in its order.
pub open spec fn mem_values(series: Seq<Measurement>) -> Seq<u32> {
    Seq::new(series.len(), |i: int| series[i].mem_utilization)
}

/// The peak memory utilizations of `series`, in its order.
pub open spec fn max_mem_values(series: Seq<Measurement>) -> Seq<u32> {
    Seq::new(series.len(), |i: int| series[i].max_mem_utilization)
}

/// The summary of a window: `None` for an empty one, else the medians of CPU
/// and memory utilization, the maximum of the peaks, the last timestamp and
/// the number of samples.
pub open spec fn aggregate_of(series: Seq<Measurement>) -> Option<Measurement> {
    if series.len() == 0 {
        None
    } else {
        Some(
            Measurement {
                timestamp: series.last().timestamp,
                mem_utilization: median(mem_values(series)) as u32,
                max_mem_utilization: maximum(max_mem_values(series)) as u32,
                cpu_utilization: median(cpu_values(series)) as u32,
                sample_count: series.len() as u32,
            },
        )
    }
}

/// The sum of the core usages that were read.
pub open spec fn usage_sum(cores: Seq<Option<u32>>) -> int
    decreases cores.len(),
{
    if cores.len() == 0 {
        0
    } else {
        usage_sum(cores.drop_last()) + match cores.last() {
            Some(usage) => usage as int,
            None => 0,
        }
    }
}

/// Every core's usage was read.
pub open spec fn all_read(cores: Seq<Option<u32>>) -> bool {
    forall|i: int| 0 <= i < cores.len() ==> cores[i] is Some
}

/// CPU utilization of the host: the mean of the cores' usages, rounded down
/// and capped at `FULL_SCALE`; 0 where there is no core or a usage was not
/// read.
pub open spec fn cpu_utilization_of(cores: Seq<Option<u32>>) -> int {
    if cores.len() == 0 || !all_read(cores) {
        0
    } else {
        capped(usage_sum(cores) / cores.len() as int)
    }
}

/// The raw sample that `raw` gives at the instant `timestamp`.
pub open spec fn measurement_of(raw: RawSample, timestamp: SystemTime) -> Measurement {
    Measurement {
        timestamp,
        mem_utilization: memory_of(raw.memory).utilization,
        max_mem_utilization: memory_of(raw.memory).max_utilization,
        cpu_utilization: cpu_utilization_of(raw.cpu_usage@) as u32,
        sample_count: 1,
    }
}

/// The sum of core usages is never negative and at most the largest usage
/// times the number of cores.
proof fn lemma_usage_sum_range(cores: Seq<Option<u32>>)
    ensures
        0 <= usage_sum(cores) <= cores.len() * u32::MAX,
    decreases cores.len(),
{
    if cores.len() > 0 {
        lemma_usage_sum_range(cores.drop_last());
    }
}

/// The wall clock's time, by `SystemTime::now`. Nothing is claimed of the
/// instant it returns.
#[verifier::external_body]
fn now() -> SystemTime {
    SystemTime::now()
}

/// CPU utilization of the host from the usage of each of its cores.
pub fn cpu_utilization(cores: &Vec<Option<u32>>) -> (u: u32)
    ensures
        u == cpu_utilization_of(cores@),
        u <= FULL_SCALE,
{
    let count: usize = cores.len();
    if count == 0 {
        return 0;
    }
    let mut sum: u128 = 0;
    let mut i: usize = 0;
    assert(cores@.subrange(0, 0) =~= Seq::<Option<u32>>::empty());
    while i < count
        invariant
            count == cores@.len(),
            i <= count,
            all_read(cores@.subrange(0, i as int)),
            sum == usage_sum(cores@.subrange(0, i as int)),
        decreases count - i,
    {
        proof {
            lemma_usage_sum_range(cores@.subrange(0, i as int));
            assert(cores@.subrange(0, i + 1).drop_last() =~= cores@.subrange(0, i as int));
        }
        match cores[i] {
            Some(usage) => {
                sum = sum + usage as u128;
            },
            None => {
                assert(!(cores@[i as int] is Some));
                return 0;
            },
        }
        proof {
            let next = cores@.subrange(0, i + 1);
            assert forall|k: int| 0 <= k < next.len() implies next[k] is Some by {
                if k < i {
                    assert(cores@.subrange(0, i as int)[k] is Some);
                }
            }
        }
        i = i + 1;
    }
    proof {
        assert(cores@.subrange(0, i as int) =~= cores@);
        lemma_usage_sum_range(cores@);
    }
    let mean: u128 = sum / (count as u128);
    if mean > FULL_SCALE as u128 {
        FULL_SCALE
    } else {
        mean as u32
    }
}

/// The raw sample that the readings `raw` give, stamped with `timestamp`:
/// one sample, within the domain of a measurement.
pub fn measurement_at(raw: &RawSample, timestamp: SystemTime) -> (m: Measurement)
    ensures
        m == measurement_of(*raw, timestamp),
        m.in_domain(),
        m.sample_count == 1,
{
    let memory = collect_memory(&raw.memory);
    Measurement {
        timestamp,
        mem_utilization: memory.utilization,
        max_mem_utilization: memory.max_utilization,
        cpu_utilization: cpu_utilization(&raw.cpu_usage),
        sample_count: 1,
    }
}

/// The raw sample that the readings `raw` give, stamped with the wall
/// clock's time as it is when the function runs.
pub fn create_measurement(raw: &RawSample) -> (m: Measurement)
    ensures
        m == measurement_of(*raw, m.timestamp),
        m.in_domain(),
        m.sample_count == 1,
{
    measurement_at(raw, now())
}

/// Summarizes the window `series`: see `aggregate_of`. The summary of samples
/// that are within the domain of a measurement is within it, and its peak
/// covers its usage where that holds of every sample.
pub fn aggregate(series: &[Measurement]) -> (summary: Option<Measurement>)
    requires
        series@.len() <= u32::MAX,
    ensures
        summary == aggregate_of(series@),
        summary is None <==> series@.len() == 0,
        summary matches Some(m) ==> {
            &&& m.sample_count == series@.len()
            &&& m.timestamp == series@.last().timestamp
            &&& m.cpu_utilization == median(cpu_values(series@))
            &&& m.mem_utilization == median(mem_values(series@))
            &&& m.max_mem_utilization == maximum(max_mem_values(series@))
        },
        summary matches Some(m) ==> ((forall|i: int|
            0 <= i < series@.len() ==> series@[i].in_domain()) ==> m.in_domain()),
        summary matches Some(m) ==> ((forall|i: int|
            0 <= i < series@.len() ==> series@[i].peak_covers_usage()) ==> m.peak_covers_usage()),
{
    let count: usize = series.len();
    if count == 0 {
        return None;
    }
    let mut cpu: Vec<u32> = Vec::new();
    let mut mem: Vec<u32> = Vec::new();
    let mut max_mem: Vec<u32> = Vec::new();
    let mut i: usize = 0;
    while i < count
        invariant
            count == series@.len(),
            i <= count,
            cpu@ == cpu_values(series@.subrange(0, i as int)),
            mem@ == mem_values(series@.subrange(0, i as int)),
            max_mem@ == max_mem_values(series@.subrange(0, i as int)),
        decreases count - i,
    {
        cpu.push(series[i].cpu_utilization);
        mem.push(series[i].mem_utilization);
        max_mem.push(series[i].max_mem_utilization);
        i = i + 1;
    }
    proof {
        assert(series@.subrange(0, i as int) =~= series@);
        lemma_aggregate_preserves(series@);
    }
    match (median_of(&cpu), median_of(&mem), maximum_of(&max_mem)) {
        (Some(cpu_utilization), Some(mem_utilization), Some(max_mem_utilization)) => Some(
            Measurement {
                timestamp: series[count - 1].timestamp,
                mem_utilization,
                max_mem_utilization,
                cpu_utilization,
                sample_count: count as u32,
            },
        ),
        _ => None,
    }
}

/// The summary of a non-empty window of samples within the domain of a
/// measurement is within it, and its peak covers its usage where that holds
/// of every sample.
pub proof fn lemma_aggregate_preserves(series: Seq<Measurement>)
    requires
        0 < series.len() <= u32::MAX,
    ensures
        0 <= median(cpu_values(series)) <= u32::MAX,
        0 <= median(mem_values(series)) <= u32::MAX,
        0 <= maximum(max_mem_values(series)) <= u32::MAX,
        (forall|i: int| 0 <= i < series.len() ==> series[i].in_domain())
            ==> aggregate_of(series).unwrap().in_domain(),
        (forall|i: int| 0 <= i < series.len() ==> series[i].peak_covers_usage())
            ==> aggregate_of(series).unwrap().peak_covers_usage(),
{
    let cpu = cpu_values(series);
    let mem = mem_values(series);
    let peaks = max_mem_values(series);
    lemma_median_bounds(cpu);
    lemma_median_bounds(mem);
    lemma_minimum(cpu);
    lemma_minimum(mem);
    lemma_maximum(cpu);
    lemma_maximum(mem);
    lemma_maximum(peaks);
    if forall|i: int| 0 <= i < series.len() ==> series[i].in_domain() {
        assert forall|i: int| 0 <= i < cpu.len() implies cpu[i] <= FULL_SCALE as int by {
            assert(series[i].in_domain());
        }
        assert forall|i: int| 0 <= i < mem.len() implies mem[i] <= FULL_SCALE as int by {
            assert(series[i].in_domain());
        }
        lemma_median_at_most(cpu, FULL_SCALE as int);
        lemma_median_at_most(mem, FULL_SCALE as int);
        let w = choose|i: int| 0 <= i < peaks.len() && peaks[i] == maximum(peaks) as u32;
        assert(series[w].in_domain());
    }
    if forall|i: int| 0 <= i < series.len() ==> series[i].peak_covers_usage() {
        assert forall|i: int| 0 <= i < mem.len() implies mem[i] <= maximum(peaks) by {
            assert(series[i].peak_covers_usage());
            assert(peaks[i] <= maximum(peaks));
        }
        lemma_median_at_most(mem, maximum(peaks));
    }
}

} // verus!
