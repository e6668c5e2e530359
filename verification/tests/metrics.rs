use cloudwatch_metrics_agent::memory::{MemoryReadings, FULL_SCALE};
use cloudwatch_metrics_agent::metrics::{
    aggregate, cpu_utilization, create_measurement, measurement_at, Measurement, RawSample,
};
use rstats::triangmat::Vecops;
use rstats::Medianf64;
use std::time::{Duration, SystemTime};
use sysinfo::{CpuExt, CpuRefreshKind, ProcessRefreshKind, RefreshKind, System, SystemExt};

fn create_measurement_engine() -> System {
    let refresh_kind = RefreshKind::new()
        .with_cpu(CpuRefreshKind::new().with_cpu_usage())
        .with_memory()
        .with_processes(ProcessRefreshKind::everything());
    System::new_with_specifics(refresh_kind)
}

/// One core's usage in per cent as a fraction of the core.
fn core_usage(percent: f32) -> Option<u32> {
    if percent.is_nan() {
        None
    } else {
        Some((percent as f64 * 10_000.0).round() as u32)
    }
}

fn read_raw(sys: &mut System) -> RawSample {
    sys.refresh_cpu();
    sys.refresh_memory();
    RawSample {
        cpu_usage: sys.cpus().iter().map(|p| core_usage(p.cpu_usage())).collect(),
        memory: MemoryReadings {
            used_memory: sys.used_memory(),
            total_memory: sys.total_memory(),
            cgroup_usage: None,
            cgroup_peak: None,
            cgroup_limit: None,
        },
    }
}

fn as_fraction(utilization: u32) -> f64 {
    utilization as f64 / FULL_SCALE as f64
}

fn as_utilization(fraction: f64) -> u32 {
    (fraction * FULL_SCALE as f64).round() as u32
}

fn host(used_memory: u64, total_memory: u64) -> MemoryReadings {
    MemoryReadings {
        used_memory,
        total_memory,
        cgroup_usage: None,
        cgroup_peak: None,
        cgroup_limit: None,
    }
}

fn sample(timestamp: SystemTime, cpu: u32, mem: u32, max_mem: u32) -> Measurement {
    Measurement {
        timestamp,
        cpu_utilization: cpu,
        mem_utilization: mem,
        max_mem_utilization: max_mem,
        sample_count: 1,
    }
}

#[test]
fn test_measurement() {
    let mut engine = create_measurement_engine();
    let measurement = create_measurement(&read_raw(&mut engine));
    assert!(!as_fraction(measurement.cpu_utilization).is_nan());
    assert!(!as_fraction(measurement.mem_utilization).is_nan());

    assert!(as_fraction(measurement.cpu_utilization) <= 1.0);
    assert!(as_fraction(measurement.mem_utilization) <= 1.0);
}

#[test]
fn test_measurement_times() {
    let mut engine = create_measurement_engine();
    for _ in 0..10 {
        let measurement = create_measurement(&read_raw(&mut engine));
        println!("{:?}", measurement);
        assert!(!as_fraction(measurement.cpu_utilization).is_nan());
        assert!(!as_fraction(measurement.mem_utilization).is_nan());

        assert!(as_fraction(measurement.cpu_utilization) >= 0.0);
        assert!(as_fraction(measurement.cpu_utilization) <= 1.0);
        assert!(as_fraction(measurement.mem_utilization) >= 0.0);
        assert!(as_fraction(measurement.mem_utilization) <= 1.0);
    }
}

#[test]
fn test_aggregate_empty() {
    assert!(aggregate(&vec![]).is_none());
}

#[test]
fn test_aggregate_multiple() {
    let base = SystemTime::now();
    let n = 10;
    let measurements: Vec<Measurement> = (0..n)
        .map(|k| {
            let ts = base + Duration::from_secs(k * 2);
            Measurement {
                timestamp: ts,
                cpu_utilization: as_utilization(k as f64 * 0.05),
                mem_utilization: as_utilization(k as f64 * 0.07),
                max_mem_utilization: as_utilization(k as f64 * 0.07),
                sample_count: 1,
            }
        })
        .collect();
    let agg = aggregate(&measurements).unwrap();
    println!("Agg: {:?}", agg);
    assert_eq!(agg.sample_count, n as u32);
    assert!((as_fraction(agg.cpu_utilization) - (0.05 / 2.0 * ((n - 1) as f64))).abs() < 0.001);
    assert!((as_fraction(agg.mem_utilization) - (0.07 / 2.0 * ((n - 1) as f64))).abs() < 0.001);
    assert!((as_fraction(agg.max_mem_utilization) - (0.07 * (n - 1) as f64)).abs() < 0.001);
}

#[test]
fn aggregate_multiple_gives_exact_values() {
    let base = SystemTime::UNIX_EPOCH + Duration::from_secs(1_700_000_000);
    let measurements: Vec<Measurement> = (0..10u32)
        .map(|k| sample(base + Duration::from_secs(k as u64 * 2), k * 50_000, k * 70_000, k * 70_000))
        .collect();
    let agg = aggregate(&measurements).unwrap();
    assert_eq!(
        agg,
        Measurement {
            timestamp: base + Duration::from_secs(18),
            cpu_utilization: 225_000,
            mem_utilization: 315_000,
            max_mem_utilization: 630_000,
            sample_count: 10,
        }
    );
}

#[test]
fn aggregate_counts_every_sample() {
    let base = SystemTime::UNIX_EPOCH;
    for n in 1..40u32 {
        let series: Vec<Measurement> =
            (0..n).map(|k| sample(base + Duration::from_secs(k as u64), k, k, k)).collect();
        assert_eq!(aggregate(&series).unwrap().sample_count, n);
    }
}

#[test]
fn aggregate_of_one_sample_is_that_sample() {
    let only = sample(SystemTime::UNIX_EPOCH + Duration::from_secs(5), 120_000, 340_000, 560_000);
    assert_eq!(aggregate(&[only]), Some(only));
}

#[test]
fn aggregate_takes_the_median_not_the_mean() {
    let t = SystemTime::UNIX_EPOCH;
    // One spike among quiet samples moves the mean, not the median.
    let series = vec![
        sample(t, 10_000, 200_000, 200_000),
        sample(t, 1_000_000, 900_000, 900_000),
        sample(t, 20_000, 210_000, 210_000),
        sample(t, 30_000, 220_000, 220_000),
        sample(t, 15_000, 205_000, 205_000),
    ];
    let agg = aggregate(&series).unwrap();
    assert_eq!(agg.cpu_utilization, 20_000);
    assert_eq!(agg.mem_utilization, 210_000);
    assert_eq!(agg.max_mem_utilization, 900_000);
}

#[test]
fn aggregate_of_an_even_window_takes_the_midpoint_rounded_down() {
    let t = SystemTime::UNIX_EPOCH;
    let series = vec![
        sample(t, 7, 100, 400),
        sample(t, 2, 300, 300),
        sample(t, 10, 201, 200),
        sample(t, 3, 0, 100),
    ];
    let agg = aggregate(&series).unwrap();
    // CPU in order: 2 3 7 10; memory in order: 0 100 201 300.
    assert_eq!(agg.cpu_utilization, 5);
    assert_eq!(agg.mem_utilization, 150);
    assert_eq!(agg.max_mem_utilization, 400);
    assert_eq!(agg.sample_count, 4);
}

#[test]
fn aggregate_takes_the_maximum_of_the_peaks() {
    let t = SystemTime::UNIX_EPOCH;
    let series = vec![
        sample(t, 1, 1, 500_000),
        sample(t, 1, 1, 750_000),
        sample(t, 1, 1, 250_000),
        sample(t, 1, 1, 750_000),
    ];
    assert_eq!(aggregate(&series).unwrap().max_mem_utilization, 750_000);
    let rising: Vec<Measurement> = (1..=9u32).map(|k| sample(t, 0, 0, k * 100_000)).collect();
    assert_eq!(aggregate(&rising).unwrap().max_mem_utilization, 900_000);
    let falling: Vec<Measurement> = (1..=9u32).rev().map(|k| sample(t, 0, 0, k * 100_000)).collect();
    assert_eq!(aggregate(&falling).unwrap().max_mem_utilization, 900_000);
}

#[test]
fn aggregate_takes_the_last_timestamp_even_if_it_is_not_the_latest() {
    let t = SystemTime::UNIX_EPOCH;
    let series = vec![
        sample(t + Duration::from_secs(30), 1, 1, 1),
        sample(t + Duration::from_secs(10), 2, 2, 2),
    ];
    assert_eq!(aggregate(&series).unwrap().timestamp, t + Duration::from_secs(10));
}

#[test]
fn aggregate_leaves_its_input_as_it_was_and_gives_the_same_again() {
    let t = SystemTime::UNIX_EPOCH;
    let series = vec![sample(t, 9, 8, 7), sample(t, 3, 2, 1), sample(t, 6, 5, 4)];
    let copy = series.clone();
    let first = aggregate(&series);
    let second = aggregate(&series);
    assert_eq!(series, copy);
    assert_eq!(first, second);
}

#[test]
fn aggregate_keeps_to_the_domain_and_the_peak_covers_the_usage() {
    let t = SystemTime::UNIX_EPOCH;
    let series: Vec<Measurement> = (0..25u32)
        .map(|k| {
            let mem = (k * 37_123) % (FULL_SCALE + 1);
            let peak = mem + (FULL_SCALE - mem) / 3;
            sample(t, (k * 91_007) % (FULL_SCALE + 1), mem, peak)
        })
        .collect();
    let agg = aggregate(&series).unwrap();
    assert!(agg.cpu_utilization <= FULL_SCALE);
    assert!(agg.mem_utilization <= FULL_SCALE);
    assert!(agg.max_mem_utilization <= FULL_SCALE);
    assert!(agg.mem_utilization <= agg.max_mem_utilization);
    assert!(agg.sample_count >= 1);
}

#[test]
fn aggregate_holds_the_largest_values_without_overflow() {
    let t = SystemTime::UNIX_EPOCH;
    let series = vec![sample(t, u32::MAX, u32::MAX, u32::MAX), sample(t, u32::MAX - 1, 1, 0)];
    let agg = aggregate(&series).unwrap();
    assert_eq!(agg.cpu_utilization, u32::MAX - 1);
    assert_eq!(agg.mem_utilization, 2_147_483_648);
    assert_eq!(agg.max_mem_utilization, u32::MAX);
}

#[test]
fn cpu_utilization_is_the_mean_of_the_cores() {
    assert_eq!(cpu_utilization(&vec![Some(250_000), Some(750_000)]), 500_000);
    assert_eq!(cpu_utilization(&vec![Some(100_000), Some(100_000), Some(100_001)]), 100_000);
    assert_eq!(cpu_utilization(&vec![Some(0)]), 0);
    assert_eq!(cpu_utilization(&vec![Some(1_000_000); 64]), 1_000_000);
}

#[test]
fn cpu_utilization_without_cores_is_zero() {
    assert_eq!(cpu_utilization(&vec![]), 0);
}

#[test]
fn cpu_utilization_with_an_unread_core_is_zero() {
    assert_eq!(cpu_utilization(&vec![Some(500_000), None, Some(500_000)]), 0);
    assert_eq!(cpu_utilization(&vec![None]), 0);
}

#[test]
fn cpu_utilization_is_capped_at_full_scale() {
    assert_eq!(cpu_utilization(&vec![Some(1_200_000), Some(1_100_000)]), FULL_SCALE);
    assert_eq!(cpu_utilization(&vec![Some(u32::MAX); 1000]), FULL_SCALE);
    assert_eq!(cpu_utilization(&vec![Some(1_000_001)]), FULL_SCALE);
}

#[test]
fn measurement_at_by_host_accounting() {
    let t = SystemTime::UNIX_EPOCH + Duration::from_secs(42);
    let raw = RawSample {
        cpu_usage: vec![Some(100_000), Some(300_000)],
        memory: host(1_000, 4_000),
    };
    assert_eq!(
        measurement_at(&raw, t),
        Measurement {
            timestamp: t,
            cpu_utilization: 200_000,
            mem_utilization: 250_000,
            max_mem_utilization: 250_000,
            sample_count: 1,
        }
    );
}

#[test]
fn measurement_at_by_control_group_accounting() {
    let t = SystemTime::UNIX_EPOCH + Duration::from_secs(43);
    let raw = RawSample {
        cpu_usage: vec![Some(900_000)],
        memory: MemoryReadings {
            used_memory: 1_000,
            total_memory: 4_000,
            cgroup_usage: Some(100),
            cgroup_peak: Some(150),
            cgroup_limit: Some(200),
        },
    };
    assert_eq!(
        measurement_at(&raw, t),
        Measurement {
            timestamp: t,
            cpu_utilization: 900_000,
            mem_utilization: 500_000,
            max_mem_utilization: 750_000,
            sample_count: 1,
        }
    );
}

#[test]
fn raw_samples_keep_to_the_domain_whatever_is_read() {
    let t = SystemTime::UNIX_EPOCH;
    let readings = [
        host(0, 0),
        host(u64::MAX, 1),
        host(5, 0),
        MemoryReadings {
            used_memory: 1,
            total_memory: 2,
            cgroup_usage: Some(u64::MAX),
            cgroup_peak: Some(u64::MAX),
            cgroup_limit: Some(0),
        },
        MemoryReadings {
            used_memory: 1,
            total_memory: 2,
            cgroup_usage: Some(u64::MAX),
            cgroup_peak: Some(u64::MAX),
            cgroup_limit: Some(3),
        },
    ];
    let cores = [vec![], vec![None], vec![Some(u32::MAX)], vec![Some(3), Some(4)]];
    for memory in readings {
        for cpu_usage in cores.iter() {
            let m = measurement_at(&RawSample { cpu_usage: cpu_usage.clone(), memory }, t);
            assert!(m.cpu_utilization <= FULL_SCALE);
            assert!(m.mem_utilization <= FULL_SCALE);
            assert!(m.max_mem_utilization <= FULL_SCALE);
            assert_eq!(m.sample_count, 1);
        }
    }
}

#[test]
fn create_measurement_stamps_the_time_of_the_call() {
    let raw = RawSample { cpu_usage: vec![Some(400_000)], memory: host(1, 2) };
    let before = SystemTime::now();
    let m = create_measurement(&raw);
    let after = SystemTime::now();
    assert!(before <= m.timestamp && m.timestamp <= after);
    assert_eq!(m, measurement_at(&raw, m.timestamp));
    assert_eq!(m.cpu_utilization, 400_000);
    assert_eq!(m.mem_utilization, 500_000);
    assert_eq!(m.max_mem_utilization, 500_000);
    assert_eq!(m.sample_count, 1);
}

#[test]
fn aggregate_agrees_with_the_statistics_of_the_fractions() {
    let base = SystemTime::UNIX_EPOCH;
    let mut seed: u32 = 4711;
    let mut next = move || {
        seed = seed.wrapping_mul(1_664_525).wrapping_add(1_013_904_223);
        (seed >> 8) % (FULL_SCALE + 1)
    };
    for n in 1..60u64 {
        let series: Vec<Measurement> = (0..n)
            .map(|k| {
                let mem = next();
                sample(base + Duration::from_secs(k), next(), mem, mem.max(next()))
            })
            .collect();
        let agg = aggregate(&series).unwrap();
        let avg_cpu: f64 = series
            .iter()
            .map(|m| as_fraction(m.cpu_utilization))
            .collect::<Vec<f64>>()
            .medf_checked()
            .unwrap();
        let avg_mem: f64 = series
            .iter()
            .map(|m| as_fraction(m.mem_utilization))
            .collect::<Vec<f64>>()
            .medf_checked()
            .unwrap();
        let max_mem: f64 = series
            .iter()
            .map(|m| as_fraction(m.max_mem_utilization))
            .collect::<Vec<f64>>()
            .minmax()
            .max;
        assert!((as_fraction(agg.cpu_utilization) - avg_cpu).abs() < 0.000_001);
        assert!((as_fraction(agg.mem_utilization) - avg_mem).abs() < 0.000_001);
        assert!((as_fraction(agg.max_mem_utilization) - max_mem).abs() < 0.000_000_1);
        assert_eq!(agg.sample_count as u64, n);
        assert_eq!(agg.timestamp, base + Duration::from_secs(n - 1));
    }
}
