use cloudwatch_metrics_agent::memory::{
    collect_memory, collect_memory_cgroups_v1, collect_memory_sysinfo, read_cgroups_v1_counter,
    read_cgroups_v1_limit, utilization, MemoryMeasurement, MemoryReadings, FULL_SCALE, NO_LIMIT,
};

fn readings(
    used_memory: u64,
    total_memory: u64,
    cgroup_usage: Option<u64>,
    cgroup_peak: Option<u64>,
    cgroup_limit: Option<u64>,
) -> MemoryReadings {
    MemoryReadings { used_memory, total_memory, cgroup_usage, cgroup_peak, cgroup_limit }
}

#[test]
fn utilization_is_the_fraction_rounded_down() {
    assert_eq!(utilization(1, 2), 500_000);
    assert_eq!(utilization(1, 3), 333_333);
    assert_eq!(utilization(2, 3), 666_666);
    assert_eq!(utilization(0, 5), 0);
    assert_eq!(utilization(5, 5), FULL_SCALE);
    assert_eq!(utilization(1, 1_000_001), 0);
    assert_eq!(utilization(8_589_934_592, 17_179_869_184), 500_000);
}

#[test]
fn utilization_of_nothing_is_zero() {
    assert_eq!(utilization(0, 0), 0);
    assert_eq!(utilization(7, 0), 0);
    assert_eq!(utilization(u64::MAX, 0), 0);
}

#[test]
fn utilization_is_capped_at_full_scale() {
    assert_eq!(utilization(9, 3), FULL_SCALE);
    assert_eq!(utilization(u64::MAX, 1), FULL_SCALE);
    assert_eq!(utilization(u64::MAX, u64::MAX), FULL_SCALE);
    assert_eq!(utilization(u64::MAX, u64::MAX - 1), FULL_SCALE);
    assert_eq!(utilization(u64::MAX - 1, u64::MAX), 999_999);
}

#[test]
fn control_group_accounting_needs_all_three_counters() {
    assert_eq!(
        collect_memory_cgroups_v1(&readings(1, 2, Some(100), Some(150), Some(400))),
        Some(MemoryMeasurement { utilization: 250_000, max_utilization: 375_000 })
    );
    assert_eq!(collect_memory_cgroups_v1(&readings(1, 2, None, Some(150), Some(400))), None);
    assert_eq!(collect_memory_cgroups_v1(&readings(1, 2, Some(100), None, Some(400))), None);
    assert_eq!(collect_memory_cgroups_v1(&readings(1, 2, Some(100), Some(150), None)), None);
    assert_eq!(collect_memory_cgroups_v1(&readings(1, 2, None, None, None)), None);
}

#[test]
fn host_accounting_is_its_own_peak() {
    assert_eq!(
        collect_memory_sysinfo(&readings(3, 12, Some(1), Some(1), Some(1))),
        MemoryMeasurement { utilization: 250_000, max_utilization: 250_000 }
    );
    assert_eq!(
        collect_memory_sysinfo(&readings(3, 0, None, None, None)),
        MemoryMeasurement { utilization: 0, max_utilization: 0 }
    );
}

#[test]
fn collect_memory_prefers_control_group_accounting() {
    assert_eq!(
        collect_memory(&readings(3, 12, Some(100), Some(150), Some(400))),
        MemoryMeasurement { utilization: 250_000, max_utilization: 375_000 }
    );
    assert_eq!(
        collect_memory(&readings(3, 4, Some(10), Some(20), Some(40))),
        MemoryMeasurement { utilization: 250_000, max_utilization: 500_000 }
    );
}

#[test]
fn collect_memory_falls_back_to_host_accounting() {
    let expected = MemoryMeasurement { utilization: 750_000, max_utilization: 750_000 };
    assert_eq!(collect_memory(&readings(3, 4, None, None, None)), expected);
    assert_eq!(collect_memory(&readings(3, 4, Some(10), Some(20), None)), expected);
    assert_eq!(collect_memory(&readings(3, 4, None, Some(20), Some(40))), expected);
    assert_eq!(collect_memory(&readings(3, 4, Some(10), None, Some(40))), expected);
}

#[test]
fn collect_memory_with_a_limit_of_zero_is_zero() {
    assert_eq!(
        collect_memory(&readings(3, 4, Some(10), Some(20), Some(0))),
        MemoryMeasurement { utilization: 0, max_utilization: 0 }
    );
    assert_eq!(
        collect_memory(&readings(3, 4, Some(0), Some(0), Some(0))),
        MemoryMeasurement { utilization: 0, max_utilization: 0 }
    );
}

#[test]
fn counter_is_the_number_on_the_first_line() {
    assert_eq!(read_cgroups_v1_counter(b"12345\n"), Some(12345));
    assert_eq!(read_cgroups_v1_counter(b"12345"), Some(12345));
    assert_eq!(read_cgroups_v1_counter(b"0\n"), Some(0));
    assert_eq!(read_cgroups_v1_counter(b"007\n"), Some(7));
    assert_eq!(read_cgroups_v1_counter(b"+42\n"), Some(42));
    assert_eq!(read_cgroups_v1_counter(b"12\r\n"), Some(12));
    assert_eq!(read_cgroups_v1_counter(b"12\nnot a number\n"), Some(12));
    assert_eq!(read_cgroups_v1_counter(b"18446744073709551615\n"), Some(u64::MAX));
}

#[test]
fn counter_is_missing_where_the_first_line_is_no_number() {
    assert_eq!(read_cgroups_v1_counter(b""), None);
    assert_eq!(read_cgroups_v1_counter(b"\n"), None);
    assert_eq!(read_cgroups_v1_counter(b"\n12\n"), None);
    assert_eq!(read_cgroups_v1_counter(b"abc\n"), None);
    assert_eq!(read_cgroups_v1_counter(b"12a\n"), None);
    assert_eq!(read_cgroups_v1_counter(b" 12\n"), None);
    assert_eq!(read_cgroups_v1_counter(b"12 \n"), None);
    assert_eq!(read_cgroups_v1_counter(b"12\r"), None);
    assert_eq!(read_cgroups_v1_counter(b"-12\n"), None);
    assert_eq!(read_cgroups_v1_counter(b"+\n"), None);
    assert_eq!(read_cgroups_v1_counter(b"++1\n"), None);
    assert_eq!(read_cgroups_v1_counter(b"1.5\n"), None);
    assert_eq!(read_cgroups_v1_counter(b"18446744073709551616\n"), None);
    assert_eq!(read_cgroups_v1_counter(b"99999999999999999999999\n"), None);
    assert_eq!(read_cgroups_v1_counter(&[0x31, 0xff, 0x0a]), None);
}

#[test]
fn counter_agrees_with_the_standard_parser() {
    let texts = [
        "1", "10", "+10", "-10", "", "+", "0000", "18446744073709551615", "18446744073709551616",
        "184467440737095516150", "9", "x", "1x", "x1", " 1", "1 ", "+0", "00018446744073709551615",
    ];
    for text in texts {
        let expected = if text.is_empty() { None } else { text.parse::<u64>().ok() };
        assert_eq!(read_cgroups_v1_counter(text.as_bytes()), expected, "{:?}", text);
    }
}

#[test]
fn limit_is_the_last_word_of_the_line_with_the_key() {
    let stat = b"cache 1130496\nrss 3108864\nhierarchical_memory_limit 536870912\nhierarchical_memsw_limit 1073741824\ntotal_cache 1130496\n";
    assert_eq!(read_cgroups_v1_limit(stat), Some(536_870_912));
    assert_eq!(read_cgroups_v1_limit(b"hierarchical_memory_limit 1024"), Some(1024));
    assert_eq!(read_cgroups_v1_limit(b"hierarchical_memory_limit 1024\r\n"), Some(1024));
    assert_eq!(read_cgroups_v1_limit(b"hierarchical_memory_limit \t 1024  \n"), Some(1024));
    assert_eq!(read_cgroups_v1_limit(b"hierarchical_memory_limit 5 6 7\n"), Some(7));
    assert_eq!(read_cgroups_v1_limit(b"hierarchical_memory_limit +8\n"), Some(8));
    assert_eq!(read_cgroups_v1_limit(b"hierarchical_memory_limit 0\n"), Some(0));
    assert_eq!(read_cgroups_v1_limit(b"\n\nhierarchical_memory_limit 3\n"), Some(3));
}

#[test]
fn limit_goes_by_the_first_line_with_the_key() {
    assert_eq!(
        read_cgroups_v1_limit(b"hierarchical_memory_limit 1\nhierarchical_memory_limit 2\n"),
        Some(1)
    );
    assert_eq!(
        read_cgroups_v1_limit(b"hierarchical_memory_limit x\nhierarchical_memory_limit 2\n"),
        None
    );
}

#[test]
fn limit_is_missing_without_a_line_that_begins_with_the_key() {
    assert_eq!(read_cgroups_v1_limit(b""), None);
    assert_eq!(read_cgroups_v1_limit(b"cache 1\nrss 2\n"), None);
    assert_eq!(read_cgroups_v1_limit(b"hierarchical_memory_limit\n"), None);
    assert_eq!(read_cgroups_v1_limit(b"hierarchical_memory_limit\t7\n"), None);
    assert_eq!(read_cgroups_v1_limit(b" hierarchical_memory_limit 7\n"), None);
    assert_eq!(read_cgroups_v1_limit(b"total hierarchical_memory_limit 7\n"), None);
    assert_eq!(read_cgroups_v1_limit(b"hierarchical_memsw_limit 7\n"), None);
    assert_eq!(read_cgroups_v1_limit(b"Hierarchical_memory_limit 7\n"), None);
}

#[test]
fn limit_is_missing_where_the_last_word_is_no_number() {
    assert_eq!(read_cgroups_v1_limit(b"hierarchical_memory_limit \n"), None);
    assert_eq!(read_cgroups_v1_limit(b"hierarchical_memory_limit max\n"), None);
    assert_eq!(read_cgroups_v1_limit(b"hierarchical_memory_limit 12 kB\n"), None);
    assert_eq!(read_cgroups_v1_limit(b"hierarchical_memory_limit -1\n"), None);
    assert_eq!(read_cgroups_v1_limit(b"hierarchical_memory_limit 18446744073709551616\n"), None);
}

#[test]
fn limit_is_missing_where_none_is_set() {
    assert_eq!(NO_LIMIT, 0x7FFF_FFFF_FFFF_0000);
    assert_eq!(read_cgroups_v1_limit(b"hierarchical_memory_limit 9223372036854771712\n"), None);
    assert_eq!(read_cgroups_v1_limit(b"hierarchical_memory_limit 9223372036854710272\n"), None);
    assert_eq!(
        read_cgroups_v1_limit(b"hierarchical_memory_limit 9223372036854710271\n"),
        Some(9_223_372_036_854_710_271)
    );
    assert_eq!(read_cgroups_v1_limit(b"hierarchical_memory_limit 18446744073709551615\n"), None);
}
