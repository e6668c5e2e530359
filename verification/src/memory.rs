//! Memory utilization of the host or of the control group it runs in.

use crate::text::{
    after_first_line, begins_with, decimal, find_line_end, first_line, last_word,
    last_word_bounds, line_with_key, parse_decimal, CARRIAGE_RETURN,
};
use vstd::prelude::*;

verus! {

/// The value that stands for full utilization: `u` stands for the fraction
/// `u / FULL_SCALE`.
pub const FULL_SCALE: u32 = 1_000_000;

/// Memory in use and its peak, each as a fraction of what is available.
#[derive(Clone, Copy, Debug, PartialEq, Eq, Structural)]
pub struct MemoryMeasurement {
    pub utilization: u32,
    pub max_utilization: u32,
}

/// The byte counters that one reading of the host's memory gives. A control
/// group counter is `None` where it could not be read.
#[derive(Clone, Copy, Debug, PartialEq, Eq, Structural)]
pub struct MemoryReadings {
    pub used_memory: u64,
    pub total_memory: u64,
    pub cgroup_usage: Option<u64>,
    pub cgroup_peak: Option<u64>,
    pub cgroup_limit: Option<u64>,
}

/// A limit of this size or more in a control group's statistics means that
/// no limit is set.
pub const NO_LIMIT: u64 = 0x7FFF_FFFF_FFFF_0000;

/// The text `hierarchical_memory_limit `, trailing blank included: what the
/// line of a control group's statistics begins with that holds its limit.
pub open spec fn limit_key() -> Seq<u8> {
    seq![
        0x68u8, 0x69u8, 0x65u8, 0x72u8, 0x61u8, 0x72u8, 0x63u8, 0x68u8, 0x69u8, 0x63u8, 0x61u8,
        0x6cu8, 0x5fu8, 0x6du8, 0x65u8, 0x6du8, 0x6fu8, 0x72u8, 0x79u8, 0x5fu8, 0x6cu8, 0x69u8,
        0x6du8, 0x69u8, 0x74u8, 0x20u8,
    ]
}

/// The byte counter that a control group file holds: the number that its
/// first line writes. `None` where the file is empty or the line is no
/// number.
pub open spec fn counter_of(content: Seq<u8>) -> Option<u64> {
    if content.len() == 0 {
        None
    } else {
        decimal(first_line(content))
    }
}

/// The memory limit that a control group's statistics hold: the number that
/// is the last word of the first line that begins with `limit_key()`. `None`
/// where no line begins so, where that word is no number, and where the
/// number says that no limit is set.
pub open spec fn limit_of(stat: Seq<u8>) -> Option<u64> {
    match line_with_key(stat, limit_key()) {
        Some(line) => match decimal(last_word(line)) {
            Some(limit) if limit < NO_LIMIT => Some(limit),
            _ => None,
        },
        None => None,
    }
}

/// `x`, or `FULL_SCALE` where `x` is beyond it.
pub open spec fn capped(x: int) -> int {
    if x > FULL_SCALE {
        FULL_SCALE as int
    } else {
        x
    }
}

/// `part / whole` in units of `1 / FULL_SCALE`, rounded down and capped at
/// `FULL_SCALE`; 0 where `whole` is 0.
pub open spec fn fraction(part: int, whole: int) -> int {
    if whole <= 0 {
        0
    } else {
        capped(part * FULL_SCALE / whole)
    }
}

/// What control group accounting gives: usage and peak over the limit, where
/// all three counters were read.
pub open spec fn cgroups_v1_memory(readings: MemoryReadings) -> Option<MemoryMeasurement> {
    match (readings.cgroup_usage, readings.cgroup_peak, readings.cgroup_limit) {
        (Some(usage), Some(peak), Some(limit)) => Some(
            MemoryMeasurement {
                utilization: fraction(usage as int, limit as int) as u32,
                max_utilization: fraction(peak as int, limit as int) as u32,
            },
        ),
        _ => None,
    }
}

/// What host-wide accounting gives: used over total memory, which is its own
/// peak.
pub open spec fn host_memory(readings: MemoryReadings) -> MemoryMeasurement {
    MemoryMeasurement {
        utilization: fraction(readings.used_memory as int, readings.total_memory as int) as u32,
        max_utilization: fraction(readings.used_memory as int, readings.total_memory as int) as u32,
    }
}

/// The memory measurement that `readings` gives: by control group accounting
/// where that is available, else host-wide.
pub open spec fn memory_of(readings: MemoryReadings) -> MemoryMeasurement {
    match cgroups_v1_memory(readings) {
        Some(memory) => memory,
        None => host_memory(readings),
    }
}

/// A fraction is never negative and never beyond `FULL_SCALE`.
pub proof fn lemma_fraction_range(part: int, whole: int)
    requires
        part >= 0,
    ensures
        0 <= fraction(part, whole) <= FULL_SCALE,
{
    if whole > 0 {
        assert(part * FULL_SCALE >= 0) by (nonlinear_arith)
            requires
                part >= 0,
                FULL_SCALE >= 0,
        ;
        assert(part * FULL_SCALE / whole >= 0) by (nonlinear_arith)
            requires
                part * FULL_SCALE >= 0,
                whole > 0,
        ;
    }
}

/// `part` as a fraction of `whole`.
pub fn utilization(part: u64, whole: u64) -> (u: u32)
    ensures
        u == fraction(part as int, whole as int),
        u <= FULL_SCALE,
{
    proof {
        lemma_fraction_range(part as int, whole as int);
    }
    if whole == 0 {
        0
    } else {
        assert(part * FULL_SCALE <= u128::MAX) by (nonlinear_arith)
            requires
                part <= u64::MAX,
                FULL_SCALE == 1_000_000,
        ;
        let scaled: u128 = (part as u128) * (FULL_SCALE as u128);
        let quotient: u128 = scaled / (whole as u128);
        if quotient > FULL_SCALE as u128 {
            FULL_SCALE
        } else {
            quotient as u32
        }
    }
}

/// Where the first line of `text` from `from` on ends, and where its content
/// ends: before a carriage return that closes it.
fn first_line_bounds(text: &[u8], from: usize) -> (bounds: (usize, usize))
    requires
        from <= text@.len(),
    ensures
        from <= bounds.0 <= bounds.1 <= text@.len(),
        text@.subrange(from as int, bounds.0 as int) == first_line(
            text@.subrange(from as int, text@.len() as int),
        ),
        bounds.1 < text@.len() ==> text@.subrange(bounds.1 + 1, text@.len() as int)
            == after_first_line(text@.subrange(from as int, text@.len() as int)),
        bounds.1 == text@.len() ==> after_first_line(
            text@.subrange(from as int, text@.len() as int),
        ) == Seq::<u8>::empty(),
{
    let ghost rest = text@.subrange(from as int, text@.len() as int);
    let end = find_line_end(text, from);
    let content_end = if from < end && end < text.len() && text[end - 1] == CARRIAGE_RETURN {
        end - 1
    } else {
        end
    };
    proof {
        assert(from < end ==> rest[end - from - 1] == text@[end - 1]);
        assert(text@.subrange(from as int, content_end as int) =~= rest.subrange(
            0,
            content_end - from,
        ));
        if end < text@.len() {
            assert(text@.subrange(end + 1, text@.len() as int) =~= rest.subrange(
                end - from + 1,
                rest.len() as int,
            ));
        }
    }
    (content_end, end)
}

/// The byte counter that the content of a control group file holds, such as
/// its memory usage or the peak of it.
pub fn read_cgroups_v1_counter(content: &[u8]) -> (counter: Option<u64>)
    ensures
        counter == counter_of(content@),
{
    if content.len() == 0 {
        return None;
    }
    let (content_end, _end) = first_line_bounds(content, 0);
    proof {
        assert(content@.subrange(0, content@.len() as int) =~= content@);
    }
    parse_decimal(content, 0, content_end)
}

/// The memory limit that the content of a control group's statistics file
/// holds.
pub fn read_cgroups_v1_limit(stat: &[u8]) -> (limit: Option<u64>)
    ensures
        limit == limit_of(stat@),
{
    let key: [u8; 26] = [
        0x68, 0x69, 0x65, 0x72, 0x61, 0x72, 0x63, 0x68, 0x69, 0x63, 0x61, 0x6c, 0x5f, 0x6d, 0x65,
        0x6d, 0x6f, 0x72, 0x79, 0x5f, 0x6c, 0x69, 0x6d, 0x69, 0x74, 0x20,
    ];
    assert(key@ =~= limit_key());
    let length: usize = stat.len();
    let mut position: usize = 0;
    proof {
        assert(stat@.subrange(0, length as int) =~= stat@);
    }
    while position < length
        invariant
            position <= length == stat@.len(),
            key@ == limit_key(),
            line_with_key(stat@, limit_key()) == line_with_key(
                stat@.subrange(position as int, length as int),
                limit_key(),
            ),
        decreases length - position,
    {
        let (content_end, end) = first_line_bounds(stat, position);
        if begins_with(stat, position, content_end, key.as_slice()) {
            let (word_from, word_to) = last_word_bounds(stat, position, content_end);
            return match parse_decimal(stat, word_from, word_to) {
                Some(limit) => if limit < NO_LIMIT {
                    Some(limit)
                } else {
                    None
                },
                None => None,
            };
        }
        if end < length {
            position = end + 1;
        } else {
            proof {
                assert(stat@.subrange(length as int, length as int) =~= Seq::<u8>::empty());
            }
            position = length;
        }
    }
    None
}

/// Memory utilization by control group accounting, or `None` where one of its
/// three counters is missing.
pub fn collect_memory_cgroups_v1(readings: &MemoryReadings) -> (memory: Option<MemoryMeasurement>)
    ensures
        memory == cgroups_v1_memory(*readings),
{
    match (readings.cgroup_usage, readings.cgroup_peak, readings.cgroup_limit) {
        (Some(usage), Some(peak), Some(limit)) => Some(
            MemoryMeasurement {
                utilization: utilization(usage, limit),
                max_utilization: utilization(peak, limit),
            },
        ),
        _ => None,
    }
}

/// Memory utilization by host-wide accounting.
pub fn collect_memory_sysinfo(readings: &MemoryReadings) -> (memory: MemoryMeasurement)
    ensures
        memory == host_memory(*readings),
{
    let used = utilization(readings.used_memory, readings.total_memory);
    MemoryMeasurement { utilization: used, max_utilization: used }
}

/// Memory utilization of the host: by control group accounting where all its
/// counters were read, else host-wide. Both values are fractions in range.
pub fn collect_memory(readings: &MemoryReadings) -> (memory: MemoryMeasurement)
    ensures
        memory == memory_of(*readings),
        memory.utilization <= FULL_SCALE,
        memory.max_utilization <= FULL_SCALE,
{
    if let Some(memory) = collect_memory_cgroups_v1(readings) {
        return memory;
    }
    collect_memory_sysinfo(readings)
}

} // verus!
