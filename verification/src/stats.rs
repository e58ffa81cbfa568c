//! Resource sample calculator: turns two raw counter snapshots into
//! normalized percentage/MB metrics.
//!
//! All derived metrics are exact rationals rounded to two decimal
//! places, half away from zero; they are carried as integer hundredths
//! (`12346` stands for `123.46`). Byte sums over interfaces or block
//! devices saturate at `u64::MAX` bytes, and derived values saturate at
//! `u64::MAX` hundredths.

use vstd::prelude::*;

use crate::strutil::{dec_str, digit_char, eq_ci, push_dec, str_eq_ci};

verus! {

/// One raw counter snapshot, as delivered by a one-shot stats read.
#[derive(Clone, Debug)]
pub struct RawCounters {
    /// Total CPU time consumed by the container, in runtime ticks.
    pub cpu_total_usage: u64,
    /// Total CPU time of the host, in runtime ticks.
    pub system_cpu_usage: u64,
    /// Number of CPUs available to the container.
    pub online_cpus: u32,
    /// Memory in use, in bytes.
    pub memory_usage_bytes: u64,
    /// Memory limit, in bytes; 0 when absent.
    pub memory_limit_bytes: u64,
    /// Received bytes, one entry per network interface.
    pub network_rx_bytes: Vec<u64>,
    /// Transmitted bytes, one entry per network interface.
    pub network_tx_bytes: Vec<u64>,
    /// Block I/O totals, one entry per device and operation.
    pub block_entries: Vec<BlockIoEntry>,
    /// Number of processes in the container.
    pub pid_count: u64,
}

/// One block I/O counter: an operation tag and its byte total.
#[derive(Clone, Debug)]
pub struct BlockIoEntry {
    /// Operation tag as reported by the runtime (`"Read"`, `"write"`, ...).
    pub op: String,
    /// Bytes moved by this operation on this device.
    pub bytes: u64,
}

/// Normalized resource sample; every metric is in integer hundredths.
#[derive(Clone, Copy, Debug, PartialEq, Eq, Structural)]
pub struct ContainerStats {
    pub cpu_percent_hundredths: u64,
    pub memory_usage_mb_hundredths: u64,
    pub memory_limit_mb_hundredths: u64,
    pub memory_percent_hundredths: u64,
    pub network_rx_mb_hundredths: u64,
    pub network_tx_mb_hundredths: u64,
    pub block_read_mb_hundredths: u64,
    pub block_write_mb_hundredths: u64,
    pub pids: u64,
}

/// `x` clipped to the range of `u64`.
pub open spec fn sat_u64(x: int) -> int {
    if x > u64::MAX as int {
        u64::MAX as int
    } else {
        x
    }
}

/// The ratio `n / d` in hundredths, rounded half away from zero
/// (inputs are non-negative, so half up).
pub open spec fn round_hundredths(n: int, d: int) -> int {
    (200 * n + d) / (2 * d)
}

/// Bytes converted to MB (divide by 1048576) in hundredths.
pub open spec fn mb_hundredths(bytes: int) -> int {
    round_hundredths(bytes, 1048576)
}

/// Saturating sum of a sequence of byte counts.
pub open spec fn sum_sat(s: Seq<u64>) -> int
    decreases s.len(),
{
    if s.len() == 0 {
        0
    } else {
        sat_u64(sum_sat(s.drop_last()) + s.last() as int)
    }
}

/// Saturating sum of the block entries whose tag matches `tag`,
/// compared case-insensitively.
pub open spec fn block_sum_sat(s: Seq<BlockIoEntry>, tag: Seq<char>) -> int
    decreases s.len(),
{
    if s.len() == 0 {
        0
    } else if eq_ci(s.last().op@, tag) {
        sat_u64(block_sum_sat(s.drop_last(), tag) + s.last().bytes as int)
    } else {
        block_sum_sat(s.drop_last(), tag)
    }
}

/// CPU percentage in hundredths: `(cpuDelta / systemDelta) * cpus * 100`,
/// 0 whenever either delta is non-positive.
pub open spec fn spec_cpu_percent_h(curr: RawCounters, prev: RawCounters) -> int {
    let cpu_delta = curr.cpu_total_usage as int - prev.cpu_total_usage as int;
    let sys_delta = curr.system_cpu_usage as int - prev.system_cpu_usage as int;
    if cpu_delta <= 0 || sys_delta <= 0 {
        0
    } else {
        round_hundredths(cpu_delta * curr.online_cpus as int * 100, sys_delta)
    }
}

/// Memory percentage in hundredths: `(usage / limit) * 100`, 0 when the
/// limit is 0.
pub open spec fn spec_mem_percent_h(usage: int, limit: int) -> int {
    if limit <= 0 {
        0
    } else {
        round_hundredths(usage * 100, limit)
    }
}

/// The normalized sample derived from two snapshots.
pub open spec fn spec_sample(curr: RawCounters, prev: RawCounters) -> ContainerStats {
    ContainerStats {
        cpu_percent_hundredths: sat_u64(spec_cpu_percent_h(curr, prev)) as u64,
        memory_usage_mb_hundredths: mb_hundredths(curr.memory_usage_bytes as int) as u64,
        memory_limit_mb_hundredths: mb_hundredths(curr.memory_limit_bytes as int) as u64,
        memory_percent_hundredths: sat_u64(
            spec_mem_percent_h(curr.memory_usage_bytes as int, curr.memory_limit_bytes as int),
        ) as u64,
        network_rx_mb_hundredths: mb_hundredths(sum_sat(curr.network_rx_bytes@)) as u64,
        network_tx_mb_hundredths: mb_hundredths(sum_sat(curr.network_tx_bytes@)) as u64,
        block_read_mb_hundredths: mb_hundredths(block_sum_sat(curr.block_entries@, "read"@)) as u64,
        block_write_mb_hundredths: mb_hundredths(
            block_sum_sat(curr.block_entries@, "write"@),
        ) as u64,
        pids: curr.pid_count,
    }
}

proof fn lemma_mb_hundredths_fits(bytes: int)
    requires
        0 <= bytes <= u64::MAX as int,
    ensures
        0 <= mb_hundredths(bytes) <= u64::MAX as int,
{
}

/// Convert a byte count to MB in hundredths.
pub fn bytes_to_mb_hundredths(bytes: u64) -> (r: u64)
    ensures
        r as int == mb_hundredths(bytes as int),
{
    proof {
        lemma_mb_hundredths_fits(bytes as int);
    }
    let n: u128 = 200 * (bytes as u128) + 1048576;
    (n / 2097152) as u64
}

fn sum_bytes_sat(v: &Vec<u64>) -> (r: u64)
    ensures
        r as int == sum_sat(v@),
{
    let mut acc: u64 = 0;
    let mut i: usize = 0;
    proof {
        assert(v@.take(0) =~= Seq::<u64>::empty());
    }
    while i < v.len()
        invariant
            i <= v@.len(),
            acc as int == sum_sat(v@.take(i as int)),
        decreases v@.len() - i,
    {
        proof {
            assert(v@.take(i + 1 as int).drop_last() =~= v@.take(i as int));
            assert(v@.take(i + 1 as int).last() == v@[i as int]);
        }
        let x = v[i];
        if acc <= u64::MAX - x {
            acc = acc + x;
        } else {
            acc = u64::MAX;
        }
        i += 1;
    }
    proof {
        assert(v@.take(v@.len() as int) =~= v@);
    }
    acc
}

fn block_sum_exec(v: &Vec<BlockIoEntry>, tag: &str) -> (r: u64)
    ensures
        r as int == block_sum_sat(v@, tag@),
{
    let mut acc: u64 = 0;
    let mut i: usize = 0;
    proof {
        assert(v@.take(0) =~= Seq::<BlockIoEntry>::empty());
    }
    while i < v.len()
        invariant
            i <= v@.len(),
            acc as int == block_sum_sat(v@.take(i as int), tag@),
        decreases v@.len() - i,
    {
        proof {
            assert(v@.take(i + 1 as int).drop_last() =~= v@.take(i as int));
            assert(v@.take(i + 1 as int).last() == v@[i as int]);
        }
        if str_eq_ci(v[i].op.as_str(), tag) {
            let x = v[i].bytes;
            if acc <= u64::MAX - x {
                acc = acc + x;
            } else {
                acc = u64::MAX;
            }
        }
        i += 1;
    }
    proof {
        assert(v@.take(v@.len() as int) =~= v@);
    }
    acc
}

/// Convert two raw counter snapshots into a normalized sample.
///
/// CPU and memory percentages are 0 whenever their denominator is not
/// positive, so the calculation never divides by zero; no metric can be
/// negative.
pub fn compute_sample(curr: &RawCounters, prev: &RawCounters) -> (r: ContainerStats)
    ensures
        r == spec_sample(*curr, *prev),
{
    let cpu_percent_hundredths: u64 = if curr.cpu_total_usage > prev.cpu_total_usage
        && curr.system_cpu_usage > prev.system_cpu_usage {
        let cpu_delta = (curr.cpu_total_usage - prev.cpu_total_usage) as u128;
        let sys_delta = (curr.system_cpu_usage - prev.system_cpu_usage) as u128;
        proof {
            vstd::arithmetic::mul::lemma_mul_upper_bound(
                cpu_delta as int,
                u64::MAX as int,
                curr.online_cpus as int,
                u32::MAX as int,
            );
        }
        let n: u128 = cpu_delta * (curr.online_cpus as u128) * 100;
        let q: u128 = (200 * n + sys_delta) / (2 * sys_delta);
        if q > u64::MAX as u128 {
            u64::MAX
        } else {
            q as u64
        }
    } else {
        0
    };
    let memory_percent_hundredths: u64 = if curr.memory_limit_bytes > 0 {
        let n: u128 = (curr.memory_usage_bytes as u128) * 100;
        let d: u128 = curr.memory_limit_bytes as u128;
        let q: u128 = (200 * n + d) / (2 * d);
        if q > u64::MAX as u128 {
            u64::MAX
        } else {
            q as u64
        }
    } else {
        0
    };
    let rx = sum_bytes_sat(&curr.network_rx_bytes);
    let tx = sum_bytes_sat(&curr.network_tx_bytes);
    let rd = block_sum_exec(&curr.block_entries, "read");
    let wr = block_sum_exec(&curr.block_entries, "write");
    ContainerStats {
        cpu_percent_hundredths,
        memory_usage_mb_hundredths: bytes_to_mb_hundredths(curr.memory_usage_bytes),
        memory_limit_mb_hundredths: bytes_to_mb_hundredths(curr.memory_limit_bytes),
        memory_percent_hundredths,
        network_rx_mb_hundredths: bytes_to_mb_hundredths(rx),
        network_tx_mb_hundredths: bytes_to_mb_hundredths(tx),
        block_read_mb_hundredths: bytes_to_mb_hundredths(rd),
        block_write_mb_hundredths: bytes_to_mb_hundredths(wr),
        pids: curr.pid_count,
    }
}

/// A zero or negative CPU or system delta yields a zero CPU
/// percentage, and a zero memory limit yields a zero memory
/// percentage: the calculation never divides by zero and never
/// produces a negative metric.
pub proof fn lemma_sample_guards(curr: RawCounters, prev: RawCounters)
    ensures
        curr.cpu_total_usage <= prev.cpu_total_usage ==> spec_sample(
            curr,
            prev,
        ).cpu_percent_hundredths == 0,
        curr.system_cpu_usage <= prev.system_cpu_usage ==> spec_sample(
            curr,
            prev,
        ).cpu_percent_hundredths == 0,
        curr.memory_limit_bytes == 0 ==> spec_sample(curr, prev).memory_percent_hundredths == 0,
        spec_cpu_percent_h(curr, prev) >= 0,
        spec_mem_percent_h(curr.memory_usage_bytes as int, curr.memory_limit_bytes as int) >= 0,
{
}

/// Decimal string of a value in hundredths, always with two decimal
/// places: `12346` renders as `"123.46"`.
pub open spec fn spec_hundredths_str(h: nat) -> Seq<char> {
    dec_str(h / 100) + seq![
        '.',
        digit_char(((h % 100) / 10) as int),
        digit_char((h % 10) as int),
    ]
}

/// Render a value in hundredths with two decimal places.
pub fn format_hundredths(h: u64) -> (r: String)
    ensures
        r@ == spec_hundredths_str(h as nat),
{
    let mut s = String::new();
    push_dec(&mut s, h / 100);
    s.push('.');
    s.push((48 + ((h % 100) / 10) as u8) as char);
    s.push((48 + (h % 10) as u8) as char);
    proof {
        assert(s@ =~= spec_hundredths_str(h as nat));
    }
    s
}

} // verus!
