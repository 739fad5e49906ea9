//! Usage arithmetic: CPU load from two snapshots of the cumulative tick
//! counters, GPU utilisation from the accelerators' performance statistics,
//! and the memory in use from the VM page counts.
//!
//! The queries themselves (`host_statistics`, IOKit, `sysctl`) are made by the
//! program; these functions take what the queries returned.

use vstd::prelude::*;

verus! {

/// Which usage figures a poll computes; a figure switched off is not queried.
#[derive(Debug, Clone, Copy, PartialEq, Eq)]
pub struct MetricsFlags {
    pub cpu_usage: bool,
    pub gpu_usage: bool,
    pub ram: bool,
}

// ── CPU ─────────────────────────────────────────────────────────────────────

/// Index of the user, system, idle and nice counters in a tick snapshot.
pub const TICK_USER: usize = 0;
pub const TICK_SYSTEM: usize = 1;
pub const TICK_IDLE: usize = 2;
pub const TICK_NICE: usize = 3;

/// How far a 32-bit counter advanced from `prev` to `curr`, across a wrap.
pub open spec fn tick_delta(curr: u32, prev: u32) -> int {
    if curr >= prev {
        curr - prev
    } else {
        curr - prev + 0x1_0000_0000
    }
}

/// Ticks spent busy and in total between two snapshots.
#[derive(Debug, Clone, Copy, PartialEq, Eq)]
pub struct CpuLoad {
    /// User, system and nice ticks.
    pub busy: u64,
    /// All ticks, idle ones included.
    pub total: u64,
}

/// The load between the snapshots `prev` and `curr`; none when no tick passed.
pub open spec fn cpu_load_spec(prev: [u32; 4], curr: [u32; 4]) -> Option<CpuLoad> {
    let user = tick_delta(curr[0], prev[0]);
    let system = tick_delta(curr[1], prev[1]);
    let idle = tick_delta(curr[2], prev[2]);
    let nice = tick_delta(curr[3], prev[3]);
    let total = user + system + idle + nice;
    if total == 0 {
        None
    } else {
        Some(CpuLoad { busy: (user + system + nice) as u64, total: total as u64 })
    }
}

/// The load that a poll reports: a delta needs this snapshot and the previous one.
pub open spec fn load_after(prev: Option<[u32; 4]>, ticks: Option<[u32; 4]>) -> Option<CpuLoad> {
    match (ticks, prev) {
        (Some(curr), Some(p)) => cpu_load_spec(p, curr),
        _ => None,
    }
}

/// The busy and total ticks between two snapshots of the tick counters.
pub fn cpu_load(prev: [u32; 4], curr: [u32; 4]) -> (load: Option<CpuLoad>)
    ensures
        load == cpu_load_spec(prev, curr),
        load matches Some(l) ==> 0 < l.total && l.busy <= l.total,
{
    let user = curr[TICK_USER].wrapping_sub(prev[TICK_USER]) as u64;
    let system = curr[TICK_SYSTEM].wrapping_sub(prev[TICK_SYSTEM]) as u64;
    let idle = curr[TICK_IDLE].wrapping_sub(prev[TICK_IDLE]) as u64;
    let nice = curr[TICK_NICE].wrapping_sub(prev[TICK_NICE]) as u64;
    let total = user + system + idle + nice;
    if total == 0 {
        None
    } else {
        Some(CpuLoad { busy: user + system + nice, total })
    }
}

/// The tick snapshot of the previous CPU poll, for the next delta.
pub struct CpuLoadTracker {
    prev: Option<[u32; 4]>,
}

impl CpuLoadTracker {
    pub closed spec fn previous(self) -> Option<[u32; 4]> {
        self.prev
    }

    /// No snapshot yet: the first poll reports nothing.
    pub fn new() -> (t: Self)
        ensures
            t.previous() is None,
    {
        CpuLoadTracker { prev: None }
    }

    /// A poll with CPU usage switched on: `ticks` is the snapshot just read
    /// (none when the read failed). Reports the load since the previous
    /// snapshot and keeps this one for the next poll.
    pub fn observe(&mut self, ticks: Option<[u32; 4]>) -> (load: Option<CpuLoad>)
        ensures
            load == load_after(old(self).previous(), ticks),
            final(self).previous() == ticks,
            load matches Some(l) ==> 0 < l.total && l.busy <= l.total,
    {
        let load = match (ticks, self.prev) {
            (Some(curr), Some(p)) => cpu_load(p, curr),
            _ => None,
        };
        self.prev = ticks;
        load
    }

    /// One poll: with CPU usage switched on, `observe` the snapshot `ticks`
    /// just read; switched off, `reset` (the program reads no ticks then, and
    /// `ticks` is ignored).
    pub fn poll(&mut self, enabled: bool, ticks: Option<[u32; 4]>) -> (load: Option<CpuLoad>)
        ensures
            enabled ==> load == load_after(old(self).previous(), ticks) && final(self).previous()
                == ticks,
            !enabled ==> load is None && final(self).previous() is None,
            load matches Some(l) ==> 0 < l.total && l.busy <= l.total,
    {
        if enabled {
            self.observe(ticks)
        } else {
            self.reset();
            None
        }
    }

    /// A poll with CPU usage switched off: forgets the stored snapshot, so the
    /// next enabled poll starts a fresh delta.
    pub fn reset(&mut self)
        ensures
            final(self).previous() is None,
    {
        self.prev = None;
    }
}

/// Law: after a poll with CPU usage off, the next enabled poll reports nothing
/// and only stores its snapshot.
pub proof fn lemma_fresh_delta_after_reset(ticks: Option<[u32; 4]>)
    ensures
        load_after(None, ticks) is None,
{
}

/// Law: the busy ticks never exceed the total, so the load is a percentage
/// between 0 and 100.
pub proof fn lemma_load_is_a_fraction(prev: [u32; 4], curr: [u32; 4])
    ensures
        cpu_load_spec(prev, curr) matches Some(l) ==> 0 < l.total && l.busy <= l.total
            && l.busy * 100 <= l.total * 100,
{
}

/// Law: a counter that advanced by `d` ticks reports `d`, also when it wrapped
/// past `u32::MAX` in between.
pub proof fn lemma_tick_delta_across_wrap(prev: u32, d: u32)
    ensures
        tick_delta(((prev + d) % 0x1_0000_0000) as u32, prev) == d,
{
}

// ── GPU ─────────────────────────────────────────────────────────────────────

/// The performance statistics of one accelerator: the Apple Silicon
/// "Device Utilization %" and the "GPU Activity(GFX)" that some other GPUs
/// report instead (each absent when the accelerator lacks it).
#[derive(Debug, Clone, Copy, PartialEq, Eq)]
pub struct GpuSample {
    pub device_utilization: Option<i32>,
    pub gpu_activity: Option<i32>,
}

/// The utilisation an accelerator reports, preferring "Device Utilization %".
pub open spec fn sample_reading(s: GpuSample) -> Option<i32> {
    match s.device_utilization {
        Some(p) => Some(p),
        None => s.gpu_activity,
    }
}

pub open spec fn clamp_pct(p: i32) -> i32 {
    if p < 0 {
        0
    } else if p > 100 {
        100
    } else {
        p
    }
}

/// The reading of the last accelerator that reported one, clamped to 0..=100.
pub open spec fn gpu_usage_spec(samples: Seq<GpuSample>) -> Option<i32>
    decreases samples.len(),
{
    if samples.len() == 0 {
        None
    } else {
        match sample_reading(samples.last()) {
            Some(p) => Some(clamp_pct(p)),
            None => gpu_usage_spec(samples.drop_last()),
        }
    }
}

/// GPU utilisation in percent from the statistics of every accelerator, in
/// the order they were enumerated: the last one with a reading wins.
pub fn gpu_usage_pct(samples: &Vec<GpuSample>) -> (pct: Option<i32>)
    ensures
        pct == gpu_usage_spec(samples@),
        pct matches Some(p) ==> 0 <= p <= 100,
{
    let mut result: Option<i32> = None;
    let mut i: usize = 0;
    while i < samples.len()
        invariant
            i <= samples@.len(),
            result == gpu_usage_spec(samples@.take(i as int)),
        decreases samples@.len() - i,
    {
        let s = samples[i];
        let reading = match s.device_utilization {
            Some(p) => Some(p),
            None => s.gpu_activity,
        };
        if let Some(p) = reading {
            result = Some(if p < 0 {
                0
            } else if p > 100 {
                100
            } else {
                p
            });
        }
        assert(samples@.take(i + 1).drop_last() =~= samples@.take(i as int));
        i = i + 1;
    }
    assert(samples@.take(samples@.len() as int) =~= samples@);
    proof {
        lemma_gpu_usage_in_range(samples@);
    }
    result
}

/// Law: the GPU utilisation is a percentage between 0 and 100.
pub proof fn lemma_gpu_usage_in_range(samples: Seq<GpuSample>)
    ensures
        gpu_usage_spec(samples) matches Some(p) ==> 0 <= p <= 100,
    decreases samples.len(),
{
    if samples.len() > 0 {
        lemma_gpu_usage_in_range(samples.drop_last());
    }
}

/// Law: an accelerator without a reading leaves the result as it was; one with
/// a reading decides it.
pub proof fn lemma_gpu_usage_last_reading_wins(samples: Seq<GpuSample>, s: GpuSample)
    ensures
        sample_reading(s) is None ==> gpu_usage_spec(samples.push(s)) == gpu_usage_spec(samples),
        sample_reading(s) matches Some(p) ==> gpu_usage_spec(samples.push(s)) == Some(
            clamp_pct(p),
        ),
{
    assert(samples.push(s).drop_last() =~= samples);
}

// ── RAM ─────────────────────────────────────────────────────────────────────

/// Bytes in use: active, wired and compressor-held pages times the page size.
pub open spec fn ram_used_spec(active: u32, wired: u32, compressed: u32, page_size: u32) -> int {
    (active + wired + compressed) * page_size
}

/// The memory in use in bytes, none when it does not fit in a `u64`.
pub fn ram_used_bytes(active: u32, wired: u32, compressed: u32, page_size: u32) -> (bytes: Option<
    u64,
>)
    ensures
        ram_used_spec(active, wired, compressed, page_size) <= u64::MAX ==> bytes == Some(
            ram_used_spec(active, wired, compressed, page_size) as u64,
        ),
        ram_used_spec(active, wired, compressed, page_size) > u64::MAX ==> bytes is None,
{
    let used_pages: u64 = active as u64 + wired as u64 + compressed as u64;
    used_pages.checked_mul(page_size as u64)
}


// ── laws stated on the counters and statistics ──────────────────────────────

/// Law: each tick delta is the counter difference modulo 2^32, and the load
/// is user + system + nice over the sum of all four, stated on the counters.
pub proof fn lemma_cpu_load_on_counters(prev: [u32; 4], curr: [u32; 4])
    ensures
        ({
            let user = (curr[0] - prev[0]) % 0x1_0000_0000;
            let system = (curr[1] - prev[1]) % 0x1_0000_0000;
            let idle = (curr[2] - prev[2]) % 0x1_0000_0000;
            let nice = (curr[3] - prev[3]) % 0x1_0000_0000;
            let busy = user + system + nice;
            let total = busy + idle;
            cpu_load_spec(prev, curr) == if total == 0 {
                None
            } else {
                Some(CpuLoad { busy: busy as u64, total: total as u64 })
            }
        }),
{
    assert forall|c: u32, p: u32| #[trigger] tick_delta(c, p) == (c - p) % 0x1_0000_0000 by {
        if c >= p {
            assert((c - p) % 0x1_0000_0000 == c - p) by (nonlinear_arith)
                requires
                    0 <= c - p < 0x1_0000_0000,
            ;
        } else {
            assert((c - p) % 0x1_0000_0000 == c - p + 0x1_0000_0000) by (nonlinear_arith)
                requires
                    -0x1_0000_0000 < c - p < 0,
            ;
        }
    }
    assert(tick_delta(curr[0], prev[0]) == (curr[0] - prev[0]) % 0x1_0000_0000);
    assert(tick_delta(curr[1], prev[1]) == (curr[1] - prev[1]) % 0x1_0000_0000);
    assert(tick_delta(curr[2], prev[2]) == (curr[2] - prev[2]) % 0x1_0000_0000);
    assert(tick_delta(curr[3], prev[3]) == (curr[3] - prev[3]) % 0x1_0000_0000);
}

/// Law: when no counter wrapped, the load is the plain differences of the
/// counters, for deltas of any size.
pub proof fn lemma_cpu_load_without_wrap(prev: [u32; 4], curr: [u32; 4])
    requires
        prev[0] <= curr[0],
        prev[1] <= curr[1],
        prev[2] <= curr[2],
        prev[3] <= curr[3],
    ensures
        ({
            let busy = (curr[0] - prev[0]) + (curr[1] - prev[1]) + (curr[3] - prev[3]);
            let total = busy + (curr[2] - prev[2]);
            cpu_load_spec(prev, curr) == if total == 0 {
                None
            } else {
                Some(CpuLoad { busy: busy as u64, total: total as u64 })
            }
        }),
{
}

/// Law: the last accelerator decides the GPU figure by its own statistics:
/// "Device Utilization %" when it reports one (whatever its value, clamped to
/// 0..=100), else "GPU Activity(GFX)", and an accelerator reporting neither
/// leaves the figure as it was; with no accelerator there is no figure.
pub proof fn lemma_gpu_usage_by_last_accelerator(samples: Seq<GpuSample>, s: GpuSample)
    ensures
        gpu_usage_spec(Seq::<GpuSample>::empty()) is None,
        s.device_utilization matches Some(p) ==> gpu_usage_spec(samples.push(s)) == Some(
            if p < 0 {
                0i32
            } else if p > 100 {
                100i32
            } else {
                p
            },
        ),
        s.device_utilization is None ==> match s.gpu_activity {
            Some(q) => gpu_usage_spec(samples.push(s)) == Some(
                if q < 0 {
                    0i32
                } else if q > 100 {
                    100i32
                } else {
                    q
                },
            ),
            None => gpu_usage_spec(samples.push(s)) == gpu_usage_spec(samples),
        },
{
    assert(samples.push(s).drop_last() =~= samples);
}

/// Law: the memory in use is the sum over active, wired and compressed pages
/// of each count times the page size.
pub proof fn lemma_ram_used_is_pages_times_size(active: u32, wired: u32, compressed: u32, page_size: u32)
    ensures
        ram_used_spec(active, wired, compressed, page_size) == active * page_size + wired * page_size
            + compressed * page_size,
{
    assert((active + wired + compressed) * page_size == active * page_size + wired * page_size
        + compressed * page_size) by (nonlinear_arith);
}


/// Law: a poll reports a load only when it read a snapshot and the previous
/// poll left one; without a counter wrap, the load is the plain difference
/// from the previous snapshot to this one.
pub proof fn lemma_poll_load_on_counters(prev: Option<[u32; 4]>, ticks: Option<[u32; 4]>)
    ensures
        prev is None ==> load_after(prev, ticks) is None,
        ticks is None ==> load_after(prev, ticks) is None,
        (prev matches Some(p) && ticks matches Some(c) && p[0] <= c[0] && p[1] <= c[1] && p[2] <= c[2]
            && p[3] <= c[3]) ==> ({
            let p = prev.unwrap();
            let c = ticks.unwrap();
            let busy = (c[0] - p[0]) + (c[1] - p[1]) + (c[3] - p[3]);
            let total = busy + (c[2] - p[2]);
            load_after(prev, ticks) == if total == 0 {
                None
            } else {
                Some(CpuLoad { busy: busy as u64, total: total as u64 })
            }
        }),
{
    if let (Some(p), Some(c)) = (prev, ticks) {
        if p[0] <= c[0] && p[1] <= c[1] && p[2] <= c[2] && p[3] <= c[3] {
            lemma_cpu_load_without_wrap(p, c);
        }
    }
}

} // verus!
