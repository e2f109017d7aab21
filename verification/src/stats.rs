//! Resource figures: a container's memory and the host's disk and network
//! rates between two samples.
use vstd::prelude::*;

verus! {

/// The cgroup figure that counts memory the kernel can reclaim.
pub enum MemoryDetail {
    /// cgroup v1: the page cache.
    CgroupV1 { cache: u64 },
    /// cgroup v2: the inactive file pages.
    CgroupV2 { inactive_file: u64 },
}

/// A container's memory as shown to the user.
pub struct MemoryReport {
    /// Memory in use, without what the kernel can reclaim.
    pub usage: u64,
    pub limit: u64,
}

/// `a - b`, or 0 when `b` is larger.
pub open spec fn saturating_sub(a: int, b: int) -> int {
    if a >= b {
        a - b
    } else {
        0
    }
}

/// The memory in use without what the kernel can reclaim.
pub open spec fn working_set(usage: Option<u64>, detail: Option<MemoryDetail>) -> int {
    let u: int = match usage {
        Some(x) => x as int,
        None => 0,
    };
    match detail {
        Some(MemoryDetail::CgroupV1 { cache }) => saturating_sub(u, cache as int),
        Some(MemoryDetail::CgroupV2 { inactive_file }) => saturating_sub(u, inactive_file as int),
        None => u,
    }
}

/// The memory figures of a container: usage less the reclaimable part
/// (never below zero), and the limit; unknown figures count as zero.
pub fn memory_report(usage: Option<u64>, limit: Option<u64>, detail: Option<MemoryDetail>) -> (r: MemoryReport)
    ensures
        r.usage as int == working_set(usage, detail),
        ({
            let u: int = match usage {
                Some(x) => x as int,
                None => 0,
            };
            let reclaimable: int = match detail {
                Some(MemoryDetail::CgroupV1 { cache }) => cache as int,
                Some(MemoryDetail::CgroupV2 { inactive_file }) => inactive_file as int,
                None => 0,
            };
            &&& u >= reclaimable ==> r.usage as int + reclaimable == u
            &&& u < reclaimable ==> r.usage == 0
        }),
        r.limit == match limit {
            Some(l) => l,
            None => 0,
        },
{
    let u: u64 = match usage {
        Some(x) => x,
        None => 0,
    };
    let l: u64 = match limit {
        Some(x) => x,
        None => 0,
    };
    let actual: u64 = match detail {
        Some(MemoryDetail::CgroupV1 { cache }) => u.saturating_sub(cache),
        Some(MemoryDetail::CgroupV2 { inactive_file }) => u.saturating_sub(inactive_file),
        None => u,
    };
    MemoryReport { usage: actual, limit: l }
}

/// The sum of a list of counters.
pub open spec fn total(values: Seq<u64>) -> int
    decreases values.len(),
{
    if values.len() == 0 {
        0
    } else {
        total(values.drop_last()) + values.last() as int
    }
}

proof fn lemma_total_monotone(values: Seq<u64>, i: int)
    requires
        0 <= i <= values.len(),
    ensures
        total(values.take(i)) <= total(values),
    decreases values.len() - i,
{
    if i < values.len() {
        lemma_total_monotone(values, i + 1);
        assert(values.take(i + 1).drop_last() =~= values.take(i));
    } else {
        assert(values.take(i) =~= values);
    }
}

/// The sum of the counters; none when it does not fit in 64 bits (where
/// adding them up one by one overflows).
pub fn total_bytes(values: &Vec<u64>) -> (r: Option<u64>)
    ensures
        match r {
            Some(t) => t as int == total(values@),
            None => total(values@) > u64::MAX,
        },
{
    let mut sum: u64 = 0;
    let mut i: usize = 0;
    assert(values@.take(0) =~= Seq::<u64>::empty());
    while i < values.len()
        invariant
            i <= values.len(),
            sum as int == total(values@.take(i as int)),
        decreases values.len() - i,
    {
        assert(values@.take(i + 1).drop_last() =~= values@.take(i as int));
        if sum > u64::MAX - values[i] {
            proof {
                lemma_total_monotone(values@, i + 1);
            }
            return None;
        }
        sum = sum + values[i];
        i = i + 1;
    }
    assert(values@.take(values.len() as int) =~= values@);
    Some(sum)
}

/// Cumulative host counters, in bytes.
#[derive(Clone, Copy)]
pub struct HostTotals {
    pub disk_read: u64,
    pub disk_write: u64,
    pub net_rx: u64,
    pub net_tx: u64,
}

/// Bytes per second since the previous sample.
pub struct HostRates {
    pub disk_read: u64,
    pub disk_write: u64,
    pub net_rx: u64,
    pub net_tx: u64,
}

/// Seconds between two samples.
pub open spec fn sample_interval() -> int {
    2
}

/// The rate of a counter between two samples; a counter that went down
/// gives 0.
pub open spec fn rate(now: u64, last: u64) -> int {
    saturating_sub(now as int, last as int) / sample_interval()
}

/// Turns cumulative host counters into rates, remembering the last sample.
pub struct HostSampler {
    pub last: HostTotals,
}

impl HostSampler {
    /// A sampler that has seen nothing: every counter at zero.
    pub fn new() -> (s: Self)
        ensures
            s.last.disk_read == 0 && s.last.disk_write == 0 && s.last.net_rx == 0 && s.last.net_tx == 0,
    {
        HostSampler { last: HostTotals { disk_read: 0, disk_write: 0, net_rx: 0, net_tx: 0 } }
    }

    /// Takes a sample: the rates since the last sample, given only once some
    /// disk reading has been seen before, and remembers the sample.
    pub fn record(&mut self, now: HostTotals) -> (r: Option<HostRates>)
        ensures
            final(self).last == now,
            r is Some <==> old(self).last.disk_read > 0,
            match r {
                Some(rates) => {
                    &&& rates.disk_read as int == rate(now.disk_read, old(self).last.disk_read)
                    &&& rates.disk_write as int == rate(now.disk_write, old(self).last.disk_write)
                    &&& rates.net_rx as int == rate(now.net_rx, old(self).last.net_rx)
                    &&& rates.net_tx as int == rate(now.net_tx, old(self).last.net_tx)
                },
                None => true,
            },
    {
        let rates = HostRates {
            disk_read: now.disk_read.saturating_sub(self.last.disk_read) / 2,
            disk_write: now.disk_write.saturating_sub(self.last.disk_write) / 2,
            net_rx: now.net_rx.saturating_sub(self.last.net_rx) / 2,
            net_tx: now.net_tx.saturating_sub(self.last.net_tx) / 2,
        };
        let emit = self.last.disk_read > 0;
        self.last = now;
        if emit {
            Some(rates)
        } else {
            None
        }
    }
}

/// A rate never exceeds half the counter's new value, and is zero when the
/// counter did not grow.
pub proof fn lemma_rate_bounds(now: u64, last: u64)
    ensures
        0 <= rate(now, last) <= now as int / 2,
        now <= last ==> rate(now, last) == 0,
{
    assert(saturating_sub(now as int, last as int) <= now as int);
    assert(saturating_sub(now as int, last as int) / 2 <= now as int / 2) by (nonlinear_arith)
        requires
            0 <= saturating_sub(now as int, last as int) <= now as int,
    ;
}

/// The memory shown never exceeds the memory the daemon reports in use.
pub proof fn lemma_working_set_bounded(usage: Option<u64>, detail: Option<MemoryDetail>)
    ensures
        0 <= working_set(usage, detail) <= match usage {
            Some(x) => x as int,
            None => 0,
        },
{
}

/// The memory shown is the usage less the reclaimable part the cgroup
/// reports (the page cache under cgroup v1, the inactive file pages under
/// cgroup v2, nothing without either), and zero when that part is larger.
pub proof fn lemma_working_set_subtracts(usage: Option<u64>, detail: Option<MemoryDetail>)
    ensures
        ({
            let u: int = match usage {
                Some(x) => x as int,
                None => 0,
            };
            let reclaimable: int = match detail {
                Some(MemoryDetail::CgroupV1 { cache }) => cache as int,
                Some(MemoryDetail::CgroupV2 { inactive_file }) => inactive_file as int,
                None => 0,
            };
            &&& u >= reclaimable ==> working_set(usage, detail) + reclaimable == u
            &&& u < reclaimable ==> working_set(usage, detail) == 0
        }),
{
}

} // verus!
