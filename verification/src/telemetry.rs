//! Raw counter snapshots and the usage calculator.
//!
//! The kernel exposes monotonically increasing tick counters per CPU state.
//! Given two snapshots of those counters, the calculator turns the deltas
//! into a bounded percentage, handling counters that did not advance,
//! counters that went backwards, and absent sensors as typed failures
//! rather than dividing by zero.
//!
//! Percentages are carried as integer basis points (hundredths of one
//! percent): a value of `3333` means 33.33%.

use vstd::prelude::*;

use crate::errors::TopError;

verus! {

/// Usage values are basis points: 10000 stands for 100%.
pub const USAGE_SCALE: u64 = 10000;

/// One core's tick breakdown at one instant.
#[derive(Clone, Copy, PartialEq, Eq, Structural, Debug)]
pub struct CoreTicks {
    pub user: u64,
    pub nice: u64,
    pub system: u64,
    pub idle: u64,
    pub iowait: u64,
    pub irq: u64,
    pub softirq: u64,
    pub steal: u64,
}

/// Memory counters at one instant, in bytes.
#[derive(Clone, Copy, PartialEq, Eq, Structural, Debug)]
pub struct MemCounters {
    pub total: u64,
    pub free: u64,
    pub buffers: u64,
    pub cache: u64,
}

/// One mounted volume's capacity counters, in bytes.
#[derive(Clone, Debug)]
pub struct DiskInfo {
    pub name: String,
    pub all_space: u64,
    pub available_space: u64,
}

/// All ticks a core spent in any state.
pub open spec fn total_of(t: CoreTicks) -> int {
    t.user + t.nice + t.system + t.idle + t.iowait + t.irq + t.softirq + t.steal
}

/// The ticks a core spent idle (idle proper plus I/O wait).
pub open spec fn idle_of(t: CoreTicks) -> int {
    t.idle + t.iowait
}

/// The usage in basis points computed from previous and current totals and
/// idle ticks, clamped to `[0, 10000]`. Meaningful when the total advanced
/// (`tc > tp`).
pub open spec fn usage_bp_from(tp: int, ip: int, tc: int, ic: int) -> int {
    let dt = tc - tp;
    let db = (tc - ic) - (tp - ip);
    if db <= 0 {
        0
    } else if db >= dt {
        10000
    } else {
        db * 10000 / dt
    }
}

/// The usage of one core across two snapshots, in basis points.
pub open spec fn core_usage_bp_of(prev: CoreTicks, cur: CoreTicks) -> int {
    usage_bp_from(total_of(prev), idle_of(prev), total_of(cur), idle_of(cur))
}

/// Usage is clamped: whenever the total advanced, the computed value lies
/// between 0 and 100 percent.
pub proof fn lemma_usage_bp_bounds(tp: int, ip: int, tc: int, ic: int)
    requires
        tc > tp,
    ensures
        0 <= usage_bp_from(tp, ip, tc, ic) <= 10000,
{
    let dt = tc - tp;
    let db = (tc - ic) - (tp - ip);
    if 0 < db < dt {
        assert(0 <= db * 10000 / dt) by (nonlinear_arith)
            requires
                0 < db,
                0 < dt,
        ;
        assert(db * 10000 / dt <= 10000) by (nonlinear_arith)
            requires
                0 < db < dt,
        ;
    }
}

/// The sum of all cores' total ticks.
pub open spec fn sum_total(s: Seq<CoreTicks>) -> int
    decreases s.len(),
{
    if s.len() == 0 {
        0
    } else {
        sum_total(s.drop_last()) + total_of(s.last())
    }
}

/// The sum of all cores' idle ticks.
pub open spec fn sum_idle(s: Seq<CoreTicks>) -> int
    decreases s.len(),
{
    if s.len() == 0 {
        0
    } else {
        sum_idle(s.drop_last()) + idle_of(s.last())
    }
}

/// The total ticks of one core, exact: eight 64-bit counters always fit
/// in 128 bits.
fn ticks_total(t: &CoreTicks) -> (r: u128)
    ensures
        r == total_of(*t),
{
    t.user as u128 + t.nice as u128 + t.system as u128 + t.idle as u128 + t.iowait as u128
        + t.irq as u128 + t.softirq as u128 + t.steal as u128
}

/// The idle ticks of one core.
fn ticks_idle(t: &CoreTicks) -> (r: u128)
    ensures
        r == idle_of(*t),
{
    t.idle as u128 + t.iowait as u128
}

/// The clamped usage in basis points from raw totals. The bound on `tc`
/// keeps the intermediate product inside 128 bits.
fn usage_bp_raw(tp: u128, ip: u128, tc: u128, ic: u128) -> (r: u64)
    requires
        tc > tp,
        ip <= tp,
        ic <= tc,
        tc < 0x1000000000000000000000000u128,
    ensures
        r == usage_bp_from(tp as int, ip as int, tc as int, ic as int),
        r <= 10000,
{
    let busy_p = tp - ip;
    let busy_c = tc - ic;
    let dt = tc - tp;
    if busy_c <= busy_p {
        0
    } else {
        let db = busy_c - busy_p;
        if db >= dt {
            10000
        } else {
            proof {
                lemma_usage_bp_bounds(tp as int, ip as int, tc as int, ic as int);
                assert(db * 10000 < 0x2710000000000000000000000000) by (nonlinear_arith)
                    requires
                        0 < db < 0x1000000000000000000000000,
                ;
            }
            let q = (db * 10000) / dt;
            q as u64
        }
    }
}

/// The usage of one core between two snapshots. Fails with the empty-data
/// kind when the core's total did not advance (clock resolution too coarse,
/// or the counter was reset), so no division by zero can occur.
pub fn core_usage_bp(prev: &CoreTicks, cur: &CoreTicks) -> (r: Result<u64, TopError>)
    ensures
        r is Ok <==> total_of(*cur) > total_of(*prev),
        r is Ok ==> r->Ok_0 == core_usage_bp_of(*prev, *cur) && r->Ok_0 <= 10000,
        r is Err ==> r->Err_0 is EmptyError,
{
    let tp = ticks_total(prev);
    let tc = ticks_total(cur);
    if tc <= tp {
        return Err(TopError::EmptyError);
    }
    let ip = ticks_idle(prev);
    let ic = ticks_idle(cur);
    Ok(usage_bp_raw(tp, ip, tc, ic))
}

/// Whether core `i` has a usable delta between the two snapshots.
pub open spec fn core_has_delta(p: Seq<CoreTicks>, c: Seq<CoreTicks>, i: int) -> bool {
    total_of(c[i]) > total_of(p[i])
}

/// The per-core usages between two snapshots, in basis points; a core whose
/// counter did not advance yields no value, without failing the others.
pub fn per_core_usages(prev: &Vec<CoreTicks>, cur: &Vec<CoreTicks>) -> (r: Vec<Option<u64>>)
    ensures
        r@.len() == vstd::math::min(prev@.len() as int, cur@.len() as int),
        forall|i: int|
            0 <= i < r@.len() ==> (r@[i] is Some <==> core_has_delta(prev@, cur@, i)),
        forall|i: int|
            0 <= i < r@.len() && r@[i] is Some ==> r@[i]->0 == core_usage_bp_of(
                prev@[i],
                cur@[i],
            ) && r@[i]->0 <= 10000,
{
    let n = if prev.len() <= cur.len() {
        prev.len()
    } else {
        cur.len()
    };
    let mut r: Vec<Option<u64>> = Vec::new();
    let mut i: usize = 0;
    while i < n
        invariant
            i <= n,
            n == vstd::math::min(prev@.len() as int, cur@.len() as int),
            r@.len() == i,
            forall|j: int|
                0 <= j < i ==> (r@[j] is Some <==> core_has_delta(prev@, cur@, j)),
            forall|j: int|
                0 <= j < i && r@[j] is Some ==> r@[j]->0 == core_usage_bp_of(prev@[j], cur@[j])
                    && r@[j]->0 <= 10000,
        decreases n - i,
    {
        match core_usage_bp(&prev[i], &cur[i]) {
            Ok(v) => r.push(Some(v)),
            Err(_) => r.push(None),
        }
        i += 1;
    }
    r
}

/// The aggregate usage over the cores paired by position: the outcome of
/// summing both snapshots' counters and applying the usage formula once.
/// The parse-failure kind stands for summed counters beyond the 64-bit
/// machine range; the empty kind for an aggregate total that did not
/// advance (including the case of no cores at all).
pub open spec fn aggregate_usage_of(p: Seq<CoreTicks>, c: Seq<CoreTicks>) -> Result<
    int,
    TopError,
> {
    let n = vstd::math::min(p.len() as int, c.len() as int);
    let tp = sum_total(p.take(n));
    let tc = sum_total(c.take(n));
    if tp > u64::MAX || tc > u64::MAX {
        Err(TopError::ParseError)
    } else if tc <= tp {
        Err(TopError::EmptyError)
    } else {
        Ok(usage_bp_from(tp, sum_idle(p.take(n)), tc, sum_idle(c.take(n))))
    }
}

/// Appending one core to a prefix extends the sums by that core's ticks.
proof fn lemma_sum_take_step(s: Seq<CoreTicks>, i: int)
    requires
        0 <= i < s.len(),
    ensures
        sum_total(s.take(i + 1)) == sum_total(s.take(i)) + total_of(s[i]),
        sum_idle(s.take(i + 1)) == sum_idle(s.take(i)) + idle_of(s[i]),
{
    assert(s.take(i + 1).drop_last() =~= s.take(i));
    assert(s.take(i + 1).last() == s[i]);
}

/// The aggregate usage across all paired cores, in basis points.
pub fn aggregate_usage_bp(prev: &Vec<CoreTicks>, cur: &Vec<CoreTicks>) -> (r: Result<
    u64,
    TopError,
>)
    ensures
        r is Ok <==> aggregate_usage_of(prev@, cur@) is Ok,
        r is Ok ==> r->Ok_0 == aggregate_usage_of(prev@, cur@)->Ok_0 && r->Ok_0 <= 10000,
        r is Err ==> r->Err_0 == aggregate_usage_of(prev@, cur@)->Err_0,
{
    let n = if prev.len() <= cur.len() {
        prev.len()
    } else {
        cur.len()
    };
    let ghost pn = prev@.take(n as int);
    let ghost cn = cur@.take(n as int);
    let mut tp: u64 = 0;
    let mut ip: u64 = 0;
    let mut tc: u64 = 0;
    let mut ic: u64 = 0;
    let mut i: usize = 0;
    while i < n
        invariant
            i <= n,
            n == vstd::math::min(prev@.len() as int, cur@.len() as int),
            pn == prev@.take(n as int),
            cn == cur@.take(n as int),
            tp == sum_total(prev@.take(i as int)),
            ip == sum_idle(prev@.take(i as int)),
            tc == sum_total(cur@.take(i as int)),
            ic == sum_idle(cur@.take(i as int)),
            ip <= tp,
            ic <= tc,
        decreases n - i,
    {
        proof {
            lemma_sum_take_step(prev@, i as int);
            lemma_sum_take_step(cur@, i as int);
        }
        let pt = ticks_total(&prev[i]);
        let ct = ticks_total(&cur[i]);
        let new_tp = (tp as u128) + pt;
        let new_tc = (tc as u128) + ct;
        if new_tp > u64::MAX as u128 || new_tc > u64::MAX as u128 {
            proof {
                let m = vstd::math::min(prev@.len() as int, cur@.len() as int);
                lemma_sum_monotonic(prev@, i + 1, m);
                lemma_sum_monotonic(cur@, i + 1, m);
            }
            return Err(TopError::ParseError);
        }
        tp = new_tp as u64;
        tc = new_tc as u64;
        ip = ip + ticks_idle(&prev[i]) as u64;
        ic = ic + ticks_idle(&cur[i]) as u64;
        i += 1;
    }
    proof {
        assert(prev@.take(i as int) =~= pn);
        assert(cur@.take(i as int) =~= cn);
    }
    if tc <= tp {
        return Err(TopError::EmptyError);
    }
    Ok(usage_bp_raw(tp as u128, ip as u128, tc as u128, ic as u128))
}

/// Counter sums only grow as more cores are included.
proof fn lemma_sum_monotonic(s: Seq<CoreTicks>, i: int, j: int)
    requires
        0 <= i <= j <= s.len(),
    ensures
        sum_total(s.take(i)) <= sum_total(s.take(j)),
    decreases j - i,
{
    if i < j {
        lemma_sum_take_step(s, j - 1);
        lemma_sum_monotonic(s, i, j - 1);
    }
}

/// The memory in use: whatever of the total is not free and not
/// reclaimable cache or buffers, clamped so it never exceeds the total.
pub open spec fn mem_used_of(m: MemCounters) -> int {
    let avail = m.free + m.buffers + m.cache;
    if avail >= m.total {
        0
    } else {
        m.total - avail
    }
}

/// The memory usage in basis points. Meaningful when the total is nonzero.
pub open spec fn mem_usage_bp_of(m: MemCounters) -> int {
    mem_used_of(m) * 10000 / (m.total as int)
}

/// The bytes of memory in use.
pub fn mem_used_bytes(m: &MemCounters) -> (r: u64)
    ensures
        r == mem_used_of(*m),
{
    let avail = (m.free as u128) + (m.buffers as u128) + (m.cache as u128);
    if avail >= m.total as u128 {
        0
    } else {
        (m.total as u128 - avail) as u64
    }
}

/// The memory usage in basis points; a zero total is a typed empty-data
/// failure, never a division by zero.
pub fn mem_usage_bp(m: &MemCounters) -> (r: Result<u64, TopError>)
    ensures
        r is Ok <==> m.total > 0,
        r is Ok ==> r->Ok_0 == mem_usage_bp_of(*m) && r->Ok_0 <= 10000,
        r is Err ==> r->Err_0 is EmptyError,
{
    if m.total == 0 {
        return Err(TopError::EmptyError);
    }
    let used = mem_used_bytes(m);
    proof {
        assert(mem_used_of(*m) * 10000 / (m.total as int) <= 10000) by (nonlinear_arith)
            requires
                0 < m.total,
                0 <= mem_used_of(*m) <= m.total,
        ;
        assert(0 <= mem_used_of(*m) * 10000 / (m.total as int)) by (nonlinear_arith)
            requires
                0 < m.total,
                0 <= mem_used_of(*m),
        ;
    }
    let bp = ((used as u128) * 10000) / (m.total as u128);
    Ok(bp as u64)
}

/// A volume's utilization as a whole percentage, clamped to `[0, 100]`;
/// a volume reporting a zero total has zero utilization by definition.
pub open spec fn disk_usage_percent_of(total: int, available: int) -> int {
    if total <= 0 {
        0
    } else if available >= total {
        0
    } else {
        (total - available) * 100 / total
    }
}

impl DiskInfo {
    /// An empty volume record.
    pub fn new() -> (r: Self)
        ensures
            r.name@ == Seq::<char>::empty(),
            r.all_space == 0,
            r.available_space == 0,
    {
        DiskInfo { name: String::new(), all_space: 0, available_space: 0 }
    }

    /// This volume's utilization as a whole percentage.
    pub fn usage_percent(&self) -> (r: u64)
        ensures
            r == disk_usage_percent_of(self.all_space as int, self.available_space as int),
            r <= 100,
    {
        if self.all_space == 0 || self.available_space >= self.all_space {
            0
        } else {
            let used = (self.all_space - self.available_space) as u128;
            proof {
                let t = self.all_space as int;
                let a = self.available_space as int;
                assert((t - a) * 100 / t <= 100) by (nonlinear_arith)
                    requires
                        0 < t,
                        0 <= t - a <= t,
                ;
                assert(0 <= (t - a) * 100 / t) by (nonlinear_arith)
                    requires
                        0 < t,
                        0 <= t - a,
                ;
            }
            ((used * 100) / (self.all_space as u128)) as u64
        }
    }
}

/// The display rows for a set of volumes: each name with its utilization
/// percentage.
pub fn disk_usage_list(disks: &Vec<DiskInfo>) -> (r: Vec<(String, u64)>)
    ensures
        r@.len() == disks@.len(),
        forall|i: int|
            0 <= i < r@.len() ==> r@[i].0@ == disks@[i].name@ && r@[i].1
                == disk_usage_percent_of(
                disks@[i].all_space as int,
                disks@[i].available_space as int,
            ),
{
    let mut r: Vec<(String, u64)> = Vec::new();
    let mut i: usize = 0;
    while i < disks.len()
        invariant
            i <= disks@.len(),
            r@.len() == i,
            forall|j: int|
                0 <= j < i ==> r@[j].0@ == disks@[j].name@ && r@[j].1 == disk_usage_percent_of(
                    disks@[j].all_space as int,
                    disks@[j].available_space as int,
                ),
        decreases disks@.len() - i,
    {
        let name = disks[i].name.clone();
        let pct = disks[i].usage_percent();
        r.push((name, pct));
        i += 1;
    }
    r
}

/// When the summed counters did not advance between the snapshots — the
/// clock's resolution was too coarse, or a counter was reset — the
/// aggregate usage is a typed failure: no division by zero can occur.
pub proof fn lemma_no_delta_fails(p: Seq<CoreTicks>, c: Seq<CoreTicks>)
    requires
        ({
            let n = vstd::math::min(p.len() as int, c.len() as int);
            sum_total(c.take(n)) <= sum_total(p.take(n))
        }),
    ensures
        aggregate_usage_of(p, c) is Err,
{
}

} // verus!
