//! The telemetry sampler: point-in-time system information and its update.
//!
//! A host loop reads raw counters into a [`CounterSnapshot`] and hands it to
//! [`Info::tick`]. The sampler pairs it with the snapshot of the previous
//! tick, computes usage percentages, and pushes successful results into the
//! rolling histories. Failures are per metric: a failed metric leaves its
//! history and its last good data untouched and the sampler keeps ticking.

use vstd::prelude::*;

use chrono::Datelike;
use chrono::Timelike;

use crate::errors::TopError;
use crate::history::HistoryBuffer;
use crate::history::history_push;
use crate::numfmt::dec_seq_padded;
use crate::numfmt::u64_to_string_padded;
use crate::telemetry::CoreTicks;
use crate::telemetry::DiskInfo;
use crate::telemetry::MemCounters;
use crate::telemetry::aggregate_usage_of;
use crate::telemetry::aggregate_usage_bp;
use crate::telemetry::core_has_delta;
use crate::telemetry::core_usage_bp_of;
use crate::telemetry::mem_usage_bp;
use crate::telemetry::mem_usage_bp_of;
use crate::telemetry::mem_used_bytes;
use crate::telemetry::mem_used_of;
use crate::telemetry::per_core_usages;

verus! {

/// One-shot read of all tracked counters. Every metric may be absent on its
/// own (a sensor not present, a read that failed); absence is an `Option`,
/// never a sentinel number.
pub struct CounterSnapshot {
    /// Per-core tick counters, one entry per core.
    pub cpu: Option<Vec<CoreTicks>>,
    /// Memory counters.
    pub memory: Option<MemCounters>,
    /// Capacity per mounted volume.
    pub disks: Vec<DiskInfo>,
    /// CPU temperature in millidegrees Celsius.
    pub temp_millic: Option<u32>,
    /// Power draw in milliwatts.
    pub power_milliwatt: Option<u64>,
}

/// Current CPU data exposed to the display layer.
pub struct CpuInfo {
    /// The CPU model name.
    pub name: String,
    /// The number of cores.
    pub siblings: u8,
    /// Temperature in millidegrees Celsius, when the sensor is present.
    pub temp_millic: Option<u32>,
    /// Power draw in milliwatts, when the reporting tool is present.
    pub power_milliwatt: Option<u64>,
    /// Usage in basis points: index 0 is the aggregate over all cores, the
    /// rest one entry per core; a core without a usable delta holds `None`.
    pub usage_bp: Vec<Option<u64>>,
    /// Rolling history of the aggregate usage, in basis points.
    pub usage_history: HistoryBuffer,
}

/// Current memory data exposed to the display layer.
pub struct MemoryInfo {
    /// Total memory in bytes.
    pub total_bytes: u64,
    /// Memory in use, in bytes.
    pub used_bytes: u64,
    /// Rolling history of the usage, in basis points.
    pub usage_history: HistoryBuffer,
}

/// The whole sampler state: identity strings read once at startup, the
/// latest per-metric data, and the previous tick's CPU counters.
pub struct Info {
    /// The machine's address as text.
    pub ipv4: String,
    /// The current date and time as text.
    pub date: String,
    /// The operating system's name.
    pub os_name: String,
    /// The host's name.
    pub host_name: String,
    /// The latest volume capacities.
    pub disks: Vec<DiskInfo>,
    /// The latest CPU data.
    pub cpu_info: CpuInfo,
    /// The latest memory data.
    pub mem_info: MemoryInfo,
    /// The CPU counters of the previous tick. The sampler alone writes
    /// this between ticks, so usage is always computed from one consistent
    /// pairing of a snapshot with its immediate predecessor.
    pub prev_ticks: Option<Vec<CoreTicks>>,
}

/// What one tick reports for each delta metric.
pub struct TickReport {
    /// Aggregate CPU usage in basis points, or why it is unavailable.
    pub cpu: Result<u64, TopError>,
    /// Memory usage in basis points, or why it is unavailable.
    pub memory: Result<u64, TopError>,
}

/// The CPU metric's outcome: absent counters are a missing dependency; a
/// first tick has no delta yet and reports empty data; otherwise the
/// aggregate usage over the paired cores decides.
pub open spec fn cpu_metric_of(prev: Option<Vec<CoreTicks>>, cur: Option<Vec<CoreTicks>>) -> Result<
    int,
    TopError,
> {
    if cur is None {
        Err(TopError::MissingDependentData)
    } else if prev is None {
        Err(TopError::EmptyError)
    } else {
        aggregate_usage_of(prev->0@, cur->0@)
    }
}

/// The memory metric's outcome: needs no previous snapshot; absent counters
/// are a missing dependency and a zero total is empty data.
pub open spec fn mem_metric_of(cur: Option<MemCounters>) -> Result<int, TopError> {
    match cur {
        Option::None => Err(TopError::MissingDependentData),
        Option::Some(m) => if m.total > 0 {
            Ok(mem_usage_bp_of(m))
        } else {
            Err(TopError::EmptyError)
        },
    }
}

impl CpuInfo {
    /// Empty CPU data: no readings yet.
    pub fn new() -> (r: Self)
        ensures
            r.name@ == Seq::<char>::empty(),
            r.siblings == 0,
            r.temp_millic is None,
            r.power_milliwatt is None,
            r.usage_bp@ == Seq::<Option<u64>>::empty(),
            r.usage_history@ == Seq::<u64>::empty(),
            r.wf(),
    {
        CpuInfo {
            name: String::new(),
            siblings: 0,
            temp_millic: None,
            power_milliwatt: None,
            usage_bp: Vec::new(),
            usage_history: HistoryBuffer::new(),
        }
    }

    /// The history capacity invariant.
    pub open spec fn wf(&self) -> bool {
        self.usage_history.wf()
    }
}

impl MemoryInfo {
    /// Empty memory data: no readings yet.
    pub fn new() -> (r: Self)
        ensures
            r.total_bytes == 0,
            r.used_bytes == 0,
            r.usage_history@ == Seq::<u64>::empty(),
            r.wf(),
    {
        MemoryInfo { total_bytes: 0, used_bytes: 0, usage_history: HistoryBuffer::new() }
    }

    /// The history capacity invariant.
    pub open spec fn wf(&self) -> bool {
        self.usage_history.wf()
    }
}

impl Info {
    /// Both histories respect their capacity.
    pub open spec fn wf(&self) -> bool {
        self.cpu_info.wf() && self.mem_info.wf()
    }

    /// A sampler with no readings yet; identity strings start empty and are
    /// filled in by the host from its one-time reads.
    pub fn new() -> (r: Self)
        ensures
            r.wf(),
            r.prev_ticks is None,
            r.ipv4@ == Seq::<char>::empty(),
            r.date@ == Seq::<char>::empty(),
            r.os_name@ == Seq::<char>::empty(),
            r.host_name@ == Seq::<char>::empty(),
            r.disks@ == Seq::<DiskInfo>::empty(),
            r.cpu_info.usage_history@ == Seq::<u64>::empty(),
            r.mem_info.usage_history@ == Seq::<u64>::empty(),
    {
        Info {
            ipv4: String::new(),
            date: String::new(),
            os_name: String::new(),
            host_name: String::new(),
            disks: Vec::new(),
            cpu_info: CpuInfo::new(),
            mem_info: MemoryInfo::new(),
            prev_ticks: None,
        }
    }

    /// One sampling tick: pairs the fresh snapshot with the previous one,
    /// computes CPU and memory usage, stores the snapshot's single-value
    /// readings, and pushes each successful usage into its history. A failed
    /// metric pushes nothing into its history, and the sampler keeps
    /// ticking: the next snapshot may succeed without any recovery step.
    pub fn tick(&mut self, cur: CounterSnapshot) -> (r: TickReport)
        requires
            old(self).wf(),
        ensures
            final(self).wf(),
            // the fresh counters become the pairing base of the next tick
            final(self).prev_ticks == cur.cpu,
            // the CPU metric and its history
            r.cpu is Ok <==> cpu_metric_of(old(self).prev_ticks, cur.cpu) is Ok,
            r.cpu is Ok ==> r.cpu->Ok_0 == cpu_metric_of(old(self).prev_ticks, cur.cpu)->Ok_0
                && r.cpu->Ok_0 <= 10000,
            r.cpu is Err ==> r.cpu->Err_0 == cpu_metric_of(old(self).prev_ticks, cur.cpu)->Err_0,
            r.cpu is Ok ==> final(self).cpu_info.usage_history@ == history_push(
                old(self).cpu_info.usage_history@,
                r.cpu->Ok_0,
            ),
            r.cpu is Err ==> final(self).cpu_info.usage_history@
                == old(self).cpu_info.usage_history@,
            // the memory metric and its history
            r.memory is Ok <==> mem_metric_of(cur.memory) is Ok,
            r.memory is Ok ==> r.memory->Ok_0 == mem_metric_of(cur.memory)->Ok_0
                && r.memory->Ok_0 <= 10000,
            r.memory is Err ==> r.memory->Err_0 == mem_metric_of(cur.memory)->Err_0,
            r.memory is Ok ==> final(self).mem_info.usage_history@ == history_push(
                old(self).mem_info.usage_history@,
                r.memory->Ok_0,
            ),
            r.memory is Err ==> final(self).mem_info.usage_history@
                == old(self).mem_info.usage_history@,
            // present memory counters update the exposed byte counts
            cur.memory is Some ==> final(self).mem_info.total_bytes == cur.memory->0.total
                && final(self).mem_info.used_bytes == mem_used_of(cur.memory->0),
            cur.memory is None ==> final(self).mem_info.total_bytes
                == old(self).mem_info.total_bytes && final(self).mem_info.used_bytes
                == old(self).mem_info.used_bytes,
            // the per-core usage list: aggregate first, then one slot per core
            (old(self).prev_ticks is Some && cur.cpu is Some) ==> ({
                let p = old(self).prev_ticks->0@;
                let c = cur.cpu->0@;
                let u = final(self).cpu_info.usage_bp@;
                &&& u.len() == 1 + vstd::math::min(p.len() as int, c.len() as int)
                &&& (u[0] is Some <==> r.cpu is Ok)
                &&& (r.cpu is Ok ==> u[0]->0 == r.cpu->Ok_0)
                &&& forall|i: int|
                    1 <= i < u.len() ==> (u[i] is Some <==> core_has_delta(p, c, i - 1))
                &&& forall|i: int|
                    1 <= i < u.len() && u[i] is Some ==> u[i]->0 == core_usage_bp_of(
                        p[i - 1],
                        c[i - 1],
                    )
            }),
            !(old(self).prev_ticks is Some && cur.cpu is Some)
                ==> final(self).cpu_info.usage_bp@.len() == 0,
            // single-value readings are stored as read, absent when absent
            final(self).cpu_info.temp_millic == cur.temp_millic,
            final(self).cpu_info.power_milliwatt == cur.power_milliwatt,
            final(self).disks == cur.disks,
            // identity data is not touched by a tick
            final(self).ipv4 == old(self).ipv4,
            final(self).date == old(self).date,
            final(self).os_name == old(self).os_name,
            final(self).host_name == old(self).host_name,
            final(self).cpu_info.name == old(self).cpu_info.name,
            final(self).cpu_info.siblings == old(self).cpu_info.siblings,
    {
        let CounterSnapshot { cpu, memory, disks, temp_millic, power_milliwatt } = cur;

        let cpu_res: Result<u64, TopError>;
        let mut usage_vec: Vec<Option<u64>> = Vec::new();
        match &cpu {
            None => {
                cpu_res = Err(TopError::MissingDependentData);
            },
            Some(c) => {
                match &self.prev_ticks {
                    None => {
                        cpu_res = Err(TopError::EmptyError);
                    },
                    Some(p) => {
                        let agg = aggregate_usage_bp(p, c);
                        usage_vec = per_core_usages(p, c);
                        let head: Option<u64> = match &agg {
                            Ok(v) => Some(*v),
                            Err(_) => None,
                        };
                        usage_vec.insert(0, head);
                        cpu_res = agg;
                    },
                }
            },
        }

        let mem_res: Result<u64, TopError> = match &memory {
            None => Err(TopError::MissingDependentData),
            Some(m) => {
                self.mem_info.total_bytes = m.total;
                self.mem_info.used_bytes = mem_used_bytes(m);
                mem_usage_bp(m)
            },
        };

        match &cpu_res {
            Ok(v) => self.cpu_info.usage_history.push(*v),
            Err(_) => (),
        }
        match &mem_res {
            Ok(v) => self.mem_info.usage_history.push(*v),
            Err(_) => (),
        }

        self.cpu_info.usage_bp = usage_vec;
        self.cpu_info.temp_millic = temp_millic;
        self.cpu_info.power_milliwatt = power_milliwatt;
        self.disks = disks;
        self.prev_ticks = cpu;

        TickReport { cpu: cpu_res, memory: mem_res }
    }

    /// Refreshes the date text from the local clock; nothing else changes.
    /// The new text renders some instant the clock reported, in
    /// `YYYY-MM-DD HH:MM` form.
    pub fn refresh_date(&mut self)
        ensures
            exists|y: int, mo: int, d: int, h: int, mi: int|
                {
                    &&& 1 <= mo <= 12
                    &&& 1 <= d <= 31
                    &&& 0 <= h <= 23
                    &&& 0 <= mi <= 59
                    &&& final(self).date@ == #[trigger] date_time_seq(y, mo, d, h, mi)
                },
            final(self).ipv4 == old(self).ipv4,
            final(self).os_name == old(self).os_name,
            final(self).host_name == old(self).host_name,
            final(self).disks == old(self).disks,
            final(self).cpu_info == old(self).cpu_info,
            final(self).mem_info == old(self).mem_info,
            final(self).prev_ticks == old(self).prev_ticks,
    {
        let (y, mo, d, h, mi) = local_date_time_parts();
        self.date = format_date_time(y, mo, d, h, mi);
    }
}

/// The rendering of a year: at least four digits, with a minus sign ahead
/// of a year before the common era.
pub open spec fn year_seq(y: int) -> Seq<char> {
    if y < 0 {
        seq!['-'] + dec_seq_padded((-y) as nat, 4)
    } else {
        dec_seq_padded(y as nat, 4)
    }
}

/// The rendering of a date and time as `YYYY-MM-DD HH:MM`.
pub open spec fn date_time_seq(y: int, mo: int, d: int, h: int, mi: int) -> Seq<char> {
    year_seq(y) + seq!['-'] + dec_seq_padded(mo as nat, 2) + seq!['-'] + dec_seq_padded(d as nat, 2)
        + seq![' '] + dec_seq_padded(h as nat, 2) + seq![':'] + dec_seq_padded(mi as nat, 2)
}

/// Renders a date and time as `YYYY-MM-DD HH:MM`.
pub fn format_date_time(y: i32, mo: u32, d: u32, h: u32, mi: u32) -> (s: String)
    ensures
        s@ == date_time_seq(y as int, mo as int, d as int, h as int, mi as int),
{
    let mut s: String;
    if y < 0 {
        s = String::from_str("-");
        let mag = (-(y as i64)) as u64;
        let ys = u64_to_string_padded(mag, 4);
        s.append(ys.as_str());
        proof {
            reveal_strlit("-");
            assert(s@ =~= year_seq(y as int));
        }
    } else {
        s = u64_to_string_padded(y as u64, 4);
    }
    s.append("-");
    let t = u64_to_string_padded(mo as u64, 2);
    s.append(t.as_str());
    s.append("-");
    let t = u64_to_string_padded(d as u64, 2);
    s.append(t.as_str());
    s.append(" ");
    let t = u64_to_string_padded(h as u64, 2);
    s.append(t.as_str());
    s.append(":");
    let t = u64_to_string_padded(mi as u64, 2);
    s.append(t.as_str());
    proof {
        reveal_strlit("-");
        reveal_strlit(" ");
        reveal_strlit(":");
        assert(s@ =~= date_time_seq(y as int, mo as int, d as int, h as int, mi as int));
    }
    s
}

/// Relies on chrono: `Local::now` reads the local clock, and the `Datelike`
/// and `Timelike` accessors document month in 1..=12, day in 1..=31, hour
/// in 0..=23 and minute in 0..=59. The clock's reading itself is outside
/// anyone's control, so nothing more is promised of the values.
#[verifier::external_body]
fn local_date_time_parts() -> (r: (i32, u32, u32, u32, u32))
    ensures
        1 <= r.1 <= 12,
        1 <= r.2 <= 31,
        r.3 <= 23,
        r.4 <= 59,
{
    let now = chrono::Local::now();
    (now.year(), now.month(), now.day(), now.hour(), now.minute())
}

} // verus!
