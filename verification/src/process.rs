//! The durable per-process record and its derived rates.
//!
//! A [`Process`] wraps the latest raw sample plus a previous-sample mirror:
//! the cumulative counters and the timestamp of the sample before it. The
//! mirror exists solely to compute rates and is overwritten wholesale on
//! every refresh. A `timestamp_last` of zero is the sentinel for "no prior
//! sample"; every rate function short-circuits on it to its defined default
//! instead of dividing by zero.
//!
//! Rates are fixed-point integers: CPU and GPU usage fractions in parts per
//! million (1 000 000 is full utilization of the accounted capacity), I/O
//! speeds in bytes per second. All deltas use subtraction clamped at zero, so
//! a counter that appears to decrease (a restarted process reusing a pid)
//! yields a zero delta instead of an underflow wrap, and every result is a
//! finite, non-negative machine integer for every input.

use vstd::prelude::*;

use crate::sample::{GpuUsage, ProcessData, ProcessDataView, SystemInfo};
use crate::util::{clamp_u64, sub0};

verus! {

/// A process as the core tracks it across refresh cycles: the latest sample
/// plus the previous-sample mirror and the executable path and name parsed
/// from the command line.
#[derive(Clone, PartialEq, Eq, Debug)]
pub struct Process {
    pub data: ProcessData,
    pub executable_path: Vec<u8>,
    pub executable_name: Vec<u8>,
    pub cpu_time_last: u64,
    pub timestamp_last: u64,
    pub read_bytes_last: Option<u64>,
    pub write_bytes_last: Option<u64>,
    pub gpu_usage_stats_last: Vec<GpuUsage>,
}

/// The mathematical value of a [`Process`].
pub ghost struct ProcessView {
    pub data: ProcessDataView,
    pub executable_path: Seq<u8>,
    pub executable_name: Seq<u8>,
    pub cpu_time_last: u64,
    pub timestamp_last: u64,
    pub read_bytes_last: Option<u64>,
    pub write_bytes_last: Option<u64>,
    pub gpu_usage_stats_last: Seq<GpuUsage>,
}

impl View for Process {
    type V = ProcessView;

    open spec fn view(&self) -> ProcessView {
        ProcessView {
            data: self.data@,
            executable_path: self.executable_path@,
            executable_name: self.executable_name@,
            cpu_time_last: self.cpu_time_last,
            timestamp_last: self.timestamp_last,
            read_bytes_last: self.read_bytes_last,
            write_bytes_last: self.write_bytes_last,
            gpu_usage_stats_last: self.gpu_usage_stats_last@,
        }
    }
}

/// Whether a record is in the "no prior sample" state.
pub open spec fn is_sentinel(p: ProcessView) -> bool {
    p.timestamp_last == 0
}

// ---------------------------------------------------------------------------
// Command-line parsing.
// ---------------------------------------------------------------------------

/// The longest prefix of `s` holding no `b`.
pub open spec fn take_until(s: Seq<u8>, b: u8) -> Seq<u8>
    decreases s.len(),
{
    if s.len() == 0 {
        Seq::empty()
    } else if s[0] == b {
        Seq::empty()
    } else {
        seq![s[0]] + take_until(s.drop_first(), b)
    }
}

/// Whether the pattern `p` occurs in `s` at position `j`.
pub open spec fn match_at(s: Seq<u8>, p: Seq<u8>, j: int) -> bool {
    0 <= j && j + p.len() <= s.len() && s.subrange(j, j + p.len()) == p
}

/// The longest prefix of `s` in which the pattern `p` does not start.
pub open spec fn take_until_pat(s: Seq<u8>, p: Seq<u8>) -> Seq<u8>
    decreases s.len(),
{
    if s.len() == 0 {
        Seq::empty()
    } else if match_at(s, p, 0) {
        Seq::empty()
    } else {
        seq![s[0]] + take_until_pat(s.drop_first(), p)
    }
}

/// The suffix of `s` after the last `b`, or all of `s` when it holds none.
pub open spec fn after_last(s: Seq<u8>, b: u8) -> Seq<u8>
    decreases s.len(),
{
    if s.len() == 0 {
        Seq::empty()
    } else if s.last() == b {
        Seq::empty()
    } else {
        after_last(s.drop_last(), b) + seq![s.last()]
    }
}

/// The delimiter some runtimes use instead of NUL between the executable
/// path and the first long option.
pub open spec fn dash_delim() -> Seq<u8> {
    seq![32u8, 45u8, 45u8]
}

/// The executable path parsed from a raw command line: the part before the
/// first NUL, further cut at the first " --" for runtimes that delimit
/// arguments that way instead.
pub open spec fn spec_executable_path(c: Seq<u8>) -> Seq<u8> {
    take_until_pat(take_until(c, 0), dash_delim())
}

/// The executable name: what follows the last '/' of the executable path.
pub open spec fn spec_executable_name(c: Seq<u8>) -> Seq<u8> {
    after_last(spec_executable_path(c), 47)
}

proof fn lemma_take_until_is_take(s: Seq<u8>, b: u8, i: int)
    requires
        0 <= i <= s.len(),
        forall|j: int| 0 <= j < i ==> s[j] != b,
        i == s.len() || s[i] == b,
    ensures
        take_until(s, b) == s.take(i),
    decreases i,
{
    if i == 0 {
        assert(s.take(0) =~= Seq::<u8>::empty());
    } else {
        lemma_take_until_is_take(s.drop_first(), b, i - 1);
        assert(s.take(i) =~= seq![s[0]] + s.drop_first().take(i - 1));
    }
}

proof fn lemma_take_until_pat_is_take(s: Seq<u8>, p: Seq<u8>, i: int)
    requires
        p.len() > 0,
        0 <= i <= s.len(),
        forall|j: int| 0 <= j < i ==> !match_at(s, p, j),
        i == s.len() || match_at(s, p, i),
    ensures
        take_until_pat(s, p) == s.take(i),
    decreases i,
{
    if i == 0 {
        assert(s.take(0) =~= Seq::<u8>::empty());
    } else {
        assert(s.len() > 0);
        assert(!match_at(s, p, 0));
        assert forall|j: int| 0 <= j < i - 1 implies !match_at(s.drop_first(), p, j) by {
            if match_at(s.drop_first(), p, j) {
                assert(s.subrange(j + 1, j + 1 + p.len()) =~= s.drop_first().subrange(
                    j,
                    j + p.len(),
                ));
                assert(match_at(s, p, j + 1));
            }
        }
        if i < s.len() {
            assert(s.drop_first().subrange(i - 1, i - 1 + p.len()) =~= s.subrange(
                i,
                i + p.len(),
            ));
            assert(match_at(s.drop_first(), p, i - 1));
        }
        lemma_take_until_pat_is_take(s.drop_first(), p, i - 1);
        assert(s.take(i) =~= seq![s[0]] + s.drop_first().take(i - 1));
    }
}

proof fn lemma_after_last_is_skip(s: Seq<u8>, b: u8, i: int)
    requires
        0 <= i <= s.len(),
        forall|j: int| i <= j < s.len() ==> s[j] != b,
        i == 0 || s[i - 1] == b,
    ensures
        after_last(s, b) == s.skip(i),
    decreases s.len(),
{
    if s.len() == 0 {
        assert(s.skip(0) =~= Seq::<u8>::empty());
    } else if i == s.len() {
        assert(s.last() == b);
        assert(s.skip(i) =~= Seq::<u8>::empty());
    } else {
        assert(s.last() != b);
        lemma_after_last_is_skip(s.drop_last(), b, i);
        assert(s.skip(i) =~= s.drop_last().skip(i) + seq![s.last()]);
    }
}

/// The index of the first `b` in `v`, or the length when there is none.
fn find_byte(v: &Vec<u8>, b: u8) -> (r: usize)
    ensures
        r <= v@.len(),
        forall|j: int| 0 <= j < r ==> v@[j] != b,
        r < v@.len() ==> v@[r as int] == b,
{
    let mut i: usize = 0;
    while i < v.len()
        invariant
            i <= v@.len(),
            forall|j: int| 0 <= j < i ==> v@[j] != b,
        decreases v.len() - i,
    {
        if v[i] == b {
            return i;
        }
        i = i + 1;
    }
    i
}

/// The first position where the three-byte pattern `p0 p1 p2` starts in
/// `v`, or the length when it never does.
fn find_pattern3(v: &Vec<u8>, p0: u8, p1: u8, p2: u8) -> (r: usize)
    ensures
        r <= v@.len(),
        forall|j: int| 0 <= j < r ==> !match_at(v@, seq![p0, p1, p2], j),
        r == v@.len() || match_at(v@, seq![p0, p1, p2], r as int),
{
    if v.len() < 3 {
        return v.len();
    }
    let mut i: usize = 0;
    while i <= v.len() - 3
        invariant
            v@.len() >= 3,
            i <= v@.len() - 2,
            forall|j: int| 0 <= j < i ==> !match_at(v@, seq![p0, p1, p2], j),
        decreases v.len() - i,
    {
        if v[i] == p0 && v[i + 1] == p1 && v[i + 2] == p2 {
            proof {
                assert(v@.subrange(i as int, i as int + 3) =~= seq![p0, p1, p2]);
            }
            return i;
        }
        proof {
            if match_at(v@, seq![p0, p1, p2], i as int) {
                assert(v@.subrange(i as int, i as int + 3)[0] == v@[i as int]);
                assert(v@.subrange(i as int, i as int + 3)[1] == v@[i as int + 1]);
                assert(v@.subrange(i as int, i as int + 3)[2] == v@[i as int + 2]);
                assert(false);
            }
        }
        i = i + 1;
    }
    proof {
        assert forall|j: int| 0 <= j < v@.len() implies !match_at(v@, seq![p0, p1, p2], j) by {
            if j >= i {
                assert(j + 3 > v@.len());
            }
        }
    }
    v.len()
}

/// The prefix of `v` of length `n`.
fn prefix_of(v: &Vec<u8>, n: usize) -> (r: Vec<u8>)
    requires
        n <= v@.len(),
    ensures
        r@ == v@.take(n as int),
{
    let mut out: Vec<u8> = Vec::new();
    let mut i: usize = 0;
    while i < n
        invariant
            i <= n <= v@.len(),
            out@ == v@.take(i as int),
        decreases n - i,
    {
        out.push(v[i]);
        proof {
            assert(v@.take(i as int + 1) =~= v@.take(i as int).push(v@[i as int]));
        }
        i = i + 1;
    }
    out
}

/// The suffix of `v` starting at `n`.
fn suffix_of(v: &Vec<u8>, n: usize) -> (r: Vec<u8>)
    requires
        n <= v@.len(),
    ensures
        r@ == v@.skip(n as int),
{
    let mut out: Vec<u8> = Vec::new();
    let mut i: usize = n;
    while i < v.len()
        invariant
            n <= i <= v@.len(),
            out@ == v@.subrange(n as int, i as int),
        decreases v.len() - i,
    {
        out.push(v[i]);
        proof {
            assert(v@.subrange(n as int, i as int + 1) =~= v@.subrange(n as int, i as int).push(
                v@[i as int],
            ));
        }
        i = i + 1;
    }
    proof {
        assert(v@.subrange(n as int, v@.len() as int) =~= v@.skip(n as int));
    }
    out
}

// ---------------------------------------------------------------------------
// Construction and the previous-sample mirror.
// ---------------------------------------------------------------------------

/// The record a newly observed process gets: the sample as current, the
/// mirror in the sentinel state. The I/O mirrors start at `Some(0)` exactly
/// where the kernel supports the counter, so the first refresh reports a
/// zero speed rather than `None`.
pub open spec fn spec_from_process_data(d: ProcessDataView) -> ProcessView {
    ProcessView {
        data: d,
        executable_path: spec_executable_path(d.commandline),
        executable_name: spec_executable_name(d.commandline),
        cpu_time_last: 0,
        timestamp_last: 0,
        read_bytes_last: if d.read_bytes is Some {
            Some(0u64)
        } else {
            None
        },
        write_bytes_last: if d.write_bytes is Some {
            Some(0u64)
        } else {
            None
        },
        gpu_usage_stats_last: Seq::empty(),
    }
}

impl Process {
    /// Wraps a raw sample into a fresh record: parses the executable path
    /// and name out of the command line and puts the mirror into the
    /// sentinel "no prior sample" state.
    pub fn from_process_data(process_data: ProcessData) -> (r: Process)
        ensures
            r@ == spec_from_process_data(process_data@),
    {
        let c = &process_data.commandline;
        let n1 = find_byte(c, 0);
        let nul_prefix = prefix_of(c, n1);
        proof {
            lemma_take_until_is_take(c@, 0, n1 as int);
        }
        let n2 = find_pattern3(&nul_prefix, 32, 45, 45);
        let executable_path = prefix_of(&nul_prefix, n2);
        proof {
            lemma_take_until_pat_is_take(nul_prefix@, dash_delim(), n2 as int);
        }
        let mut cut: usize = 0;
        let mut k: usize = 0;
        while k < executable_path.len()
            invariant
                cut <= k <= executable_path@.len(),
                cut == 0 || executable_path@[cut - 1] == 47,
                forall|j: int| cut <= j < k ==> executable_path@[j] != 47,
            decreases executable_path.len() - k,
        {
            if executable_path[k] == 47 {
                cut = k + 1;
            }
            k = k + 1;
        }
        let executable_name = suffix_of(&executable_path, cut);
        proof {
            lemma_after_last_is_skip(executable_path@, 47, cut as int);
        }
        let read_bytes_last: Option<u64> = if process_data.read_bytes.is_some() {
            Some(0)
        } else {
            None
        };
        let write_bytes_last: Option<u64> = if process_data.write_bytes.is_some() {
            Some(0)
        } else {
            None
        };
        Process {
            data: process_data,
            executable_path,
            executable_name,
            cpu_time_last: 0,
            timestamp_last: 0,
            read_bytes_last,
            write_bytes_last,
            gpu_usage_stats_last: Vec::new(),
        }
    }
}

// ---------------------------------------------------------------------------
// Derived rates.
// ---------------------------------------------------------------------------

/// One GPU engine whose usage can be derived per process.
#[derive(Clone, Copy, PartialEq, Eq, Structural, Debug)]
pub enum GpuEngine {
    Gfx,
    Enc,
    Dec,
}

/// The raw counter of one engine in one GPU's stats.
pub open spec fn engine_count(g: GpuUsage, e: GpuEngine) -> u64 {
    match e {
        GpuEngine::Gfx => g.gfx,
        GpuEngine::Enc => g.enc,
        GpuEngine::Dec => g.dec,
    }
}

/// The stats of the first entry for `slot`, mirroring a lookup in the
/// per-GPU mapping.
pub open spec fn spec_lookup_gpu(s: Seq<GpuUsage>, slot: u64) -> Option<GpuUsage>
    decreases s.len(),
{
    if s.len() == 0 {
        None
    } else if s[0].slot == slot {
        Some(s[0])
    } else {
        spec_lookup_gpu(s.drop_first(), slot)
    }
}

/// The CPU usage of one record as a fraction of the whole machine, in parts
/// per million: delta of cumulative CPU ticks over the wall-clock delta
/// times tick rate times logical CPU count. Zero when there is no prior
/// sample and whenever the denominator degenerates to zero, clamped into
/// `u64` from above.
pub open spec fn spec_cpu_time_ratio(p: ProcessView, info: SystemInfo) -> int {
    if p.timestamp_last == 0 {
        0
    } else {
        let total = clamp_u64(p.data.user_cpu_time + p.data.system_cpu_time);
        let delta_cpu = sub0(total, p.cpu_time_last as int);
        let delta_time = sub0(p.data.timestamp as int, p.timestamp_last as int);
        let denom = delta_time * info.tick_rate * info.num_cpus;
        if denom == 0 {
            0
        } else {
            clamp_u64(delta_cpu * 1_000_000_000 / denom)
        }
    }
}

/// The I/O speed in bytes per second derived from one cumulative byte
/// counter and its mirror: `None` where the counter is unsupported,
/// `Some(0)` on the first sample, otherwise the clamped byte delta over the
/// time delta.
pub open spec fn spec_io_speed(
    cur: Option<u64>,
    last: Option<u64>,
    timestamp: u64,
    timestamp_last: u64,
) -> Option<u64> {
    match (cur, last) {
        (Some(bytes), Some(bytes_last)) => if timestamp_last == 0 {
            Some(0u64)
        } else {
            let delta_time = sub0(timestamp as int, timestamp_last as int);
            if delta_time == 0 {
                Some(0u64)
            } else {
                Some(clamp_u64(sub0(bytes as int, bytes_last as int) * 1000 / delta_time) as u64)
            }
        },
        _ => None,
    }
}

/// The usage one GPU contributes for one engine, in parts per million: the
/// raw percentage scaled up for percent-based counters, otherwise the
/// clamped tick delta over the time delta; zero contribution where the GPU
/// was not seen in the prior sample or the deltas degenerate.
pub open spec fn spec_engine_entry(
    cur: GpuUsage,
    prev: Option<GpuUsage>,
    timestamp: u64,
    timestamp_last: u64,
    e: GpuEngine,
) -> int {
    match prev {
        None => 0,
        Some(p) => if cur.percent_based {
            clamp_u64(engine_count(cur, e) * 10_000)
        } else if engine_count(p, e) == 0 {
            0
        } else {
            let delta_time = sub0(timestamp as int, timestamp_last as int);
            if delta_time == 0 {
                0
            } else {
                sub0(engine_count(cur, e) as int, engine_count(p, e) as int) / delta_time
            }
        },
    }
}

/// The per-process usage of one GPU engine: the maximum contribution over
/// all GPUs the process touched.
pub open spec fn spec_engine_usage(
    cur: Seq<GpuUsage>,
    last: Seq<GpuUsage>,
    timestamp: u64,
    timestamp_last: u64,
    e: GpuEngine,
) -> int
    decreases cur.len(),
{
    if cur.len() == 0 {
        0
    } else {
        let rest = spec_engine_usage(cur.drop_last(), last, timestamp, timestamp_last, e);
        let this = spec_engine_entry(
            cur.last(),
            spec_lookup_gpu(last, cur.last().slot),
            timestamp,
            timestamp_last,
            e,
        );
        if this > rest {
            this
        } else {
            rest
        }
    }
}

/// GPU engine usage of a whole record, zero in the sentinel state.
pub open spec fn spec_gpu_usage(p: ProcessView, e: GpuEngine) -> int {
    if p.timestamp_last == 0 {
        0
    } else {
        spec_engine_usage(
            p.data.gpu_usage_stats,
            p.gpu_usage_stats_last,
            p.data.timestamp,
            p.timestamp_last,
            e,
        )
    }
}

/// Total resident GPU memory of a record: the saturating sum over all GPUs,
/// instantaneous, no delta.
pub open spec fn spec_gpu_mem(s: Seq<GpuUsage>) -> int
    decreases s.len(),
{
    if s.len() == 0 {
        0
    } else {
        clamp_u64(spec_gpu_mem(s.drop_last()) + s.last().mem)
    }
}

/// Start time of a record in milliseconds since boot, derived from the tick
/// count; zero when the tick rate is reported as zero.
pub open spec fn spec_starttime_ms(p: ProcessView, info: SystemInfo) -> int {
    if info.tick_rate == 0 {
        0
    } else {
        clamp_u64(p.data.starttime * 1000 / info.tick_rate as int)
    }
}

/// `v` as sanitized display text: `None` for an empty command line,
/// otherwise the bytes with every NUL replaced by a space.
pub open spec fn spec_sanitize_cmdline(v: Seq<u8>) -> Option<Seq<u8>> {
    if v.len() == 0 {
        None
    } else {
        Some(
            v.map_values(
                |b: u8|
                    if b == 0 {
                        32u8
                    } else {
                        b
                    },
            ),
        )
    }
}

/// The stats of the first entry for `slot` in `v`.
fn lookup_gpu(v: &Vec<GpuUsage>, slot: u64) -> (r: Option<GpuUsage>)
    ensures
        r == spec_lookup_gpu(v@, slot),
{
    proof {
        assert(v@.skip(0) =~= v@);
    }
    let mut i: usize = 0;
    while i < v.len()
        invariant
            i <= v@.len(),
            spec_lookup_gpu(v@, slot) == spec_lookup_gpu(v@.skip(i as int), slot),
        decreases v.len() - i,
    {
        proof {
            assert(v@.skip(i as int)[0] == v@[i as int]);
            assert(v@.skip(i as int).drop_first() =~= v@.skip(i as int + 1));
        }
        if v[i].slot == slot {
            return Some(v[i]);
        }
        i = i + 1;
    }
    proof {
        assert(v@.skip(v@.len() as int) =~= Seq::<GpuUsage>::empty());
    }
    None
}

/// The contribution of one GPU to one engine's usage, in parts per million.
fn engine_entry(
    cur: GpuUsage,
    prev: Option<GpuUsage>,
    timestamp: u64,
    timestamp_last: u64,
    e: GpuEngine,
) -> (r: u64)
    ensures
        r == spec_engine_entry(cur, prev, timestamp, timestamp_last, e),
{
    let count: u64 = match e {
        GpuEngine::Gfx => cur.gfx,
        GpuEngine::Enc => cur.enc,
        GpuEngine::Dec => cur.dec,
    };
    match prev {
        None => 0,
        Some(p) => {
            let prev_count: u64 = match e {
                GpuEngine::Gfx => p.gfx,
                GpuEngine::Enc => p.enc,
                GpuEngine::Dec => p.dec,
            };
            if cur.percent_based {
                let scaled: u128 = (count as u128) * 10_000;
                if scaled > u64::MAX as u128 {
                    u64::MAX
                } else {
                    scaled as u64
                }
            } else if prev_count == 0 {
                0
            } else {
                let delta_time = crate::util::sat_sub_u64(timestamp, timestamp_last);
                if delta_time == 0 {
                    0
                } else {
                    crate::util::sat_sub_u64(count, prev_count) / delta_time
                }
            }
        },
    }
}

impl Process {
    /// CPU usage since the previous sample, in parts per million of the
    /// whole machine. Defaults to zero with no prior sample; with one, the
    /// clamped-at-zero counter deltas keep the result a finite, non-negative
    /// integer even when a counter appears to decrease.
    pub fn cpu_time_ratio(&self, info: SystemInfo) -> (r: u64)
        ensures
            r == spec_cpu_time_ratio(self@, info),
            is_sentinel(self@) ==> r == 0,
    {
        if self.timestamp_last == 0 {
            return 0;
        }
        let total = crate::util::sat_add_u64(self.data.user_cpu_time, self.data.system_cpu_time);
        let delta_cpu = crate::util::sat_sub_u64(total, self.cpu_time_last);
        let delta_time = crate::util::sat_sub_u64(self.data.timestamp, self.timestamp_last);
        proof {
            assert((delta_time as int) * (info.tick_rate as int) <= 0xffffffffffffffff
                * 0xffffffff) by (nonlinear_arith)
                requires
                    0 <= delta_time <= 0xffffffffffffffffu64,
                    0 <= info.tick_rate <= 0xffffffffu32,
            ;
            assert((delta_time as int) * (info.tick_rate as int) * (info.num_cpus as int)
                <= 0xffffffffffffffff * 0xffffffff * 0xffffffff) by (nonlinear_arith)
                requires
                    0 <= (delta_time as int) * (info.tick_rate as int) <= 0xffffffffffffffff
                        * 0xffffffff,
                    0 <= info.num_cpus <= 0xffffffffu32,
            ;
        }
        let denom: u128 = (delta_time as u128) * (info.tick_rate as u128) * (info.num_cpus
            as u128);
        if denom == 0 {
            return 0;
        }
        let numer: u128 = (delta_cpu as u128) * 1_000_000_000;
        let q: u128 = numer / denom;
        if q > u64::MAX as u128 {
            u64::MAX
        } else {
            q as u64
        }
    }

    /// Read speed in bytes per second: `None` where the kernel does not
    /// report read bytes for this process, `Some(0)` on the first sample.
    pub fn read_speed(&self) -> (r: Option<u64>)
        ensures
            r == spec_io_speed(
                self.data.read_bytes,
                self.read_bytes_last,
                self.data.timestamp,
                self.timestamp_last,
            ),
            is_sentinel(self@) && self.data.read_bytes is Some && self.read_bytes_last is Some
                ==> r == Some(0u64),
    {
        io_speed(
            self.data.read_bytes,
            self.read_bytes_last,
            self.data.timestamp,
            self.timestamp_last,
        )
    }

    /// Write speed in bytes per second: `None` where the kernel does not
    /// report written bytes for this process, `Some(0)` on the first sample.
    pub fn write_speed(&self) -> (r: Option<u64>)
        ensures
            r == spec_io_speed(
                self.data.write_bytes,
                self.write_bytes_last,
                self.data.timestamp,
                self.timestamp_last,
            ),
            is_sentinel(self@) && self.data.write_bytes is Some && self.write_bytes_last is Some
                ==> r == Some(0u64),
    {
        io_speed(
            self.data.write_bytes,
            self.write_bytes_last,
            self.data.timestamp,
            self.timestamp_last,
        )
    }

    /// Graphics engine usage in parts per million, the maximum over all
    /// GPUs the process touched; zero with no prior sample.
    pub fn gpu_usage(&self) -> (r: u64)
        ensures
            r == spec_gpu_usage(self@, GpuEngine::Gfx),
            is_sentinel(self@) ==> r == 0,
    {
        self.engine_usage(GpuEngine::Gfx)
    }

    /// Video encoding engine usage in parts per million; zero with no prior
    /// sample.
    pub fn enc_usage(&self) -> (r: u64)
        ensures
            r == spec_gpu_usage(self@, GpuEngine::Enc),
            is_sentinel(self@) ==> r == 0,
    {
        self.engine_usage(GpuEngine::Enc)
    }

    /// Video decoding engine usage in parts per million; zero with no prior
    /// sample.
    pub fn dec_usage(&self) -> (r: u64)
        ensures
            r == spec_gpu_usage(self@, GpuEngine::Dec),
            is_sentinel(self@) ==> r == 0,
    {
        self.engine_usage(GpuEngine::Dec)
    }

    fn engine_usage(&self, e: GpuEngine) -> (r: u64)
        ensures
            r == spec_gpu_usage(self@, e),
    {
        if self.timestamp_last == 0 {
            return 0;
        }
        let cur = &self.data.gpu_usage_stats;
        let mut best: u64 = 0;
        let mut i: usize = 0;
        while i < cur.len()
            invariant
                i <= cur@.len(),
                best == spec_engine_usage(
                    cur@.take(i as int),
                    self.gpu_usage_stats_last@,
                    self.data.timestamp,
                    self.timestamp_last,
                    e,
                ),
            decreases cur.len() - i,
        {
            let prev = lookup_gpu(&self.gpu_usage_stats_last, cur[i].slot);
            let this = engine_entry(cur[i], prev, self.data.timestamp, self.timestamp_last, e);
            proof {
                assert(cur@.take(i as int + 1).drop_last() =~= cur@.take(i as int));
                assert(cur@.take(i as int + 1).last() == cur@[i as int]);
            }
            if this > best {
                best = this;
            }
            i = i + 1;
        }
        proof {
            assert(cur@.take(cur@.len() as int) =~= cur@);
        }
        best
    }

    /// Total resident GPU memory in bytes, summed with saturation over all
    /// GPUs; an instantaneous value, valid from the first sample on.
    pub fn gpu_mem_usage(&self) -> (r: u64)
        ensures
            r == spec_gpu_mem(self.data.gpu_usage_stats@),
    {
        let s = &self.data.gpu_usage_stats;
        let mut total: u64 = 0;
        let mut i: usize = 0;
        while i < s.len()
            invariant
                i <= s@.len(),
                total == spec_gpu_mem(s@.take(i as int)),
            decreases s.len() - i,
        {
            proof {
                assert(s@.take(i as int + 1).drop_last() =~= s@.take(i as int));
                assert(s@.take(i as int + 1).last() == s@[i as int]);
            }
            total = crate::util::sat_add_u64(total, s[i].mem);
            i = i + 1;
        }
        proof {
            assert(s@.take(s@.len() as int) =~= s@);
        }
        total
    }

    /// Start time in milliseconds since boot.
    pub fn starttime(&self, info: SystemInfo) -> (r: u64)
        ensures
            r == spec_starttime_ms(self@, info),
    {
        if info.tick_rate == 0 {
            return 0;
        }
        let scaled: u128 = (self.data.starttime as u128) * 1000;
        let q: u128 = scaled / (info.tick_rate as u128);
        if q > u64::MAX as u128 {
            u64::MAX
        } else {
            q as u64
        }
    }

    /// The command line as display text: `None` when it is empty, otherwise
    /// the bytes with every NUL replaced by a space.
    pub fn sanitize_cmdline(cmdline: &Vec<u8>) -> (r: Option<Vec<u8>>)
        ensures
            crate::util::opt_bytes_view(r) == spec_sanitize_cmdline(cmdline@),
    {
        if cmdline.len() == 0 {
            return None;
        }
        let ghost f = |b: u8|
            if b == 0 {
                32u8
            } else {
                b
            };
        let mut out: Vec<u8> = Vec::new();
        let mut i: usize = 0;
        while i < cmdline.len()
            invariant
                i <= cmdline@.len(),
                out@ == cmdline@.take(i as int).map_values(
                    |b: u8|
                        if b == 0 {
                            32u8
                        } else {
                            b
                        },
                ),
            decreases cmdline.len() - i,
        {
            let b = cmdline[i];
            if b == 0 {
                out.push(32);
            } else {
                out.push(b);
            }
            proof {
                assert(cmdline@.take(i as int + 1).map_values(
                    |b: u8|
                        if b == 0 {
                            32u8
                        } else {
                            b
                        },
                ) =~= cmdline@.take(i as int).map_values(
                    |b: u8|
                        if b == 0 {
                            32u8
                        } else {
                            b
                        },
                ).push(
                    if cmdline@[i as int] == 0 {
                        32u8
                    } else {
                        cmdline@[i as int]
                    },
                ));
            }
            i = i + 1;
        }
        proof {
            assert(cmdline@.take(cmdline@.len() as int) =~= cmdline@);
        }
        Some(out)
    }
}

/// Shared body of the two I/O speed functions.
fn io_speed(cur: Option<u64>, last: Option<u64>, timestamp: u64, timestamp_last: u64) -> (r:
    Option<u64>)
    ensures
        r == spec_io_speed(cur, last, timestamp, timestamp_last),
{
    match (cur, last) {
        (Some(bytes), Some(bytes_last)) => {
            if timestamp_last == 0 {
                Some(0)
            } else {
                let delta_time = crate::util::sat_sub_u64(timestamp, timestamp_last);
                if delta_time == 0 {
                    Some(0)
                } else {
                    let delta = crate::util::sat_sub_u64(bytes, bytes_last);
                    let scaled: u128 = (delta as u128) * 1000;
                    let q: u128 = scaled / (delta_time as u128);
                    if q > u64::MAX as u128 {
                        Some(u64::MAX)
                    } else {
                        Some(q as u64)
                    }
                }
            }
        },
        _ => None,
    }
}

/// Every rate of a record in the sentinel "no prior sample" state is its
/// defined default, and every CPU ratio of any record at all is a finite,
/// non-negative value that fits a machine word, whatever the counters did
/// between the two samples.
pub proof fn lemma_rates_total(p: ProcessView, info: SystemInfo)
    ensures
        0 <= spec_cpu_time_ratio(p, info) <= u64::MAX,
        is_sentinel(p) ==> spec_cpu_time_ratio(p, info) == 0,
        is_sentinel(p) ==> spec_gpu_usage(p, GpuEngine::Gfx) == 0 && spec_gpu_usage(
            p,
            GpuEngine::Enc,
        ) == 0 && spec_gpu_usage(p, GpuEngine::Dec) == 0,
        is_sentinel(p) && p.data.read_bytes is Some && p.read_bytes_last is Some ==> spec_io_speed(
            p.data.read_bytes,
            p.read_bytes_last,
            p.data.timestamp,
            p.timestamp_last,
        ) == Some(0u64),
        p.data.read_bytes is None ==> spec_io_speed(
            p.data.read_bytes,
            p.read_bytes_last,
            p.data.timestamp,
            p.timestamp_last,
        ) is None,
{
    if p.timestamp_last != 0 {
        let total = clamp_u64(p.data.user_cpu_time + p.data.system_cpu_time);
        let delta_cpu = sub0(total, p.cpu_time_last as int);
        let delta_time = sub0(p.data.timestamp as int, p.timestamp_last as int);
        let denom = delta_time * info.tick_rate * info.num_cpus;
        if denom != 0 {
            assert(denom > 0) by (nonlinear_arith)
                requires
                    denom == delta_time * info.tick_rate * info.num_cpus,
                    delta_time >= 0,
                    info.tick_rate >= 0,
                    info.num_cpus >= 0,
                    denom != 0,
            ;
            assert(delta_cpu * 1_000_000_000 >= 0) by (nonlinear_arith)
                requires
                    delta_cpu >= 0,
            ;
            assert(delta_cpu * 1_000_000_000 / denom >= 0) by (nonlinear_arith)
                requires
                    delta_cpu * 1_000_000_000 >= 0,
                    denom > 0,
            ;
        }
    }
}

} // verus!
