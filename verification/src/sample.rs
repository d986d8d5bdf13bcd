//! The raw per-process sample delivered by the privileged collector, and the
//! host constants needed to turn its cumulative counters into rates.
//!
//! A sample is one process's kernel-sourced counters at a single instant. It
//! is immutable once received; every derived value is computed elsewhere from
//! a pair of consecutive samples. Times are measured in the collector's
//! monotonic milliseconds since boot, CPU accounting in kernel ticks.

use vstd::prelude::*;

verus! {

/// One GPU's usage counters for one process. `gfx`, `enc` and `dec` are
/// either cumulative engine ticks or, when `percent_based` is set (vendor
/// drivers that report native percentages), instantaneous percentages.
/// `mem` is resident GPU memory in bytes, already instantaneous.
#[derive(Clone, Copy, PartialEq, Eq, Structural, Debug)]
pub struct GpuUsage {
    /// The PCI slot of the GPU, packed into one integer key.
    pub slot: u64,
    pub gfx: u64,
    pub enc: u64,
    pub dec: u64,
    pub mem: u64,
    pub percent_based: bool,
}

/// Host constants for CPU accounting: the kernel tick rate in ticks per
/// second and the number of logical CPUs.
#[derive(Clone, Copy, PartialEq, Eq, Structural, Debug)]
pub struct SystemInfo {
    pub tick_rate: u32,
    pub num_cpus: u32,
}

/// One process's raw counters at a point in time, as the collector sends
/// them. `read_bytes` and `write_bytes` are `None` where the kernel does not
/// support the counter for this process. `app_id` is the application
/// identity used for grouping, absent for ungrouped system processes.
#[derive(Clone, PartialEq, Eq, Debug)]
pub struct ProcessData {
    pub pid: u32,
    pub parent_pid: u32,
    pub uid: u32,
    /// The raw command line, argument boundaries marked by NUL bytes.
    pub commandline: Vec<u8>,
    pub user_cpu_time: u64,
    pub system_cpu_time: u64,
    pub read_bytes: Option<u64>,
    pub write_bytes: Option<u64>,
    /// Resident memory in bytes, instantaneous.
    pub memory_usage: u64,
    /// Process start time in ticks since boot.
    pub starttime: u64,
    /// Monotonic sample time in milliseconds since boot.
    pub timestamp: u64,
    pub app_id: Option<Vec<u8>>,
    pub gpu_usage_stats: Vec<GpuUsage>,
}

/// The mathematical value of a [`ProcessData`].
pub ghost struct ProcessDataView {
    pub pid: u32,
    pub parent_pid: u32,
    pub uid: u32,
    pub commandline: Seq<u8>,
    pub user_cpu_time: u64,
    pub system_cpu_time: u64,
    pub read_bytes: Option<u64>,
    pub write_bytes: Option<u64>,
    pub memory_usage: u64,
    pub starttime: u64,
    pub timestamp: u64,
    pub app_id: Option<Seq<u8>>,
    pub gpu_usage_stats: Seq<GpuUsage>,
}

impl View for ProcessData {
    type V = ProcessDataView;

    open spec fn view(&self) -> ProcessDataView {
        ProcessDataView {
            pid: self.pid,
            parent_pid: self.parent_pid,
            uid: self.uid,
            commandline: self.commandline@,
            user_cpu_time: self.user_cpu_time,
            system_cpu_time: self.system_cpu_time,
            read_bytes: self.read_bytes,
            write_bytes: self.write_bytes,
            memory_usage: self.memory_usage,
            starttime: self.starttime,
            timestamp: self.timestamp,
            app_id: crate::util::opt_bytes_view(self.app_id),
            gpu_usage_stats: self.gpu_usage_stats@,
        }
    }
}

/// The views of a whole snapshot, sample by sample.
pub open spec fn sample_views(s: Seq<ProcessData>) -> Seq<ProcessDataView> {
    s.map_values(|d: ProcessData| d@)
}

} // verus!
