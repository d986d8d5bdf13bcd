//! The process record store: the previous and current snapshot per process.
//!
//! `merge` diffs an incoming snapshot against the records of the previous
//! cycle. A process already in the store keeps its identity: its current
//! counters move into the previous-sample mirror and the new sample becomes
//! current. A newly observed process starts in the sentinel "no prior
//! sample" state. Processes absent from the new snapshot are dropped — the
//! store after a merge holds exactly the processes of that snapshot, in
//! snapshot order.

use vstd::prelude::*;

use crate::process::{spec_from_process_data, Process, ProcessView};
use crate::sample::{GpuUsage, ProcessData, ProcessDataView};
use crate::util::{clamp_u64, copy_bytes, copy_opt_bytes, sat_add_u64};

verus! {

/// The views of a sequence of records.
pub open spec fn record_views(s: Seq<Process>) -> Seq<ProcessView> {
    s.map_values(|p: Process| p@)
}

/// The first record for `pid`, mirroring a lookup by process id.
pub open spec fn spec_find_record(s: Seq<ProcessView>, pid: u32) -> Option<ProcessView>
    decreases s.len(),
{
    if s.len() == 0 {
        None
    } else if s[0].data.pid == pid {
        Some(s[0])
    } else {
        spec_find_record(s.drop_first(), pid)
    }
}

/// What one incoming sample becomes against the records of the previous
/// cycle: a continuation of the existing record for its pid, with the old
/// current counters moved wholesale into the mirror, or a fresh sentinel
/// record for a newly observed process.
pub open spec fn spec_merge_one(old_records: Seq<ProcessView>, d: ProcessDataView) -> ProcessView {
    match spec_find_record(old_records, d.pid) {
        Some(r) => ProcessView {
            data: d,
            executable_path: r.executable_path,
            executable_name: r.executable_name,
            cpu_time_last: clamp_u64(r.data.user_cpu_time + r.data.system_cpu_time) as u64,
            timestamp_last: r.data.timestamp,
            read_bytes_last: r.data.read_bytes,
            write_bytes_last: r.data.write_bytes,
            gpu_usage_stats_last: r.data.gpu_usage_stats,
        },
        None => spec_from_process_data(d),
    }
}

/// Owns the durable per-process records across refresh cycles. Only the
/// orchestrating refresh mutates it; aggregation reads it within one cycle.
pub struct ProcessRecordStore {
    pub records: Vec<Process>,
}

impl View for ProcessRecordStore {
    type V = Seq<ProcessView>;

    open spec fn view(&self) -> Seq<ProcessView> {
        record_views(self.records@)
    }
}

/// The index of the first record for `pid`, with its relation to the
/// lookup the merge specification performs.
fn find_pid(records: &Vec<Process>, pid: u32) -> (r: Option<usize>)
    ensures
        match r {
            Some(i) => i < records@.len() && spec_find_record(record_views(records@), pid)
                == Some(records@[i as int]@),
            None => spec_find_record(record_views(records@), pid) is None,
        },
{
    let ghost s = record_views(records@);
    proof {
        assert(s.skip(0) =~= s);
    }
    let mut i: usize = 0;
    while i < records.len()
        invariant
            i <= records@.len(),
            s == record_views(records@),
            spec_find_record(s, pid) == spec_find_record(s.skip(i as int), pid),
        decreases records.len() - i,
    {
        proof {
            assert(s.skip(i as int)[0] == s[i as int]);
            assert(s.skip(i as int).drop_first() =~= s.skip(i as int + 1));
        }
        if records[i].data.pid == pid {
            return Some(i);
        }
        i = i + 1;
    }
    proof {
        assert(s.skip(s.len() as int) =~= Seq::<ProcessView>::empty());
    }
    None
}

/// Copies a list of per-GPU stats.
fn copy_gpu_list(v: &Vec<GpuUsage>) -> (r: Vec<GpuUsage>)
    ensures
        r@ == v@,
{
    let mut out: Vec<GpuUsage> = Vec::new();
    let mut i: usize = 0;
    while i < v.len()
        invariant
            i <= v@.len(),
            out@ == v@.take(i as int),
        decreases v.len() - i,
    {
        out.push(v[i]);
        proof {
            assert(v@.take(i as int + 1) =~= v@.take(i as int).push(v@[i as int]));
        }
        i = i + 1;
    }
    proof {
        assert(v@.take(v@.len() as int) =~= v@);
    }
    out
}

/// Copies one raw sample.
fn copy_process_data(d: &ProcessData) -> (r: ProcessData)
    ensures
        r@ == d@,
{
    ProcessData {
        pid: d.pid,
        parent_pid: d.parent_pid,
        uid: d.uid,
        commandline: copy_bytes(&d.commandline),
        user_cpu_time: d.user_cpu_time,
        system_cpu_time: d.system_cpu_time,
        read_bytes: d.read_bytes,
        write_bytes: d.write_bytes,
        memory_usage: d.memory_usage,
        starttime: d.starttime,
        timestamp: d.timestamp,
        app_id: copy_opt_bytes(&d.app_id),
        gpu_usage_stats: copy_gpu_list(&d.gpu_usage_stats),
    }
}

impl ProcessRecordStore {
    /// An empty store: no process has been observed yet.
    pub fn new() -> (r: ProcessRecordStore)
        ensures
            r@ == Seq::<ProcessView>::empty(),
    {
        proof {
            assert(record_views(Seq::<Process>::empty()) =~= Seq::<ProcessView>::empty());
        }
        ProcessRecordStore { records: Vec::new() }
    }

    /// Merges one snapshot into the store. Afterwards the store holds one
    /// record per incoming sample, in snapshot order: a continuation with
    /// the previous counters mirrored where the pid was already known, a
    /// fresh sentinel record where it was not. Records whose pid the
    /// snapshot no longer holds are gone.
    pub fn merge(&mut self, new_samples: &Vec<ProcessData>)
        ensures
            final(self)@.len() == new_samples@.len(),
            forall|i: int|
                0 <= i < new_samples@.len() ==> final(self)@[i] == spec_merge_one(
                    old(self)@,
                    new_samples@[i]@,
                ),
    {
        let mut merged: Vec<Process> = Vec::new();
        let mut i: usize = 0;
        while i < new_samples.len()
            invariant
                i <= new_samples@.len(),
                merged@.len() == i,
                forall|k: int|
                    0 <= k < i ==> (#[trigger] merged@[k])@ == spec_merge_one(
                        record_views(self.records@),
                        new_samples@[k]@,
                    ),
            decreases new_samples.len() - i,
        {
            let d = copy_process_data(&new_samples[i]);
            let next: Process = match find_pid(&self.records, d.pid) {
                Some(j) => {
                    let prev = &self.records[j];
                    Process {
                        executable_path: copy_bytes(&prev.executable_path),
                        executable_name: copy_bytes(&prev.executable_name),
                        cpu_time_last: sat_add_u64(
                            prev.data.user_cpu_time,
                            prev.data.system_cpu_time,
                        ),
                        timestamp_last: prev.data.timestamp,
                        read_bytes_last: prev.data.read_bytes,
                        write_bytes_last: prev.data.write_bytes,
                        gpu_usage_stats_last: copy_gpu_list(&prev.data.gpu_usage_stats),
                        data: d,
                    }
                },
                None => Process::from_process_data(d),
            };
            proof {
                assert(next@ == spec_merge_one(record_views(self.records@), new_samples@[i as int]@));
            }
            merged.push(next);
            i = i + 1;
        }
        proof {
            assert forall|k: int| 0 <= k < merged@.len() implies record_views(merged@)[k]
                == merged@[k]@ by {}
        }
        self.records = merged;
    }
}

} // verus!
