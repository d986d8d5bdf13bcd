//! Grouping process records into logical applications.
//!
//! Applications are re-derived from the current record set on every refresh
//! cycle; nothing of a previous cycle's grouping survives, so stale
//! references cannot. The grouping key is the application identity a record
//! carries; records without one fall into the residual system bucket, whose
//! summary has no identity and an empty display name (naming and icons for
//! it belong to the presentation layer). Callers that keep a selection must
//! re-resolve it by identity after a refresh, never by position.

use vstd::prelude::*;

use crate::action::ProcessAction;
use crate::codec::CollectorError;
use crate::process::{spec_cpu_time_ratio, Process, ProcessView};
use crate::sample::{ProcessData, SystemInfo};
use crate::store::{record_views, spec_merge_one, ProcessRecordStore};
use crate::util::{clamp_u64, copy_bytes, copy_opt_bytes, opt_bytes_eq, opt_bytes_view, sat_add_u64};

verus! {

/// The grouping key of one record.
pub open spec fn rec_id(p: ProcessView) -> Option<Seq<u8>> {
    p.data.app_id
}

/// The distinct application identities of a record set, in first-appearance
/// order; `None` stands for the system bucket.
pub open spec fn distinct_ids(rs: Seq<ProcessView>) -> Seq<Option<Seq<u8>>>
    decreases rs.len(),
{
    if rs.len() == 0 {
        Seq::empty()
    } else {
        let rest = distinct_ids(rs.drop_last());
        if rest.contains(rec_id(rs.last())) {
            rest
        } else {
            rest.push(rec_id(rs.last()))
        }
    }
}

/// The records carrying identity `id`, in record order.
pub open spec fn members(rs: Seq<ProcessView>, id: Option<Seq<u8>>) -> Seq<ProcessView>
    decreases rs.len(),
{
    if rs.len() == 0 {
        Seq::empty()
    } else {
        let rest = members(rs.drop_last(), id);
        if rec_id(rs.last()) == id {
            rest.push(rs.last())
        } else {
            rest
        }
    }
}

/// The pids of a member list, in member order.
pub open spec fn member_pids(ms: Seq<ProcessView>) -> Seq<u32> {
    ms.map_values(|p: ProcessView| p.data.pid)
}

/// Saturating sum of the members' resident memory.
pub open spec fn spec_mem_sum(ms: Seq<ProcessView>) -> int
    decreases ms.len(),
{
    if ms.len() == 0 {
        0
    } else {
        clamp_u64(spec_mem_sum(ms.drop_last()) + ms.last().data.memory_usage)
    }
}

/// Saturating sum of the members' CPU ratios, in parts per million.
pub open spec fn spec_cpu_sum(ms: Seq<ProcessView>, info: SystemInfo) -> int
    decreases ms.len(),
{
    if ms.len() == 0 {
        0
    } else {
        clamp_u64(spec_cpu_sum(ms.drop_last(), info) + spec_cpu_time_ratio(ms.last(), info))
    }
}

/// The display name of an identity: the identity itself; the system bucket
/// is left nameless for the presentation layer to label.
pub open spec fn spec_display_name(id: Option<Seq<u8>>) -> Seq<u8> {
    match id {
        Some(s) => s,
        None => Seq::empty(),
    }
}

/// A refresh-cycle-scoped projection of one application: identity, display
/// name, aggregate memory, aggregate CPU ratio in parts per million, and
/// member count. The only structure handed across the presentation boundary.
#[derive(Clone, PartialEq, Eq, Debug)]
pub struct SimpleItem {
    pub id: Option<Vec<u8>>,
    pub display_name: Vec<u8>,
    pub memory_usage: u64,
    pub cpu_time_ratio: u64,
    pub processes_amount: usize,
}

/// The mathematical value of a [`SimpleItem`].
pub ghost struct SimpleItemView {
    pub id: Option<Seq<u8>>,
    pub display_name: Seq<u8>,
    pub memory_usage: u64,
    pub cpu_time_ratio: u64,
    pub processes_amount: usize,
}

impl View for SimpleItem {
    type V = SimpleItemView;

    open spec fn view(&self) -> SimpleItemView {
        SimpleItemView {
            id: opt_bytes_view(self.id),
            display_name: self.display_name@,
            memory_usage: self.memory_usage,
            cpu_time_ratio: self.cpu_time_ratio,
            processes_amount: self.processes_amount,
        }
    }
}

/// What the summary of identity `id` over a record set holds.
pub open spec fn spec_summary(
    rs: Seq<ProcessView>,
    id: Option<Seq<u8>>,
    info: SystemInfo,
) -> SimpleItemView {
    SimpleItemView {
        id: id,
        display_name: spec_display_name(id),
        memory_usage: spec_mem_sum(members(rs, id)) as u64,
        cpu_time_ratio: spec_cpu_sum(members(rs, id), info) as u64,
        processes_amount: members(rs, id).len() as usize,
    }
}

/// One logical application as an action target: its identity, display name
/// and the member pids in record order, to which lifecycle actions fan out
/// one by one.
#[derive(Clone, PartialEq, Eq, Debug)]
pub struct App {
    pub id: Option<Vec<u8>>,
    pub display_name: Vec<u8>,
    pub pids: Vec<u32>,
}

/// The mathematical value of an [`App`].
pub ghost struct AppView {
    pub id: Option<Seq<u8>>,
    pub display_name: Seq<u8>,
    pub pids: Seq<u32>,
}

impl View for App {
    type V = AppView;

    open spec fn view(&self) -> AppView {
        AppView {
            id: opt_bytes_view(self.id),
            display_name: self.display_name@,
            pids: self.pids@,
        }
    }
}

impl App {
    /// The display name shown for this application.
    pub fn display_name(&self) -> (r: &Vec<u8>)
        ensures
            r@ == self@.display_name,
    {
        &self.display_name
    }

    /// The per-pid fan-out of one lifecycle action: one helper delivery per
    /// member pid, in member order. Callers perform the deliveries and
    /// collect the per-pid outcomes in this order.
    pub fn fan_out(&self, action: ProcessAction) -> (r: Vec<(ProcessAction, u32)>)
        ensures
            r@.len() == self@.pids.len(),
            forall|i: int| 0 <= i < r@.len() ==> r@[i] == (action, self@.pids[i]),
    {
        let mut plan: Vec<(ProcessAction, u32)> = Vec::new();
        let mut i: usize = 0;
        while i < self.pids.len()
            invariant
                i <= self@.pids.len(),
                plan@.len() == i,
                forall|j: int| 0 <= j < i ==> plan@[j] == (action, self@.pids[j]),
            decreases self.pids.len() - i,
        {
            plan.push((action, self.pids[i]));
            i = i + 1;
        }
        plan
    }
}

/// The first position in `v` holding an identity equal to `id`.
fn find_opt_id(v: &Vec<Option<Vec<u8>>>, id: &Option<Vec<u8>>) -> (r: Option<usize>)
    ensures
        match r {
            Some(k) => k < v@.len() && opt_bytes_view(v@[k as int]) == opt_bytes_view(*id),
            None => forall|j: int|
                0 <= j < v@.len() ==> opt_bytes_view(v@[j]) != opt_bytes_view(*id),
        },
{
    let mut i: usize = 0;
    while i < v.len()
        invariant
            i <= v@.len(),
            forall|j: int| 0 <= j < i ==> opt_bytes_view(v@[j]) != opt_bytes_view(*id),
        decreases v.len() - i,
    {
        if opt_bytes_eq(&v[i], id) {
            return Some(i);
        }
        i = i + 1;
    }
    None
}

/// Builds the display-ready summaries of a record set: one per distinct
/// identity, in first-appearance order, each aggregating its members'
/// memory, CPU ratio and count.
pub fn summarize(records: &Vec<Process>, info: SystemInfo) -> (r: Vec<SimpleItem>)
    ensures
        r@.len() == distinct_ids(record_views(records@)).len(),
        forall|k: int|
            0 <= k < r@.len() ==> (#[trigger] r@[k])@ == spec_summary(
                record_views(records@),
                distinct_ids(record_views(records@))[k],
                info,
            ),
{
    let ghost s = record_views(records@);
    // First pass: the distinct identities in first-appearance order.
    let mut ids: Vec<Option<Vec<u8>>> = Vec::new();
    let mut i: usize = 0;
    while i < records.len()
        invariant
            i <= records@.len(),
            s == record_views(records@),
            ids@.map_values(|o: Option<Vec<u8>>| opt_bytes_view(o)) =~= distinct_ids(
                s.take(i as int),
            ),
        decreases records.len() - i,
    {
        let ghost prefix = s.take(i as int);
        let ghost id_i = rec_id(s[i as int]);
        proof {
            assert(s.take(i as int + 1).drop_last() =~= prefix);
            assert(s.take(i as int + 1).last() == s[i as int]);
        }
        match find_opt_id(&ids, &records[i].data.app_id) {
            Some(w) => {
                proof {
                    assert(s[i as int] == records@[i as int]@);
                    assert(distinct_ids(prefix)[w as int] == opt_bytes_view(ids@[w as int]));
                    assert(distinct_ids(prefix)[w as int] == id_i);
                    assert(distinct_ids(prefix).contains(id_i));
                }
            },
            None => {
                proof {
                    if distinct_ids(prefix).contains(id_i) {
                        let w = choose|w: int|
                            0 <= w < distinct_ids(prefix).len() && distinct_ids(prefix)[w]
                                == id_i;
                        assert(opt_bytes_view(ids@[w]) == id_i);
                        assert(false);
                    }
                }
                ids.push(copy_opt_bytes(&records[i].data.app_id));
                proof {
                    assert(ids@.map_values(|o: Option<Vec<u8>>| opt_bytes_view(o)) =~= distinct_ids(
                        s.take(i as int + 1),
                    ));
                }
            },
        }
        i = i + 1;
    }
    proof {
        assert(s.take(s.len() as int) =~= s);
    }
    // Second pass: aggregate the members of each identity.
    let mut out: Vec<SimpleItem> = Vec::new();
    let mut k: usize = 0;
    while k < ids.len()
        invariant
            k <= ids@.len(),
            s == record_views(records@),
            ids@.map_values(|o: Option<Vec<u8>>| opt_bytes_view(o)) =~= distinct_ids(s),
            out@.len() == k,
            forall|m: int|
                0 <= m < k ==> (#[trigger] out@[m])@ == spec_summary(s, distinct_ids(s)[m], info),
        decreases ids.len() - k,
    {
        let ghost id = distinct_ids(s)[k as int];
        proof {
            assert(opt_bytes_view(ids@[k as int]) == id);
        }
        let mut mem: u64 = 0;
        let mut cpu: u64 = 0;
        let mut cnt: usize = 0;
        let mut j: usize = 0;
        while j < records.len()
            invariant
                j <= records@.len(),
                k < ids@.len(),
                s == record_views(records@),
                opt_bytes_view(ids@[k as int]) == id,
                mem == spec_mem_sum(members(s.take(j as int), id)),
                cpu == spec_cpu_sum(members(s.take(j as int), id), info),
                cnt == members(s.take(j as int), id).len(),
                cnt <= j,
            decreases records.len() - j,
        {
            let same = opt_bytes_eq(&records[j].data.app_id, &ids[k]);
            proof {
                assert(s[j as int] == records@[j as int]@);
                assert(s.take(j as int + 1).drop_last() =~= s.take(j as int));
                assert(s.take(j as int + 1).last() == s[j as int]);
                if same {
                    assert(rec_id(s[j as int]) == id);
                    assert(members(s.take(j as int), id).push(s[j as int]).drop_last()
                        =~= members(s.take(j as int), id));
                    assert(members(s.take(j as int), id).push(s[j as int]).last()
                        == s[j as int]);
                } else {
                    assert(rec_id(s[j as int]) != id);
                }
            }
            if same {
                mem = sat_add_u64(mem, records[j].data.memory_usage);
                cpu = sat_add_u64(cpu, records[j].cpu_time_ratio(info));
                cnt = cnt + 1;
            }
            j = j + 1;
        }
        proof {
            assert(s.take(s.len() as int) =~= s);
        }
        let item = SimpleItem {
            id: copy_opt_bytes(&ids[k]),
            display_name: match &ids[k] {
                Some(name) => copy_bytes(name),
                None => Vec::new(),
            },
            memory_usage: mem,
            cpu_time_ratio: cpu,
            processes_amount: cnt,
        };
        proof {
            assert(item@ == spec_summary(s, id, info));
        }
        out.push(item);
        k = k + 1;
    }
    out
}

/// The position at which `items` holds the identity `id`, if anywhere: the
/// identity-based re-resolution a caller performs after a refresh, since
/// positions are not stable across cycles.
pub fn position_of_id(items: &Vec<SimpleItem>, id: &Option<Vec<u8>>) -> (r: Option<usize>)
    ensures
        match r {
            Some(k) => k < items@.len() && items@[k as int]@.id == opt_bytes_view(*id)
                && forall|j: int| 0 <= j < k ==> items@[j]@.id != opt_bytes_view(*id),
            None => forall|j: int| 0 <= j < items@.len() ==> items@[j]@.id != opt_bytes_view(*id),
        },
{
    let mut i: usize = 0;
    while i < items.len()
        invariant
            i <= items@.len(),
            forall|j: int| 0 <= j < i ==> items@[j]@.id != opt_bytes_view(*id),
        decreases items.len() - i,
    {
        if opt_bytes_eq(&items[i].id, id) {
            return Some(i);
        }
        i = i + 1;
    }
    None
}

/// Looks one application up by identity over a record set: its members'
/// pids in record order, or nothing when no record carries the identity.
pub fn get_app(records: &Vec<Process>, id: &Vec<u8>) -> (r: Option<App>)
    ensures
        match r {
            Some(app) => app@.id == Some(id@) && app@.display_name == id@ && app@.pids
                == member_pids(members(record_views(records@), Some(id@))) && members(
                record_views(records@),
                Some(id@),
            ).len() > 0,
            None => members(record_views(records@), Some(id@)).len() == 0,
        },
{
    let ghost s = record_views(records@);
    let want: Option<Vec<u8>> = Some(copy_bytes(id));
    let mut pids: Vec<u32> = Vec::new();
    let mut i: usize = 0;
    while i < records.len()
        invariant
            i <= records@.len(),
            s == record_views(records@),
            opt_bytes_view(want) == Some(id@),
            pids@ =~= member_pids(members(s.take(i as int), Some(id@))),
        decreases records.len() - i,
    {
        proof {
            assert(s.take(i as int + 1).drop_last() =~= s.take(i as int));
            assert(s.take(i as int + 1).last() == s[i as int]);
        }
        if opt_bytes_eq(&records[i].data.app_id, &want) {
            pids.push(records[i].data.pid);
            proof {
                assert(member_pids(members(s.take(i as int + 1), Some(id@))) =~= member_pids(
                    members(s.take(i as int), Some(id@)),
                ).push(s[i as int].data.pid));
            }
        }
        i = i + 1;
    }
    proof {
        assert(s.take(s.len() as int) =~= s);
    }
    if pids.len() == 0 {
        proof {
            assert(member_pids(members(s, Some(id@))).len() == members(s, Some(id@)).len());
        }
        None
    } else {
        Some(
            App {
                id: want,
                display_name: copy_bytes(id),
                pids,
            },
        )
    }
}

/// Drives the refresh cycle: owns the record store and the last published
/// summaries, merges each snapshot and republishes.
pub struct Apps {
    pub info: SystemInfo,
    pub store: ProcessRecordStore,
    pub summaries: Vec<SimpleItem>,
}

impl Apps {
    /// A fresh orchestrator for a host with the given constants; nothing
    /// observed, nothing published.
    pub fn new(info: SystemInfo) -> (r: Apps)
        ensures
            r.info == info,
            r.store@ == Seq::<ProcessView>::empty(),
            r.summaries@ == Seq::<SimpleItem>::empty(),
    {
        Apps { info, store: ProcessRecordStore::new(), summaries: Vec::new() }
    }

    /// The last published summaries. After a failed refresh these are the
    /// last-known-good set, never cleared.
    pub fn simple(&self) -> (r: &Vec<SimpleItem>)
        ensures
            r@ == self.summaries@,
    {
        &self.summaries
    }

    /// Looks the application with identity `id` up in the current records.
    pub fn get_app(&self, id: &Vec<u8>) -> (r: Option<App>)
        ensures
            match r {
                Some(app) => app@.id == Some(id@) && app@.pids == member_pids(
                    members(self.store@, Some(id@)),
                ),
                None => members(self.store@, Some(id@)).len() == 0,
            },
    {
        get_app(&self.store.records, id)
    }

    /// One refresh cycle: a successful snapshot is merged into the store
    /// and the summaries are rebuilt from the merged records; a failed one
    /// changes nothing and is surfaced, the previous summaries staying
    /// published as the last-known-good set.
    pub fn refresh(&mut self, snapshot: Result<Vec<ProcessData>, CollectorError>) -> (r: Result<
        (),
        CollectorError,
    >)
        ensures
            final(self).info == old(self).info,
            snapshot matches Err(e) ==> r == Err::<(), CollectorError>(e) && final(self).store@
                == old(self).store@ && final(self).summaries@ == old(self).summaries@,
            snapshot matches Ok(samples) ==> {
                &&& r == Ok::<(), CollectorError>(())
                &&& final(self).store@.len() == samples@.len()
                &&& forall|i: int|
                    0 <= i < samples@.len() ==> final(self).store@[i] == spec_merge_one(
                        old(self).store@,
                        samples@[i]@,
                    )
                &&& final(self).summaries@.len() == distinct_ids(final(self).store@).len()
                &&& forall|k: int|
                    0 <= k < final(self).summaries@.len() ==> (#[trigger] final(self).summaries@[k])@
                        == spec_summary(
                        final(self).store@,
                        distinct_ids(final(self).store@)[k],
                        old(self).info,
                    )
            },
    {
        match snapshot {
            Err(e) => Err(e),
            Ok(samples) => {
                self.store.merge(&samples);
                self.summaries = summarize(&self.store.records, self.info);
                Ok(())
            },
        }
    }
}

} // verus!
