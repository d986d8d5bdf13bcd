use resources_core::action::{count_successful, resolve_action, ActionError, ProcessAction};
use resources_core::apps::{position_of_id, Apps, SimpleItem};
use resources_core::codec::CollectorError;
use resources_core::sample::{ProcessData, SystemInfo};

fn info() -> SystemInfo {
    SystemInfo { tick_rate: 100, num_cpus: 1 }
}

fn sample(pid: u32, app_id: Option<&[u8]>, memory: u64, cpu: u64, timestamp: u64) -> ProcessData {
    ProcessData {
        pid,
        parent_pid: 1,
        uid: 1000,
        commandline: b"/usr/bin/member".to_vec(),
        user_cpu_time: cpu,
        system_cpu_time: 0,
        read_bytes: None,
        write_bytes: None,
        memory_usage: memory,
        starttime: 0,
        timestamp,
        app_id: app_id.map(|a| a.to_vec()),
        gpu_usage_stats: Vec::new(),
    }
}

fn ids(items: &[SimpleItem]) -> Vec<Option<Vec<u8>>> {
    items.iter().map(|i| i.id.clone()).collect()
}

/// Two processes sharing identity "A" with 100 MB and 200 MB of memory at
/// CPU ratios 0.1 and 0.2 aggregate to one summary: 300 MB, CPU 0.3
/// (300 000 parts per million), two processes.
#[test]
fn shared_identity_aggregates() {
    const MB: u64 = 1_000_000;
    let mut apps = Apps::new(info());
    // Baseline snapshot, then one second later 10 and 20 ticks of CPU: at
    // 100 ticks per second on one CPU that is 0.1 and 0.2 of the machine.
    let first = vec![
        sample(101, Some(b"A"), 100 * MB, 0, 10_000),
        sample(102, Some(b"A"), 200 * MB, 0, 10_000),
    ];
    assert_eq!(apps.refresh(Ok(first)), Ok(()));
    let second = vec![
        sample(101, Some(b"A"), 100 * MB, 10, 11_000),
        sample(102, Some(b"A"), 200 * MB, 20, 11_000),
    ];
    assert_eq!(apps.refresh(Ok(second)), Ok(()));
    let items = apps.simple();
    assert_eq!(items.len(), 1);
    assert_eq!(items[0].id, Some(b"A".to_vec()));
    assert_eq!(items[0].display_name, b"A".to_vec());
    assert_eq!(items[0].memory_usage, 300 * MB);
    assert_eq!(items[0].cpu_time_ratio, 300_000);
    assert_eq!(items[0].processes_amount, 2);
}

/// Processes without an identity fall into the one system bucket, which
/// has no identity of its own.
#[test]
fn system_bucket_collects_unidentified() {
    let mut apps = Apps::new(info());
    let snapshot = vec![
        sample(1, None, 10, 0, 10_000),
        sample(2, Some(b"A"), 20, 0, 10_000),
        sample(3, None, 30, 0, 10_000),
    ];
    assert_eq!(apps.refresh(Ok(snapshot)), Ok(()));
    let items = apps.simple();
    assert_eq!(items.len(), 2);
    assert_eq!(items[0].id, None);
    assert_eq!(items[0].memory_usage, 40);
    assert_eq!(items[0].processes_amount, 2);
    assert_eq!(items[1].id, Some(b"A".to_vec()));
}

/// A kill fanned out over three member pids where the second fails with
/// permission denied after escalation yields [Ok, Err, Ok]; the caller
/// derives one unsuccessful process from the sequence.
#[test]
fn fan_out_partial_failure() {
    let mut apps = Apps::new(info());
    let snapshot = vec![
        sample(201, Some(b"A"), 1, 0, 10_000),
        sample(202, Some(b"A"), 1, 0, 10_000),
        sample(203, Some(b"A"), 1, 0, 10_000),
    ];
    assert_eq!(apps.refresh(Ok(snapshot)), Ok(()));
    let app = apps.get_app(&b"A".to_vec()).expect("application A exists");
    let plan = app.fan_out(ProcessAction::KILL);
    assert_eq!(
        plan.iter().map(|(_, pid)| *pid).collect::<Vec<u32>>(),
        vec![201, 202, 203]
    );
    // The helper reports: pid 201 fine, pid 202 permission denied even
    // after the escalated retry, pid 203 fine.
    let results: Vec<Result<(), ActionError>> = plan
        .iter()
        .map(|(_, pid)| match pid {
            202 => resolve_action(Some(1), Some(1)),
            _ => resolve_action(Some(0), None),
        })
        .collect();
    assert_eq!(
        results,
        vec![Ok(()), Err(ActionError::PermissionDenied), Ok(())]
    );
    assert_eq!(results.len() - count_successful(&results), 1);
}

/// A selection kept by identity survives a refresh in which the selected
/// application gains a member and moves to another position.
#[test]
fn selection_survives_refresh() {
    let mut apps = Apps::new(info());
    let first = vec![
        sample(301, Some(b"A"), 1, 0, 10_000),
        sample(302, Some(b"A"), 1, 0, 10_000),
        sample(303, Some(b"B"), 1, 0, 10_000),
    ];
    assert_eq!(apps.refresh(Ok(first)), Ok(()));
    let selected = apps.simple()[0].id.clone();
    assert_eq!(selected, Some(b"A".to_vec()));
    assert_eq!(position_of_id(apps.simple(), &selected), Some(0));
    // "B" now comes first and "A" gained a third process.
    let second = vec![
        sample(303, Some(b"B"), 1, 0, 12_000),
        sample(301, Some(b"A"), 1, 0, 12_000),
        sample(302, Some(b"A"), 1, 0, 12_000),
        sample(304, Some(b"A"), 1, 0, 12_000),
    ];
    assert_eq!(apps.refresh(Ok(second)), Ok(()));
    let pos = position_of_id(apps.simple(), &selected).expect("identity A is found again");
    assert_eq!(pos, 1);
    assert_eq!(apps.simple()[pos].processes_amount, 3);
    // A dropped identity is simply not found: nothing dangles.
    assert_eq!(position_of_id(apps.simple(), &Some(b"C".to_vec())), None);
}

/// A failed snapshot leaves the last-known-good summaries published and
/// surfaces the error to the caller.
#[test]
fn failed_refresh_keeps_last_known_good() {
    let mut apps = Apps::new(info());
    let first = vec![sample(401, Some(b"A"), 7, 0, 10_000)];
    assert_eq!(apps.refresh(Ok(first)), Ok(()));
    let before = apps.simple().clone();
    assert_eq!(
        apps.refresh(Err(CollectorError::ChannelFailure)),
        Err(CollectorError::ChannelFailure)
    );
    assert_eq!(apps.simple(), &before);
    assert_eq!(
        apps.refresh(Err(CollectorError::DecodeFailure)),
        Err(CollectorError::DecodeFailure)
    );
    assert_eq!(apps.simple(), &before);
}

/// The record store keeps identity across refreshes: counters move into
/// the mirror wholesale, and pids absent from a snapshot are dropped.
#[test]
fn merge_mirrors_and_drops() {
    let mut apps = Apps::new(info());
    let mut one = sample(501, Some(b"A"), 5, 30, 10_000);
    one.read_bytes = Some(1_000);
    let two = sample(502, None, 5, 0, 10_000);
    assert_eq!(apps.refresh(Ok(vec![one, two])), Ok(()));
    // 501 lives on, 502 exited, 503 is new.
    let mut one_later = sample(501, Some(b"A"), 5, 40, 11_000);
    one_later.read_bytes = Some(3_000);
    let three = sample(503, None, 5, 0, 11_000);
    assert_eq!(apps.refresh(Ok(vec![one_later, three])), Ok(()));
    let records = &apps.store.records;
    assert_eq!(records.len(), 2);
    assert_eq!(records[0].data.pid, 501);
    assert_eq!(records[0].cpu_time_last, 30);
    assert_eq!(records[0].timestamp_last, 10_000);
    assert_eq!(records[0].read_bytes_last, Some(1_000));
    assert_eq!(records[0].read_speed(), Some(2_000));
    assert_eq!(records[1].data.pid, 503);
    assert_eq!(records[1].timestamp_last, 0);
}

/// An application that no record carries resolves to nothing.
#[test]
fn get_app_unknown_identity() {
    let mut apps = Apps::new(info());
    assert_eq!(apps.refresh(Ok(vec![sample(601, Some(b"A"), 1, 0, 10_000)])), Ok(()));
    assert!(apps.get_app(&b"A".to_vec()).is_some());
    assert!(apps.get_app(&b"Z".to_vec()).is_none());
}
