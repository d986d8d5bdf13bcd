use resources_core::process::Process;
use resources_core::sample::ProcessData;

fn with_cmdline(cmdline: &[u8]) -> ProcessData {
    ProcessData {
        pid: 1,
        parent_pid: 0,
        uid: 0,
        commandline: cmdline.to_vec(),
        user_cpu_time: 0,
        system_cpu_time: 0,
        read_bytes: Some(0),
        write_bytes: None,
        memory_usage: 0,
        starttime: 0,
        timestamp: 1_000,
        app_id: None,
        gpu_usage_stats: Vec::new(),
    }
}

/// NUL-delimited command lines: the executable path is the first argument,
/// the name what follows its last slash.
#[test]
fn nul_delimited_cmdline() {
    let p = Process::from_process_data(with_cmdline(b"/usr/bin/foo\0--flag\0value"));
    assert_eq!(p.executable_path, b"/usr/bin/foo".to_vec());
    assert_eq!(p.executable_name, b"foo".to_vec());
}

/// Space-and-double-dash delimited command lines, as some runtimes write
/// them instead of NUL bytes, are cut at the first " --".
#[test]
fn dash_delimited_cmdline() {
    let p = Process::from_process_data(with_cmdline(b"/opt/browser/browser --type=renderer --x"));
    assert_eq!(p.executable_path, b"/opt/browser/browser".to_vec());
    assert_eq!(p.executable_name, b"browser".to_vec());
}

/// A bare name without slashes is its own executable name.
#[test]
fn bare_name_cmdline() {
    let p = Process::from_process_data(with_cmdline(b"bash"));
    assert_eq!(p.executable_path, b"bash".to_vec());
    assert_eq!(p.executable_name, b"bash".to_vec());
}

/// An empty command line (a kernel thread) parses to empty path and name.
#[test]
fn empty_cmdline() {
    let p = Process::from_process_data(with_cmdline(b""));
    assert_eq!(p.executable_path, Vec::<u8>::new());
    assert_eq!(p.executable_name, Vec::<u8>::new());
}

/// A fresh record starts in the sentinel state, with the I/O mirrors
/// present exactly where the kernel supports the counter.
#[test]
fn fresh_record_mirror_state() {
    let p = Process::from_process_data(with_cmdline(b"/bin/x"));
    assert_eq!(p.cpu_time_last, 0);
    assert_eq!(p.timestamp_last, 0);
    assert_eq!(p.read_bytes_last, Some(0));
    assert_eq!(p.write_bytes_last, None);
    assert!(p.gpu_usage_stats_last.is_empty());
}

/// Sanitizing replaces NUL argument boundaries by spaces; an empty
/// command line sanitizes to nothing.
#[test]
fn sanitize_cmdline_cases() {
    assert_eq!(Process::sanitize_cmdline(&Vec::new()), None);
    assert_eq!(
        Process::sanitize_cmdline(&b"/bin/cat\0a\0b".to_vec()),
        Some(b"/bin/cat a b".to_vec())
    );
}
