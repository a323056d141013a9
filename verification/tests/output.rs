//! Summaries, panels and the two ways to run.

use peekbeam::event::{FileEvent, FileEventKind, FILE_PATH_MAX};
use peekbeam::headless::{final_form, mode, next_action, Action, Form, Mode};
use peekbeam::mem_stats::{FaultCounts, MemReport};
use peekbeam::signals::requested;
use peekbeam::stats::{
    ConnectionKey, ConnectionStats, ConnectionTable, FileStats, FileTable, MemEventStats,
    SyscallStats, SyscallTable,
};
use peekbeam::summary::{endpoint, status_name, summarise_syscall, FaultSummary, MemorySummary, Summary};
use peekbeam::syscall_table::{describe, lookup};
use peekbeam::tui::{
    connection_row, draw_files, draw_memory, draw_network, draw_syscalls, file_row, is_due,
    next_session, next_work, report_rows, syscall_row, Done, Key, KeyInput, Pane, Session, SortBy, Tone,
    Work,
};
use std::sync::atomic::{AtomicBool, Ordering};

fn stats(count: u64, total_ns: u64) -> SyscallStats {
    SyscallStats { count, total_ns }
}

fn connection(sport: u16, state: u16, retransmits: u64) -> (ConnectionKey, ConnectionStats) {
    let mut saddr = [0u8; 16];
    saddr[..4].copy_from_slice(&[10, 0, 0, 1]);
    let mut daddr = [0u8; 16];
    daddr[..4].copy_from_slice(&[10, 0, 0, 2]);
    (
        ConnectionKey { family: 2, sport, dport: 443, saddr, daddr },
        ConnectionStats { state, retransmits },
    )
}

fn file(pid: u32, fd: i32, path: &str, read: u64, written: u64, closed: bool) -> ((u32, i32), FileStats) {
    (
        (pid, fd),
        FileStats { path: path.to_string(), bytes_read: read, bytes_written: written, closed },
    )
}

const EVENTS: MemEventStats = MemEventStats { alloc_count: 12, alloc_bytes: 2048, free_count: 9 };

fn by_process() -> MemReport {
    MemReport::Process {
        rss_bytes: 3 * 1024 * 1024,
        anon_bytes: 2048,
        file_bytes: 1024,
        shmem_bytes: 10,
        num_processes: 2,
    }
}

fn by_cgroup() -> MemReport {
    MemReport::Cgroup {
        current_bytes: 5 * 1024 * 1024,
        anon_bytes: 1024,
        file_bytes: 2048,
        active_anon_bytes: 600,
        inactive_anon_bytes: 424,
    }
}

#[test]
fn a_summary_is_written_out() {
    let summary = Summary::of_rows(
        "PID 42",
        61,
        &vec![(u64::MAX, stats(2, 1_234_567)), (syscalls::Sysno::read as u64, stats(3, 9_000_000))],
        &vec![connection(5000, 1, 0), connection(6000, 8, 3)],
        &vec![file(1, 3, "/etc/hosts", 10, 5, false), file(1, -1, "/tmp/x", 100, 0, true)],
        EVENTS,
        Some(by_process()),
        Some(FaultCounts { min_flt: 7, maj_flt: 2 }),
    );
    assert_eq!(
        summary.to_plain_text(),
        "peekbeam summary — PID 42  (uptime 61s)\n\
         \n\
         Syscalls:\n\
         \x20 read                 count=3        total=9000.00us avg=3000.00us  [File I/O]\n\
         \x20 unknown              count=2        total=1234.57us avg=617.28us  [Other]\n\
         \n\
         Connections:\n\
         \x20 10.0.0.1:6000 -> 10.0.0.2:443  state=CLOSE_WAIT  retransmits=3\n\
         \x20 10.0.0.1:5000 -> 10.0.0.2:443  state=ESTABLISHED  retransmits=0\n\
         \n\
         Files:\n\
         \x20 /tmp/x (pid=1,fd=-1)  closed  read=100 written=0\n\
         \x20 /etc/hosts (pid=1,fd=3)  open  read=10 written=5\n\
         \n\
         Kernel allocs: 12 (2.0 KiB)\n\
         Kernel frees: 9\n\
         Memory (proc): 3.0 MiB RSS across 2 process(es)\n\
         Page faults: minor=7 major=2\n"
    );
}

#[test]
fn empty_sections_are_left_out() {
    let summary =
        Summary::of_rows("x", 0, &vec![], &vec![], &vec![], MemEventStats::new(), None, None);
    assert_eq!(
        summary.to_plain_text(),
        "peekbeam summary — x  (uptime 0s)\n\nSyscalls:\n\nKernel allocs: 0 (0 B)\nKernel frees: 0\nMemory: unavailable\n"
    );
}

#[test]
fn cgroup_memory_is_summarised() {
    let summary =
        Summary::of_rows("x", 0, &vec![], &vec![], &vec![], EVENTS, Some(by_cgroup()), None);
    assert!(summary.to_plain_text().contains("\nMemory (cgroup): 5.0 MiB\n"));
    assert!(matches!(
        summary.memory,
        Some(MemorySummary::Cgroup { current_bytes: 5242880, inactive_anon_bytes: 424, .. })
    ));
    assert_eq!(summary.page_faults, None::<FaultSummary>);
}

#[test]
fn summaries_are_built_from_the_tables() {
    let mut table = SyscallTable::new();
    for (nr, time) in [(1u64, 10u64), (2, 30), (3, 20)] {
        for (kind, at) in [(peekbeam::event::EventKind::Enter, 0), (peekbeam::event::EventKind::Exit, time)] {
            table.record(&peekbeam::event::SyscallEvent {
                pid: 9,
                kind,
                _pad: [0; 3],
                syscall_nr: nr,
                timestamp_ns: at,
            });
        }
    }
    let mut files = FileTable::new();
    for (fd, bytes) in [(3, 1u32), (4, 5), (5, 3)] {
        files.record(&FileEvent {
            pid: 9,
            fd,
            bytes,
            path_len: 0,
            kind: FileEventKind::Read,
            path: [0; FILE_PATH_MAX],
        });
    }
    let summary = Summary::build(
        "PID 9",
        5,
        table.stats(),
        &ConnectionTable::new(),
        &files,
        EVENTS,
        None,
        Some(FaultCounts { min_flt: 1, maj_flt: 0 }),
    );
    assert_eq!(summary.syscalls.iter().map(|s| s.total_ns).collect::<Vec<u64>>(), vec![30, 20, 10]);
    assert_eq!(summary.syscalls[0].name, lookup(2).name);
    assert_eq!(summary.files.iter().map(|f| f.fd).collect::<Vec<i32>>(), vec![4, 5, 3]);
    assert!(summary.connections.is_empty());
    assert_eq!((summary.kernel_allocs, summary.kernel_alloc_bytes, summary.kernel_frees), (12, 2048, 9));
    assert_eq!(summary.page_faults, Some(FaultSummary { minor: 1, major: 0 }));
}

#[test]
fn syscalls_are_summarised_with_their_average() {
    let summary = summarise_syscall(describe(Some("futex")), stats(4, 10));
    assert_eq!((summary.name.as_str(), summary.category.as_str()), ("futex", "Synchronization"));
    assert_eq!((summary.count, summary.total_ns, summary.avg_ns), (4, 10, 2));
}

#[test]
fn times_within_one_double_rank_equally() {
    let near = u64::MAX - 1;
    let rows = vec![(1, stats(1, near)), (2, stats(1, u64::MAX)), (3, stats(2, 5))];
    let summary = Summary::of_rows("x", 0, &rows, &vec![], &vec![], EVENTS, None, None);
    assert_eq!(summary.syscalls[0].total_ns, near);
    assert_eq!(summary.syscalls[1].total_ns, u64::MAX);
    assert_eq!(summary.syscalls[2].total_ns, 5);
}

#[test]
fn ends_and_states_of_rows_are_text() {
    let mut addr = [0u8; 16];
    addr[15] = 1;
    assert_eq!(endpoint(10, &addr, 65535), "::1:65535");
    assert_eq!((status_name(true), status_name(false)), ("closed", "open"));
}

fn press(key: Key) -> KeyInput {
    KeyInput { key, pressed: true, control: false }
}

#[test]
fn tab_goes_round_the_panels() {
    let mut session = Session::new();
    assert_eq!(session, Session { pane: Pane::Syscalls, sort_by: SortBy::Time });
    for pane in [Pane::Network, Pane::Memory, Pane::Files, Pane::Syscalls] {
        session = session.on_input(press(Key::Tab)).unwrap();
        assert_eq!(session.pane, pane);
    }
}

#[test]
fn the_order_is_toggled_on_the_syscall_panel_only() {
    let start = Session::new();
    let toggled = start.on_input(press(Key::Char('s'))).unwrap();
    assert_eq!(toggled, Session { pane: Pane::Syscalls, sort_by: SortBy::Count });
    assert_eq!(toggled.on_input(press(Key::Char('s'))), Some(start));
    for pane in [Pane::Network, Pane::Memory, Pane::Files] {
        let session = Session { pane, sort_by: SortBy::Count };
        assert_eq!(session.on_input(press(Key::Char('s'))), Some(session));
    }
}

#[test]
fn some_keys_end_the_session() {
    let session = Session::new();
    assert_eq!(session.on_input(press(Key::Char('q'))), None);
    assert_eq!(session.on_input(press(Key::Esc)), None);
    assert_eq!(session.on_input(KeyInput { key: Key::Char('c'), pressed: true, control: true }), None);
    assert_eq!(session.on_input(press(Key::Char('c'))), Some(session));
    assert_eq!(session.on_input(press(Key::Other)), Some(session));
    assert_eq!(session.on_input(press(Key::Char('Q'))), Some(session));
}

#[test]
fn released_keys_do_nothing() {
    let session = Session::new();
    for key in [Key::Char('q'), Key::Esc, Key::Tab, Key::Char('s'), Key::Char('c'), Key::Other] {
        assert_eq!(session.on_input(KeyInput { key, pressed: false, control: true }), Some(session));
    }
}

#[test]
fn requests_end_the_session_first() {
    let session = Session::new();
    assert_eq!(next_session(session, true, None), None);
    assert_eq!(next_session(session, true, Some(press(Key::Tab))), None);
    assert_eq!(next_session(session, false, None), Some(session));
    assert_eq!(next_session(session, false, Some(press(Key::Esc))), None);
    let next = next_session(session, false, Some(press(Key::Tab))).unwrap();
    assert_eq!(next.pane, Pane::Network);
}

#[test]
fn the_loop_listens_polls_and_draws() {
    let session = Session::new();
    let heard = Done::Listened { requested: false, input: None };
    assert_eq!(next_work(session, heard), (session, Work::Poll));
    let due = Done::Polled { since_draw: 10, refresh: 10 };
    assert_eq!(next_work(session, due), (session, Work::Draw));
    let early = Done::Polled { since_draw: 9, refresh: 10 };
    assert_eq!(next_work(session, early), (session, Work::Listen));
    assert_eq!(next_work(session, Done::Drawn), (session, Work::Listen));
    let asked = Done::Listened { requested: true, input: Some(press(Key::Tab)) };
    assert_eq!(next_work(session, asked), (session, Work::Quit));
    let quit = Done::Listened { requested: false, input: Some(press(Key::Char('q'))) };
    assert_eq!(next_work(session, quit), (session, Work::Quit));
}

#[test]
fn many_keys_lead_to_the_panel_they_count_up_to() {
    let panes = [Pane::Syscalls, Pane::Network, Pane::Memory, Pane::Files];
    let (mut session, mut work) = (Session::new(), Work::Listen);
    let (mut tabs, mut toggles, mut listened, mut polled) = (0, 0, 0, 0);
    let mut seed: u64 = 5;
    for _ in 0..2000 {
        let done = match work {
            Work::Listen => {
                seed = seed.wrapping_mul(6364136223846793005).wrapping_add(1442695040888963407);
                let key = [Key::Tab, Key::Char('s'), Key::Char('x')][(seed >> 40) as usize % 3];
                if key == Key::Char('s') && tabs % 4 == 0 {
                    toggles += 1;
                }
                if key == Key::Tab {
                    tabs += 1;
                }
                listened += 1;
                Done::Listened { requested: false, input: Some(press(key)) }
            }
            Work::Poll => {
                polled += 1;
                Done::Polled { since_draw: (seed >> 33) as u128 % 3, refresh: 1 }
            }
            Work::Draw => Done::Drawn,
            Work::Quit => unreachable!(),
        };
        (session, work) = next_work(session, done);
        assert_eq!(session.pane, panes[tabs % 4]);
        assert_eq!(session.sort_by == SortBy::Time, toggles % 2 == 0);
        assert_eq!(listened, polled + if work == Work::Poll { 1 } else { 0 });
    }
}

#[test]
fn panels_are_drawn_when_due() {
    assert!(is_due(1000, 1000));
    assert!(is_due(1001, 1000));
    assert!(!is_due(999, 1000));
}

#[test]
fn syscalls_are_drawn_by_time_or_count() {
    let rows = vec![(1, stats(5, 100)), (2, stats(1, 900)), (u64::MAX, stats(3, 500))];
    let panel = draw_syscalls("PID 1", 7, SortBy::Time, &rows);
    assert_eq!(panel.title, "peekbeam — Syscalls");
    assert_eq!(
        panel.header,
        "PID 1  |  uptime 7s  |  9 syscalls seen  |  sorted by total time ('s' to toggle, Tab to cycle panels)"
    );
    assert_eq!(panel.columns, vec!["Category", "Syscall", "Count", "Total (us)", "Avg (us)", "What it means"]);
    assert_eq!(panel.footer, "Ctrl+C or 'q' to quit — detaches all probes cleanly");
    let counts: Vec<&str> = panel.rows.iter().map(|r| r.cells[2].as_str()).collect();
    assert_eq!(counts, vec!["1", "3", "5"]);
    let panel = draw_syscalls("PID 1", 7, SortBy::Count, &rows);
    assert!(panel.header.contains("sorted by count ('s'"));
    let counts: Vec<&str> = panel.rows.iter().map(|r| r.cells[2].as_str()).collect();
    assert_eq!(counts, vec!["5", "3", "1"]);
    assert_eq!(panel.rows[1].cells[1], "unknown");
}

#[test]
fn slow_or_frequent_syscalls_stand_out() {
    let info = describe(Some("read"));
    let all = 1_000_000_000;
    let row = syscall_row(info, stats(2, 1_234_567), all);
    assert_eq!(
        row.cells,
        vec!["File I/O", "read", "2", "1234.57", "617.28", "reading from a file descriptor"]
    );
    assert_eq!(row.tone, Tone::Plain);
    assert_eq!(syscall_row(info, stats(1, 10_000_000), all).tone, Tone::Plain);
    assert_eq!(syscall_row(info, stats(1, 10_000_001), all).tone, Tone::Notable);
    assert_eq!(syscall_row(info, stats(10_000, 1), all).tone, Tone::Plain);
    assert_eq!(syscall_row(info, stats(10_001, 1), all).tone, Tone::Notable);
}

#[test]
fn syscalls_that_dominate_stand_out() {
    let info = describe(Some("read"));
    assert_eq!(syscall_row(info, stats(1, 50), 100).tone, Tone::Plain);
    assert_eq!(syscall_row(info, stats(1, 51), 100).tone, Tone::Notable);
    assert_eq!(syscall_row(info, stats(1, 0), 0).tone, Tone::Plain);
    assert_eq!(syscall_row(info, stats(u64::MAX, u64::MAX), u128::MAX).tone, Tone::Notable);
    assert_eq!(syscall_row(info, stats(1, u64::MAX), u128::MAX).tone, Tone::Notable);
    let panel = draw_syscalls("x", 0, SortBy::Time, &vec![(0, stats(1, 9_000_000)), (1, stats(1, 1_000))]);
    let tones: Vec<Tone> = panel.rows.iter().map(|r| r.tone).collect();
    assert_eq!(tones, vec![Tone::Notable, Tone::Plain]);
    let panel = draw_syscalls("x", 0, SortBy::Time, &vec![(0, stats(1, 500)), (1, stats(1, 500))]);
    assert!(panel.rows.iter().all(|r| r.tone == Tone::Plain));
}

#[test]
fn connections_are_drawn_by_retransmits() {
    let rows = vec![connection(1, 1, 0), connection(2, 6, 4), connection(3, 1, 9)];
    let panel = draw_network("pod x", 3, &rows);
    assert_eq!(panel.title, "peekbeam — Network");
    assert_eq!(
        panel.header,
        "pod x  |  uptime 3s  |  3 connections, 2 retransmitting  |  (Tab to cycle panels)"
    );
    assert_eq!(panel.columns, vec!["Local", "Remote", "State", "Retransmits", "What it means"]);
    let tones: Vec<Tone> = panel.rows.iter().map(|r| r.tone).collect();
    assert_eq!(tones, vec![Tone::Notable, Tone::Notable, Tone::Plain]);
    assert_eq!(
        panel.rows[1].cells,
        vec!["10.0.0.1:2", "10.0.0.2:443", "TIME_WAIT", "4", "connection closed, waiting to make sure the peer saw it"]
    );
    assert_eq!(connection_row(&rows[0].0, rows[0].1).cells[0], "10.0.0.1:1");
    assert!(panel.footer.ends_with("(no kernel BTF for a CO-RE socket-stats read)."));
}

#[test]
fn memory_is_drawn_from_the_controller() {
    let faults = Some(FaultCounts { min_flt: 5, maj_flt: 6 });
    let panel = draw_memory("x", 1, &Some(by_cgroup()), &faults, EVENTS);
    assert_eq!(panel.title, "peekbeam — Memory");
    assert_eq!(panel.header, "x  |  uptime 1s  |  (Tab to cycle panels)");
    assert_eq!(panel.columns, vec!["Metric", "Value", "What it means"]);
    assert_eq!(panel.footer, "Source: cgroup memory controller.");
    let shown: Vec<(&str, &str)> =
        panel.rows.iter().map(|r| (r.cells[0].as_str(), r.cells[1].as_str())).collect();
    assert_eq!(
        shown,
        vec![
            ("Total (memory.current)", "5.0 MiB"),
            ("Anonymous", "1.0 KiB"),
            ("File cache", "2.0 KiB"),
            ("Active anon", "600 B"),
            ("Inactive anon", "424 B"),
            ("Kernel allocs", "12 (2.0 KiB)"),
            ("Kernel frees", "9"),
            ("Minor faults", "5"),
            ("Major faults", "6"),
        ]
    );
    let notable: Vec<&str> = panel
        .rows
        .iter()
        .filter(|r| r.tone == Tone::Notable)
        .map(|r| r.cells[0].as_str())
        .collect();
    assert_eq!(notable, vec!["Major faults"]);
}

#[test]
fn no_major_faults_are_nothing_to_look_at() {
    let faults = Some(FaultCounts { min_flt: 5, maj_flt: 0 });
    let panel = draw_memory("x", 1, &None, &faults, EVENTS);
    assert_eq!(panel.rows[3].cells[..2], ["Major faults", "0"]);
    assert!(panel.rows.iter().all(|r| r.tone == Tone::Plain));
}

#[test]
fn memory_is_drawn_from_the_processes() {
    let panel = draw_memory("x", 1, &Some(by_process()), &None, EVENTS);
    let shown: Vec<(&str, &str)> =
        panel.rows.iter().map(|r| (r.cells[0].as_str(), r.cells[1].as_str())).collect();
    assert_eq!(
        shown,
        vec![
            ("RSS (VmRSS)", "3.0 MiB"),
            ("Anonymous", "2.0 KiB"),
            ("File-backed", "1.0 KiB"),
            ("Shared", "10 B"),
            ("Kernel allocs", "12 (2.0 KiB)"),
            ("Kernel frees", "9"),
        ]
    );
    assert_eq!(panel.rows[0].cells[2], "resident memory summed across 2 process(es)");
    assert!(panel.footer.starts_with("Source: /proc/<pid>/status"));
}

#[test]
fn memory_may_be_unavailable() {
    let panel = draw_memory("x", 1, &None, &None, EVENTS);
    assert_eq!(panel.rows.len(), 2);
    assert_eq!(
        panel.footer,
        "unavailable: no live processes found for this target (may have exited)"
    );
    assert!(report_rows(&None).0.is_empty());
}

#[test]
fn files_are_drawn_by_volume() {
    let long = "/var/lib/containers/storage/overlay/0123456789abcdef/merged/usr/share/data.bin";
    let rows = vec![
        file(1, 3, "/a", 1, 2, false),
        file(2, -1, long, 2048, 0, true),
        file(3, 4, "/c", u64::MAX, u64::MAX, false),
    ];
    let panel = draw_files("x", 9, &rows);
    assert_eq!(panel.title, "peekbeam — Files");
    assert_eq!(panel.header, "x  |  uptime 9s  |  2 open, 3 total  |  (Tab to cycle panels)");
    assert_eq!(panel.columns, vec!["Path", "pid:fd", "Status", "Read", "Written"]);
    assert_eq!(panel.rows[0].cells[1], "3:4");
    assert_eq!(panel.rows[1].cells[1..], ["2:-1", "closed", "2.0 KiB", "0 B"]);
    assert_eq!(panel.rows[1].cells[0].chars().count(), 50);
    assert!(panel.rows[1].cells[0].ends_with("data.bin"));
    assert_eq!(panel.rows[1].tone, Tone::Plain);
    assert_eq!(panel.rows[2].tone, Tone::Open);
    assert_eq!(file_row((1, 3), &rows[0].1).cells, vec!["/a", "1:3", "open", "1 B", "2 B"]);
}

#[test]
fn the_mode_follows_from_the_arguments() {
    assert_eq!(mode(false, None), Mode::Terminal);
    assert_eq!(mode(true, None), Mode::Headless);
    assert_eq!(mode(false, Some(0)), Mode::Headless);
    assert_eq!(mode(true, Some(5)), Mode::Headless);
}

#[test]
fn the_last_summary_has_its_form() {
    assert_eq!(final_form(false, true), Form::Plain);
    assert_eq!(final_form(false, false), Form::Plain);
    assert_eq!(final_form(true, true), Form::Pretty);
    assert_eq!(final_form(true, false), Form::Line);
}

#[test]
fn windows_end_by_the_clock() {
    assert_eq!(next_action(false, 99, Some(100), 1_000_000, 1), Action::Wait);
    assert_eq!(next_action(false, 100, Some(100), 0, 1), Action::Finish);
}

#[test]
fn streams_emit_every_interval() {
    assert_eq!(next_action(false, 1_000_000, None, 9, 10), Action::Wait);
    assert_eq!(next_action(false, 1_000_000, None, 10, 10), Action::Emit);
}

#[test]
fn requests_to_end_come_first() {
    assert_eq!(next_action(true, 0, None, 0, 10), Action::Finish);
    assert_eq!(next_action(true, 0, Some(100), 0, 10), Action::Finish);
}

#[test]
fn the_flag_is_read() {
    let flag = AtomicBool::new(false);
    assert!(!requested(&flag));
    flag.store(true, Ordering::Relaxed);
    assert!(requested(&flag));
}
