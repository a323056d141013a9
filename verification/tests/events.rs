//! Records, probes and what is kept of the events.

use peekbeam::event::{
    decode_file, decode_mem, decode_net, decode_syscall, encode_file, encode_mem, encode_net,
    encode_syscall, EventKind, FileEvent, FileEventKind, MemEvent, MemEventKind, NetEvent,
    NetEventKind, SyscallEvent, AF_INET6, FILE_EVENT_SIZE, FILE_PATH_MAX, MEM_EVENT_SIZE,
    NET_EVENT_SIZE, SYSCALL_EVENT_SIZE, TCP_CLOSE,
};
use peekbeam::probe::{
    forgets, matches_target, retransmit_layout, socket_of, state_layout, try_emit,
    try_net_retransmit, try_net_state, PROBE_FAILED,
};
use peekbeam::stats::{
    key_of, syscall_rows, unknown_file, ConnectionStats, ConnectionTable, FileTable, Ingest,
    MemEventStats, SyscallStats, SyscallTable,
};
use peekbeam::wire::ByteOrder;

fn syscall(pid: u32, kind: EventKind, nr: u64, at: u64) -> SyscallEvent {
    SyscallEvent { pid, kind, _pad: [0; 3], syscall_nr: nr, timestamp_ns: at }
}

fn net(kind: NetEventKind, state: u16, sport: u16) -> NetEvent {
    let mut saddr = [0u8; 16];
    saddr[..4].copy_from_slice(&[10, 0, 0, 1]);
    let mut daddr = [0u8; 16];
    daddr[..4].copy_from_slice(&[10, 0, 0, 2]);
    NetEvent { kind, family: 2, state, sport, dport: 443, saddr, daddr, timestamp_ns: 5 }
}

fn file(kind: FileEventKind, pid: u32, fd: i32, bytes: u32, name: &str) -> FileEvent {
    let mut path = [0u8; FILE_PATH_MAX];
    path[..name.len()].copy_from_slice(name.as_bytes());
    FileEvent { pid, fd, bytes, path_len: name.len() as u16, kind, path }
}

#[test]
fn syscall_records_are_laid_out_in_the_given_order() {
    let event = syscall(0x01020304, EventKind::Exit, 0x1112131415161718, 7);
    let little = encode_syscall(&event, ByteOrder::Little);
    assert_eq!(little.len(), SYSCALL_EVENT_SIZE);
    assert_eq!(&little[..8], &[4, 3, 2, 1, 1, 0, 0, 0]);
    assert_eq!(&little[8..16], &[0x18, 0x17, 0x16, 0x15, 0x14, 0x13, 0x12, 0x11]);
    let big = encode_syscall(&event, ByteOrder::Big);
    assert_eq!(&big[..8], &[1, 2, 3, 4, 1, 0, 0, 0]);
    assert_eq!(&big[16..], &[0, 0, 0, 0, 0, 0, 0, 7]);
}

#[test]
fn syscall_records_are_read_back() {
    for order in [ByteOrder::Little, ByteOrder::Big] {
        for kind in [EventKind::Enter, EventKind::Exit] {
            let event = syscall(77, kind, 257, u64::MAX - 1);
            let back = decode_syscall(&encode_syscall(&event, order), order).unwrap();
            assert_eq!(format!("{back:?}"), format!("{event:?}"));
        }
    }
}

#[test]
fn network_records_are_read_back() {
    for order in [ByteOrder::Little, ByteOrder::Big] {
        for kind in [NetEventKind::StateChange, NetEventKind::Retransmit] {
            let event = net(kind, 0x1234, 0xabcd);
            let record = encode_net(&event, order);
            assert_eq!(record.len(), NET_EVENT_SIZE);
            let back = decode_net(&record, order).unwrap();
            assert_eq!(format!("{back:?}"), format!("{event:?}"));
        }
    }
}

#[test]
fn file_records_are_read_back() {
    let kinds =
        [FileEventKind::Open, FileEventKind::Close, FileEventKind::Read, FileEventKind::Write];
    for order in [ByteOrder::Little, ByteOrder::Big] {
        for kind in kinds {
            for fd in [0, 3, -1, i32::MIN, i32::MAX] {
                let event = file(kind, 9, fd, 4096, "/etc/hosts");
                let record = encode_file(&event, order);
                assert_eq!(record.len(), FILE_EVENT_SIZE);
                let back = decode_file(&record, order).unwrap();
                assert_eq!(format!("{back:?}"), format!("{event:?}"));
            }
        }
    }
}

#[test]
fn memory_records_are_read_back() {
    for order in [ByteOrder::Little, ByteOrder::Big] {
        for kind in [MemEventKind::Alloc, MemEventKind::Free] {
            let event = MemEvent { kind, bytes: 0x0102030405060708 };
            let record = encode_mem(&event, order);
            assert_eq!(record.len(), MEM_EVENT_SIZE);
            let back = decode_mem(&record, order).unwrap();
            assert_eq!(format!("{back:?}"), format!("{event:?}"));
        }
    }
}

#[test]
fn records_of_the_wrong_size_or_kind_hold_nothing() {
    let order = ByteOrder::Little;
    let mut record = encode_syscall(&syscall(1, EventKind::Enter, 0, 0), order);
    assert!(decode_syscall(&record[..23], order).is_none());
    assert!(decode_syscall(&[], order).is_none());
    record[4] = 2;
    assert!(decode_syscall(&record, order).is_none());
    let mut record = encode_net(&net(NetEventKind::StateChange, 1, 1), order);
    assert!(decode_net(&record[..55], order).is_none());
    record[0] = 9;
    assert!(decode_net(&record, order).is_none());
    let mut record = encode_file(&file(FileEventKind::Write, 1, 1, 1, "x"), order);
    record[14] = 4;
    assert!(decode_file(&record, order).is_none());
    let mut record = encode_mem(&MemEvent { kind: MemEventKind::Free, bytes: 1 }, order);
    record.push(0);
    assert!(decode_mem(&record, order).is_none());
}

#[test]
fn the_target_is_matched_by_process_or_cgroup() {
    assert!(matches_target(true, false));
    assert!(matches_target(false, true));
    assert!(!matches_target(false, false));
}

#[test]
fn syscall_probes_emit_for_the_target_only() {
    let mut record = vec![0u8; 16];
    record[8..16].copy_from_slice(&257u64.to_le_bytes());
    let order = ByteOrder::Little;
    assert!(matches!(try_emit(&record, EventKind::Enter, 5, false, 99, order), Ok(None)));
    let event = try_emit(&record, EventKind::Enter, 5, true, 99, order).unwrap().unwrap();
    assert_eq!((event.pid, event.kind, event.syscall_nr, event.timestamp_ns), (5, EventKind::Enter, 257, 99));
    assert!(matches!(try_emit(&record[..15], EventKind::Exit, 5, true, 99, order), Err(PROBE_FAILED)));
    assert!(matches!(try_emit(&record[..15], EventKind::Exit, 5, false, 99, order), Ok(None)));
    record[8..16].copy_from_slice(&(-1i64).to_le_bytes());
    let event = try_emit(&record, EventKind::Exit, 5, true, 99, order).unwrap().unwrap();
    assert_eq!(event.syscall_nr, u64::MAX);
}

fn state_record(socket: u64, state: i32, family: u16) -> Vec<u8> {
    let mut record = vec![0u8; 72];
    record[8..16].copy_from_slice(&socket.to_le_bytes());
    record[20..24].copy_from_slice(&state.to_le_bytes());
    record[24..26].copy_from_slice(&8080u16.to_le_bytes());
    record[26..28].copy_from_slice(&443u16.to_le_bytes());
    record[28..30].copy_from_slice(&family.to_le_bytes());
    record[32..36].copy_from_slice(&[10, 0, 0, 1]);
    record[36..40].copy_from_slice(&[10, 0, 0, 2]);
    for i in 0..16 {
        record[40 + i] = i as u8;
        record[56 + i] = 100 + i as u8;
    }
    record
}

#[test]
fn state_changes_are_read_from_their_record() {
    let order = ByteOrder::Little;
    let record = state_record(0xffff_8880_0000_1000, 1, 2);
    assert_eq!(socket_of(&record, state_layout(), order), Ok(0xffff_8880_0000_1000));
    let decision = try_net_state(&record, false, true, 42, order);
    assert!(decision.track);
    let event = decision.event.unwrap().unwrap();
    assert_eq!(event.kind, NetEventKind::StateChange);
    assert_eq!((event.state, event.sport, event.dport, event.family), (1, 8080, 443, 2));
    assert_eq!(&event.saddr[..4], &[10, 0, 0, 1]);
    assert_eq!(&event.saddr[4..], &[0; 12]);
    assert_eq!(&event.daddr[..4], &[10, 0, 0, 2]);
    assert_eq!(event.timestamp_ns, 42);
    assert!(!forgets(&event));

    let event = try_net_state(&state_record(1, 7, AF_INET6), true, false, 42, order).event.unwrap().unwrap();
    assert_eq!(event.saddr[15], 15);
    assert_eq!(event.daddr[0], 100);
    assert_eq!(event.state, TCP_CLOSE);
    assert!(forgets(&event));
}

#[test]
fn sockets_of_others_are_left_alone() {
    let record = state_record(1, 1, 2);
    let decision = try_net_state(&record, false, false, 42, ByteOrder::Little);
    assert!(!decision.track);
    assert!(matches!(decision.event, Ok(None)));
}

#[test]
fn known_sockets_are_followed_from_any_context() {
    let record = state_record(1, 8, 2);
    let decision = try_net_state(&record, true, false, 42, ByteOrder::Little);
    assert!(!decision.track);
    assert_eq!(decision.event.unwrap().unwrap().state, 8);
}

#[test]
fn short_state_records_fail_but_may_make_a_socket_known() {
    let order = ByteOrder::Little;
    let record = state_record(1, 1, 2);
    let decision = try_net_state(&record[..15], false, true, 42, order);
    assert!(!decision.track);
    assert!(matches!(decision.event, Err(PROBE_FAILED)));
    let decision = try_net_state(&record[..39], false, true, 42, order);
    assert!(decision.track);
    assert!(matches!(decision.event, Err(PROBE_FAILED)));
    let record = state_record(1, 1, AF_INET6);
    assert!(matches!(try_net_state(&record[..71], true, true, 42, order).event, Err(PROBE_FAILED)));
    assert!(matches!(try_net_state(&record[..72], true, true, 42, order).event, Ok(Some(_))));
}

#[test]
fn retransmits_count_for_known_sockets_only() {
    let order = ByteOrder::Little;
    let mut record = vec![0u8; 74];
    record[16..24].copy_from_slice(&77u64.to_le_bytes());
    record[24..28].copy_from_slice(&0x10001i32.to_le_bytes());
    record[28..30].copy_from_slice(&1u16.to_le_bytes());
    record[30..32].copy_from_slice(&2u16.to_le_bytes());
    record[32..34].copy_from_slice(&2u16.to_le_bytes());
    record[34..38].copy_from_slice(&[1, 2, 3, 4]);
    record[38..42].copy_from_slice(&[5, 6, 7, 8]);
    assert_eq!(socket_of(&record, retransmit_layout(), order), Ok(77));
    assert_eq!(socket_of(&record[..23], retransmit_layout(), order), Err(PROBE_FAILED));
    assert!(matches!(try_net_retransmit(&record, false, 9, order), Ok(None)));
    let event = try_net_retransmit(&record, true, 9, order).unwrap().unwrap();
    assert_eq!(event.kind, NetEventKind::Retransmit);
    assert_eq!((event.state, event.sport, event.dport), (1, 1, 2));
    assert_eq!(&event.saddr[..5], &[1, 2, 3, 4, 0]);
    assert_eq!(&event.daddr[..5], &[5, 6, 7, 8, 0]);
    assert!(matches!(try_net_retransmit(&record[..41], true, 9, order), Err(PROBE_FAILED)));
    assert!(matches!(try_net_retransmit(&record[..23], false, 9, order), Err(PROBE_FAILED)));
}

#[test]
fn the_average_is_the_shared_total() {
    assert_eq!(SyscallStats { count: 0, total_ns: 5 }.avg_ns(), 0);
    assert_eq!(SyscallStats { count: 3, total_ns: 100 }.avg_ns(), 33);
}

#[test]
fn finished_calls_are_counted_with_their_time() {
    let mut table = SyscallTable::new();
    table.record(&syscall(1, EventKind::Enter, 0, 100));
    assert!(table.stats().is_empty());
    table.record(&syscall(1, EventKind::Exit, 0, 350));
    table.record(&syscall(1, EventKind::Enter, 0, 400));
    table.record(&syscall(1, EventKind::Exit, 0, 450));
    assert_eq!(table.stats()[&0], SyscallStats { count: 2, total_ns: 300 });
    assert_eq!(syscall_rows(table.stats()), vec![(0, SyscallStats { count: 2, total_ns: 300 })]);
}

#[test]
fn exits_without_an_entry_are_passed_over() {
    let mut table = SyscallTable::new();
    table.record(&syscall(1, EventKind::Exit, 0, 350));
    assert!(table.stats().is_empty());
    table.record(&syscall(1, EventKind::Enter, 0, 1));
    table.record(&syscall(2, EventKind::Exit, 0, 2));
    table.record(&syscall(1, EventKind::Exit, 1, 3));
    assert!(table.stats().is_empty());
}

#[test]
fn calls_of_different_processes_are_kept_apart() {
    let mut table = SyscallTable::new();
    table.record(&syscall(1, EventKind::Enter, 5, 100));
    table.record(&syscall(2, EventKind::Enter, 5, 200));
    table.record(&syscall(1, EventKind::Exit, 5, 1100));
    table.record(&syscall(2, EventKind::Exit, 5, 210));
    assert_eq!(table.stats()[&5], SyscallStats { count: 2, total_ns: 1010 });
}

#[test]
fn a_clock_that_goes_back_takes_no_time() {
    let mut table = SyscallTable::new();
    table.record(&syscall(1, EventKind::Enter, 5, 100));
    table.record(&syscall(1, EventKind::Exit, 5, 50));
    assert_eq!(table.stats()[&5], SyscallStats { count: 1, total_ns: 0 });
}

#[test]
fn events_of_different_calls_can_be_swapped() {
    let a = syscall(1, EventKind::Exit, 3, 30);
    let b = syscall(2, EventKind::Exit, 4, 40);
    let mut one = SyscallTable::new();
    let mut two = SyscallTable::new();
    for table in [&mut one, &mut two] {
        table.record(&syscall(1, EventKind::Enter, 3, 10));
        table.record(&syscall(2, EventKind::Enter, 4, 10));
    }
    one.record(&a);
    one.record(&b);
    two.record(&b);
    two.record(&a);
    assert_eq!(one.stats(), two.stats());
}

#[test]
fn malformed_records_are_dropped() {
    let order = ByteOrder::Little;
    let mut table = SyscallTable::new();
    assert_eq!(table.ingest(&[1, 2, 3], order), Ingest::Dropped);
    let mut connections = ConnectionTable::new();
    assert_eq!(connections.ingest(&[0; 55], order), Ingest::Dropped);
    let mut files = FileTable::new();
    assert_eq!(files.ingest(&[9; FILE_EVENT_SIZE], order), Ingest::Dropped);
    let mut memory = MemEventStats::new();
    assert_eq!(memory.ingest(&[7; MEM_EVENT_SIZE], order), Ingest::Dropped);
    assert!(table.stats().is_empty() && connections.rows().is_empty() && files.rows().is_empty());
}

#[test]
fn records_are_folded_in() {
    let order = ByteOrder::Little;
    let mut table = SyscallTable::new();
    let enter = encode_syscall(&syscall(1, EventKind::Enter, 5, 100), order);
    let exit = encode_syscall(&syscall(1, EventKind::Exit, 5, 130), order);
    assert_eq!(table.ingest(&enter, order), Ingest::Recorded);
    assert_eq!(table.ingest(&exit, order), Ingest::Recorded);
    assert_eq!(table.stats()[&5], SyscallStats { count: 1, total_ns: 30 });
}

#[test]
fn times_that_do_not_fit_are_not_folded_in() {
    let mut table = SyscallTable::new();
    table.record(&syscall(1, EventKind::Enter, 5, 0));
    table.record(&syscall(1, EventKind::Exit, 5, u64::MAX));
    let enter = syscall(1, EventKind::Enter, 5, 0);
    assert!(table.fits(&enter));
    table.record(&enter);
    let exit = syscall(1, EventKind::Exit, 5, 1);
    assert!(!table.fits(&exit));
    let order = ByteOrder::Big;
    assert_eq!(table.ingest(&encode_syscall(&exit, order), order), Ingest::Overflow);
    assert_eq!(table.stats()[&5], SyscallStats { count: 1, total_ns: u64::MAX });
}

#[test]
fn connections_are_followed_through_their_states() {
    let mut table = ConnectionTable::new();
    let open = net(NetEventKind::StateChange, 1, 1000);
    assert!(table.fits(&open));
    table.record(&open);
    table.record(&net(NetEventKind::StateChange, 1, 2000));
    table.record(&net(NetEventKind::StateChange, 8, 1000));
    assert_eq!(
        table.rows(),
        &vec![
            (key_of(&net(NetEventKind::StateChange, 0, 1000)), ConnectionStats { state: 8, retransmits: 0 }),
            (key_of(&net(NetEventKind::StateChange, 0, 2000)), ConnectionStats { state: 1, retransmits: 0 }),
        ]
    );
}

#[test]
fn retransmits_are_counted_per_connection() {
    let mut table = ConnectionTable::new();
    table.record(&net(NetEventKind::Retransmit, 1, 1000));
    table.record(&net(NetEventKind::StateChange, 4, 1000));
    table.record(&net(NetEventKind::Retransmit, 4, 1000));
    table.record(&net(NetEventKind::StateChange, 1, 2000));
    assert_eq!(table.rows().len(), 2);
    assert_eq!(table.rows()[0].1, ConnectionStats { state: 4, retransmits: 2 });
    assert_eq!(table.rows()[1].1, ConnectionStats { state: 1, retransmits: 0 });
}

#[test]
fn closed_connections_disappear() {
    let order = ByteOrder::Little;
    let mut table = ConnectionTable::new();
    for sport in [1, 2, 3] {
        table.record(&net(NetEventKind::Retransmit, 1, sport));
    }
    let close = net(NetEventKind::StateChange, TCP_CLOSE, 2);
    assert_eq!(table.ingest(&encode_net(&close, order), order), Ingest::Recorded);
    let mut left: Vec<u16> = table.rows().iter().map(|r| r.0.sport).collect();
    left.sort();
    assert_eq!(left, vec![1, 3]);
    table.record(&close);
    assert_eq!(table.rows().len(), 2);
    table.record(&net(NetEventKind::StateChange, 1, 2));
    assert_eq!(table.rows().iter().find(|r| r.0.sport == 2).unwrap().1.retransmits, 0);
}

#[test]
fn opened_files_count_their_bytes() {
    let mut table = FileTable::new();
    table.record(&file(FileEventKind::Open, 1, 3, 0, "/etc/hosts"));
    table.record(&file(FileEventKind::Read, 1, 3, 100, ""));
    table.record(&file(FileEventKind::Read, 1, 3, 50, ""));
    table.record(&file(FileEventKind::Write, 1, 3, 7, ""));
    let rows = table.rows();
    assert_eq!(rows.len(), 1);
    assert_eq!(rows[0].0, (1, 3));
    assert_eq!(rows[0].1.path, "/etc/hosts");
    assert_eq!((rows[0].1.bytes_read, rows[0].1.bytes_written, rows[0].1.closed), (150, 7, false));
}

#[test]
fn closed_files_keep_their_bytes_until_reopened() {
    let mut table = FileTable::new();
    table.record(&file(FileEventKind::Open, 1, 3, 0, "/a"));
    table.record(&file(FileEventKind::Write, 1, 3, 7, ""));
    table.record(&file(FileEventKind::Close, 1, 3, 0, ""));
    let rows = table.rows();
    assert_eq!((rows[0].1.bytes_written, rows[0].1.closed), (7, true));
    table.record(&file(FileEventKind::Open, 1, 3, 0, "/b"));
    let rows = table.rows();
    assert_eq!((rows[0].1.path.as_str(), rows[0].1.bytes_written, rows[0].1.closed), ("/b", 0, false));
}

#[test]
fn files_opened_before_the_trace_are_unknown() {
    let mut table = FileTable::new();
    table.record(&file(FileEventKind::Close, 1, 4, 0, ""));
    assert!(table.rows().is_empty());
    table.record(&file(FileEventKind::Read, 1, -1, 12, ""));
    let rows = table.rows();
    assert_eq!(rows[0].0, (1, -1));
    assert_eq!(rows[0].1.path, "<unknown, opened before trace started>");
    assert_eq!(rows[0].1.bytes_read, 12);
    assert_eq!(unknown_file().path, rows[0].1.path);
}

#[test]
fn descriptors_of_different_processes_are_kept_apart() {
    let order = ByteOrder::Big;
    let mut table = FileTable::new();
    for (pid, fd) in [(1, 3), (2, 3), (1, -3)] {
        let record = encode_file(&file(FileEventKind::Open, pid, fd, 0, "/x"), order);
        assert_eq!(table.ingest(&record, order), Ingest::Recorded);
    }
    table.record(&file(FileEventKind::Read, 2, 3, 9, ""));
    let mut rows: Vec<((u32, i32), u64)> = table.rows().iter().map(|r| (r.0, r.1.bytes_read)).collect();
    rows.sort();
    assert_eq!(rows, vec![((1, -3), 0), ((1, 3), 0), ((2, 3), 9)]);
}

#[test]
fn kernel_allocations_are_added_up() {
    let order = ByteOrder::Little;
    let mut stats = MemEventStats::new();
    stats.record(&MemEvent { kind: MemEventKind::Alloc, bytes: 100 });
    stats.record(&MemEvent { kind: MemEventKind::Alloc, bytes: 28 });
    stats.record(&MemEvent { kind: MemEventKind::Free, bytes: 1000 });
    assert_eq!((stats.alloc_count, stats.alloc_bytes, stats.free_count), (2, 128, 1));
    let huge = MemEvent { kind: MemEventKind::Alloc, bytes: u64::MAX };
    assert!(!stats.fits(&huge));
    assert_eq!(stats.ingest(&encode_mem(&huge, order), order), Ingest::Overflow);
    assert_eq!((stats.alloc_count, stats.alloc_bytes, stats.free_count), (2, 128, 1));
}

fn noise(seed: &mut u64) -> u64 {
    *seed = seed.wrapping_mul(6364136223846793005).wrapping_add(1442695040888963407);
    *seed >> 33
}

#[test]
fn the_syscall_table_tells_the_history() {
    let mut seed = 7;
    let mut table = SyscallTable::new();
    let mut events: Vec<SyscallEvent> = Vec::new();
    for t in 0..500u64 {
        let kind = if noise(&mut seed) % 2 == 0 { EventKind::Enter } else { EventKind::Exit };
        let event = syscall((noise(&mut seed) % 3) as u32, kind, noise(&mut seed) % 4, t * t);
        table.record(&event);
        events.push(event);
    }
    for nr in 0..4u64 {
        let mut expected = SyscallStats { count: 0, total_ns: 0 };
        for (i, exit) in events.iter().enumerate() {
            if exit.kind != EventKind::Exit || exit.syscall_nr != nr {
                continue;
            }
            let latest =
                events[..i].iter().rev().find(|e| e.pid == exit.pid && e.syscall_nr == nr);
            if let Some(enter) = latest {
                if enter.kind == EventKind::Enter {
                    expected.count += 1;
                    expected.total_ns += exit.timestamp_ns - enter.timestamp_ns;
                }
            }
        }
        assert_eq!(table.stats().get(&nr), Some(&expected));
    }
}

#[test]
fn the_connection_table_tells_the_history() {
    let mut seed = 11;
    let mut table = ConnectionTable::new();
    let mut events: Vec<NetEvent> = Vec::new();
    for _ in 0..400 {
        let kind = if noise(&mut seed) % 3 == 0 { NetEventKind::Retransmit } else { NetEventKind::StateChange };
        let event = net(kind, (noise(&mut seed) % 9) as u16, (noise(&mut seed) % 5) as u16);
        table.record(&event);
        events.push(event);
    }
    for sport in 0..5u16 {
        let own: Vec<&NetEvent> = events.iter().filter(|e| e.sport == sport).collect();
        let closing = |e: &&&NetEvent| e.kind == NetEventKind::StateChange && e.state == TCP_CLOSE;
        let since: Vec<&&NetEvent> = own.iter().rev().take_while(|e| !closing(e)).collect();
        let row = table.rows().iter().find(|r| r.0.sport == sport);
        if since.is_empty() {
            assert!(row.is_none());
        } else {
            let count = since.iter().filter(|e| e.kind == NetEventKind::Retransmit).count() as u64;
            assert_eq!(row.unwrap().1, ConnectionStats { state: since[0].state, retransmits: count });
        }
    }
}

#[test]
fn the_file_table_tells_the_history() {
    let mut seed = 13;
    let mut table = FileTable::new();
    let mut read = [0u64; 4];
    let mut path = ["<unknown, opened before trace started>"; 4];
    for _ in 0..300 {
        let fd = (noise(&mut seed) % 4) as usize;
        let bytes = (noise(&mut seed) % 1000) as u32;
        match noise(&mut seed) % 8 {
            0 => {
                let name = ["/a", "/b", "/c"][(noise(&mut seed) % 3) as usize];
                table.record(&file(FileEventKind::Open, 1, fd as i32, 0, name));
                read[fd] = 0;
                path[fd] = name;
            }
            1 => table.record(&file(FileEventKind::Close, 1, fd as i32, 0, "")),
            _ => {
                table.record(&file(FileEventKind::Read, 1, fd as i32, bytes, ""));
                read[fd] += bytes as u64;
            }
        }
    }
    for (key, stats) in table.rows() {
        assert_eq!(stats.bytes_read, read[key.1 as usize]);
        assert_eq!(stats.path, path[key.1 as usize]);
    }
}
