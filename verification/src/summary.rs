//! A point-in-time snapshot of everything seen, and its plain-text rendering
//! for a human reading it afterwards.

use crate::mem_stats::{push_bytes_text, size_text, FaultCounts, MemReport};
use crate::net_table::{address_text, name_of_state, push_addr, state_name};
use crate::order::{
    leads_to, rank, ranked, ranked_rows_descend, ranking, ranking_exists, ranking_keeps_the_rows,
};
use crate::round::{
    double_of, longer_times_weigh_more, micros, micros_double, push_micros, thousandth_of, weights_fit,
};
use crate::stats::{
    average, average_shares_the_total, file_rows, lists, syscall_rows, ConnectionKey, ConnectionStats, ConnectionTable,
    FileStats, FileTable, FileView, MemEventStats, SyscallStats,
};
use crate::syscall_table::{
    classification, lookup, shown_name, sysno_name, table_index, SyscallInfo,
};
use crate::text::{
    decimal, decimal_text, padded, push_decimal, push_padded, push_signed_decimal, signed_decimal,
};
use std::collections::HashMap;
use vstd::prelude::*;
use vstd::string::*;

verus! {

/// Everything seen of a target so far.
#[derive(Debug)]
pub struct Summary {
    pub target: String,
    pub uptime_secs: u64,
    pub syscalls: Vec<SyscallSummary>,
    pub connections: Vec<ConnectionSummary>,
    pub files: Vec<FileSummary>,
    pub kernel_allocs: u64,
    pub kernel_alloc_bytes: u64,
    pub kernel_frees: u64,
    pub memory: Option<MemorySummary>,
    pub page_faults: Option<FaultSummary>,
}

/// One syscall; its times are in nanoseconds, to be shown in microseconds.
#[derive(Debug)]
pub struct SyscallSummary {
    pub name: String,
    pub category: String,
    pub count: u64,
    pub total_ns: u64,
    pub avg_ns: u64,
}

/// One connection.
#[derive(Debug)]
pub struct ConnectionSummary {
    pub local: String,
    pub remote: String,
    pub state: String,
    pub retransmits: u64,
}

/// One file descriptor.
#[derive(Debug)]
pub struct FileSummary {
    pub path: String,
    pub pid: u32,
    pub fd: i32,
    pub status: &'static str,
    pub bytes_read: u64,
    pub bytes_written: u64,
}

/// The target's memory, by where the figures come from.
#[derive(Clone, Copy, Debug)]
pub enum MemorySummary {
    Cgroup {
        current_bytes: u64,
        anon_bytes: u64,
        file_bytes: u64,
        active_anon_bytes: u64,
        inactive_anon_bytes: u64,
    },
    Proc {
        rss_bytes: u64,
        anon_bytes: u64,
        file_bytes: u64,
        shmem_bytes: u64,
        num_processes: usize,
    },
}

/// The target's page faults.
#[derive(Clone, Copy, Debug, PartialEq, Eq, Structural)]
pub struct FaultSummary {
    pub minor: u64,
    pub major: u64,
}

/// By what syscalls are ranked: the time spent in them, as the double of its
/// microseconds.
pub open spec fn time_key(row: (u64, SyscallStats)) -> u128 {
    thousandth_of(double_of(row.1.total_ns as nat)) as u128
}

/// By what connections are ranked: their retransmits.
pub open spec fn retransmit_key(row: (ConnectionKey, ConnectionStats)) -> u128 {
    row.1.retransmits as u128
}

/// By what files are ranked: the bytes moved.
pub open spec fn volume_key(row: ((u32, i32), FileView)) -> u128 {
    (row.1.bytes_read + row.1.bytes_written) as u128
}

/// `s` summarises a syscall.
pub open spec fn is_syscall_summary(s: SyscallSummary, row: (u64, SyscallStats)) -> bool {
    let shown = shown_name(sysno_name(table_index(row.0)));
    &&& s.name@ == shown
    &&& s.category@ == classification(shown).0
    &&& s.count == row.1.count
    &&& s.total_ns == row.1.total_ns
    &&& s.avg_ns == average(row.1)
}

/// An end of a connection as text: its address and port.
pub open spec fn endpoint_text(family: u16, addr: Seq<u8>, port: u16) -> Seq<char> {
    address_text(family, addr) + ":"@ + decimal(port as nat)
}

/// `s` summarises a connection.
pub open spec fn is_connection_summary(
    s: ConnectionSummary,
    row: (ConnectionKey, ConnectionStats),
) -> bool {
    &&& s.local@ == endpoint_text(row.0.family, row.0.saddr@, row.0.sport)
    &&& s.remote@ == endpoint_text(row.0.family, row.0.daddr@, row.0.dport)
    &&& s.state@ == name_of_state(row.1.state)
    &&& s.retransmits == row.1.retransmits
}

/// Whether a descriptor is open.
pub open spec fn status_text(closed: bool) -> Seq<char> {
    if closed {
        "closed"@
    } else {
        "open"@
    }
}

/// `s` summarises a file descriptor.
pub open spec fn is_file_summary(s: FileSummary, row: ((u32, i32), FileView)) -> bool {
    &&& s.path@ == row.1.path
    &&& s.pid == row.0.0
    &&& s.fd == row.0.1
    &&& s.status@ == status_text(row.1.closed)
    &&& s.bytes_read == row.1.bytes_read
    &&& s.bytes_written == row.1.bytes_written
}

/// The memory of a summary is the memory reported.
pub open spec fn memory_of(report: Option<MemReport>) -> Option<MemorySummary> {
    match report {
        None => None,
        Some(
            MemReport::Cgroup {
                current_bytes,
                anon_bytes,
                file_bytes,
                active_anon_bytes,
                inactive_anon_bytes,
            },
        ) => Some(
            MemorySummary::Cgroup {
                current_bytes,
                anon_bytes,
                file_bytes,
                active_anon_bytes,
                inactive_anon_bytes,
            },
        ),
        Some(
            MemReport::Process { rss_bytes, anon_bytes, file_bytes, shmem_bytes, num_processes },
        ) => Some(
            MemorySummary::Proc { rss_bytes, anon_bytes, file_bytes, shmem_bytes, num_processes },
        ),
    }
}

/// The faults of a summary are the faults counted.
pub open spec fn faults_of(faults: Option<FaultCounts>) -> Option<FaultSummary> {
    match faults {
        None => None,
        Some(f) => Some(FaultSummary { minor: f.min_flt, major: f.maj_flt }),
    }
}

/// The lists of a summary show the given rows, ranked.
pub open spec fn shows_rows(
    s: Summary,
    syscalls: Seq<(u64, SyscallStats)>,
    connections: Seq<(ConnectionKey, ConnectionStats)>,
    files: Seq<((u32, i32), FileView)>,
) -> bool {
    let a = ranked(syscalls, |r: (u64, SyscallStats)| time_key(r));
    let b = ranked(connections, |r: (ConnectionKey, ConnectionStats)| retransmit_key(r));
    let c = ranked(files, |r: ((u32, i32), FileView)| volume_key(r));
    &&& s.syscalls@.len() == a.len()
    &&& forall|i: int| 0 <= i < a.len() ==> is_syscall_summary(#[trigger] s.syscalls@[i], a[i])
    &&& s.connections@.len() == b.len()
    &&& forall|i: int|
        0 <= i < b.len() ==> is_connection_summary(#[trigger] s.connections@[i], b[i])
    &&& s.files@.len() == c.len()
    &&& forall|i: int| 0 <= i < c.len() ==> is_file_summary(#[trigger] s.files@[i], c[i])
}

/// The rest of a summary.
pub open spec fn shows_totals(
    s: Summary,
    target: Seq<char>,
    uptime_secs: u64,
    mem_events: MemEventStats,
    memory: Option<MemReport>,
    faults: Option<FaultCounts>,
) -> bool {
    &&& s.target@ == target
    &&& s.uptime_secs == uptime_secs
    &&& s.kernel_allocs == mem_events.alloc_count
    &&& s.kernel_alloc_bytes == mem_events.alloc_bytes
    &&& s.kernel_frees == mem_events.free_count
    &&& s.memory == memory_of(memory)
    &&& s.page_faults == faults_of(faults)
}

/// Summarises a syscall of which is known what to show.
pub fn summarise_syscall(info: SyscallInfo, stats: SyscallStats) -> (summary: SyscallSummary)
    ensures
        summary.name@ == info.name@,
        summary.category@ == info.category@,
        summary.count == stats.count,
        summary.total_ns == stats.total_ns,
        summary.avg_ns == average(stats),
{
    SyscallSummary {
        name: info.name.to_owned(),
        category: info.category.to_owned(),
        count: stats.count,
        total_ns: stats.total_ns,
        avg_ns: stats.avg_ns(),
    }
}

fn summarise_syscalls(rows: &Vec<(u64, SyscallStats)>) -> (list: Vec<SyscallSummary>)
    ensures
        ({
            let a = ranked(rows@, |r: (u64, SyscallStats)| time_key(r));
            &&& list@.len() == a.len()
            &&& forall|i: int| 0 <= i < a.len() ==> is_syscall_summary(#[trigger] list@[i], a[i])
        }),
{
    let ghost key = |r: (u64, SyscallStats)| time_key(r);
    let mut keys: Vec<u128> = Vec::new();
    let mut n: usize = 0;
    while n < rows.len()
        invariant
            n <= rows@.len(),
            keys@.len() == n,
            key == (|r: (u64, SyscallStats)| time_key(r)),
            forall|i: int| 0 <= i < n ==> keys@[i] == rows@.map_values(key)[i],
        decreases rows@.len() - n,
    {
        keys.push(micros_double(rows[n].1.total_ns));
        n += 1;
    }
    assert(keys@ =~= rows@.map_values(key));
    let order = rank(&keys);
    let ghost a = ranked(rows@, key);
    let mut list: Vec<SyscallSummary> = Vec::new();
    let mut i: usize = 0;
    while i < order.len()
        invariant
            i <= order@.len(),
            list@.len() == i,
            order@.len() == a.len(),
            forall|j: int|
                0 <= j < order@.len() ==> #[trigger] order@[j] < rows@.len() && a[j]
                    == rows@[order@[j] as int],
            forall|j: int| 0 <= j < i ==> is_syscall_summary(#[trigger] list@[j], a[j]),
        decreases order@.len() - i,
    {
        let (nr, stats) = rows[order[i]];
        let summary = summarise_syscall(lookup(nr), stats);
        assert(is_syscall_summary(summary, a[i as int]));
        list.push(summary);
        i += 1;
    }
    list
}

/// Writes an end of a connection.
pub fn endpoint(family: u16, addr: &[u8; 16], port: u16) -> (text: String)
    ensures
        text@ == endpoint_text(family, addr@, port),
{
    let mut out = String::new();
    push_addr(&mut out, family, addr);
    out.append(":");
    push_decimal(&mut out, port as u128);
    assert(out@ =~= endpoint_text(family, addr@, port));
    out
}

/// Ranks connections by their retransmits.
pub fn connection_order(rows: &Vec<(ConnectionKey, ConnectionStats)>) -> (order: Vec<usize>)
    ensures
        order@ == ranking(
            rows@.map_values(|r: (ConnectionKey, ConnectionStats)| retransmit_key(r)),
        ),
        leads_to(
            order@,
            rows@,
            ranked(rows@, |r: (ConnectionKey, ConnectionStats)| retransmit_key(r)),
        ),
{
    let ghost key = |r: (ConnectionKey, ConnectionStats)| retransmit_key(r);
    let mut keys: Vec<u128> = Vec::new();
    let mut n: usize = 0;
    while n < rows.len()
        invariant
            n <= rows@.len(),
            keys@.len() == n,
            key == (|r: (ConnectionKey, ConnectionStats)| retransmit_key(r)),
            forall|i: int| 0 <= i < n ==> keys@[i] == rows@.map_values(key)[i],
        decreases rows@.len() - n,
    {
        keys.push(rows[n].1.retransmits as u128);
        n += 1;
    }
    assert(keys@ =~= rows@.map_values(key));
    rank(&keys)
}

fn summarise_connections(rows: &Vec<(ConnectionKey, ConnectionStats)>) -> (list: Vec<
    ConnectionSummary,
>)
    ensures
        ({
            let b = ranked(rows@, |r: (ConnectionKey, ConnectionStats)| retransmit_key(r));
            &&& list@.len() == b.len()
            &&& forall|i: int| 0 <= i < b.len() ==> is_connection_summary(#[trigger] list@[i], b[i])
        }),
{
    let order = connection_order(rows);
    let ghost b = ranked(rows@, |r: (ConnectionKey, ConnectionStats)| retransmit_key(r));
    let mut list: Vec<ConnectionSummary> = Vec::new();
    let mut i: usize = 0;
    while i < order.len()
        invariant
            i <= order@.len(),
            list@.len() == i,
            leads_to(order@, rows@, b),
            forall|j: int| 0 <= j < i ==> is_connection_summary(#[trigger] list@[j], b[j]),
        decreases order@.len() - i,
    {
        let (k, stats) = rows[order[i]];
        let summary = ConnectionSummary {
            local: endpoint(k.family, &k.saddr, k.sport),
            remote: endpoint(k.family, &k.daddr, k.dport),
            state: state_name(stats.state).to_owned(),
            retransmits: stats.retransmits,
        };
        assert(is_connection_summary(summary, b[i as int]));
        list.push(summary);
        i += 1;
    }
    list
}

/// Says whether a descriptor is open.
pub fn status_name(closed: bool) -> (text: &'static str)
    ensures
        text@ == status_text(closed),
{
    if closed {
        "closed"
    } else {
        "open"
    }
}

/// Ranks file descriptors by the bytes moved.
pub fn file_order(rows: &Vec<((u32, i32), FileStats)>) -> (order: Vec<usize>)
    ensures
        order@ == ranking(
            file_rows(rows@).map_values(|r: ((u32, i32), FileView)| volume_key(r)),
        ),
        leads_to(
            order@,
            file_rows(rows@),
            ranked(file_rows(rows@), |r: ((u32, i32), FileView)| volume_key(r)),
        ),
{
    let ghost key = |r: ((u32, i32), FileView)| volume_key(r);
    let ghost shown = file_rows(rows@);
    let mut keys: Vec<u128> = Vec::new();
    let mut n: usize = 0;
    while n < rows.len()
        invariant
            n <= rows@.len(),
            keys@.len() == n,
            key == (|r: ((u32, i32), FileView)| volume_key(r)),
            shown == file_rows(rows@),
            forall|i: int| 0 <= i < n ==> keys@[i] == shown.map_values(key)[i],
        decreases rows@.len() - n,
    {
        let file = &rows[n].1;
        keys.push(file.bytes_read as u128 + file.bytes_written as u128);
        assert(keys@[n as int] == shown.map_values(key)[n as int]);
        n += 1;
    }
    assert(keys@ =~= shown.map_values(key));
    rank(&keys)
}

fn summarise_files(rows: &Vec<((u32, i32), FileStats)>) -> (list: Vec<FileSummary>)
    ensures
        ({
            let c = ranked(file_rows(rows@), |r: ((u32, i32), FileView)| volume_key(r));
            &&& list@.len() == c.len()
            &&& forall|i: int| 0 <= i < c.len() ==> is_file_summary(#[trigger] list@[i], c[i])
        }),
{
    let order = file_order(rows);
    let ghost shown = file_rows(rows@);
    let ghost c = ranked(shown, |r: ((u32, i32), FileView)| volume_key(r));
    let mut list: Vec<FileSummary> = Vec::new();
    let mut i: usize = 0;
    while i < order.len()
        invariant
            i <= order@.len(),
            list@.len() == i,
            shown == file_rows(rows@),
            leads_to(order@, shown, c),
            forall|j: int| 0 <= j < i ==> is_file_summary(#[trigger] list@[j], c[j]),
        decreases order@.len() - i,
    {
        let row = &rows[order[i]];
        let summary = FileSummary {
            path: row.1.path.clone(),
            pid: row.0.0,
            fd: row.0.1,
            status: status_name(row.1.closed),
            bytes_read: row.1.bytes_read,
            bytes_written: row.1.bytes_written,
        };
        assert(is_file_summary(summary, c[i as int]));
        list.push(summary);
        i += 1;
    }
    list
}

/// The line of a syscall.
pub open spec fn syscall_line(s: SyscallSummary) -> Seq<char> {
    "  "@ + padded(s.name@, 20) + " count="@ + padded(decimal(s.count as nat), 8) + " total="@
        + micros(s.total_ns as nat) + "us avg="@ + micros(s.avg_ns as nat) + "us  ["@ + s.category@
        + "]\n"@
}

/// The lines of syscalls, in their order.
pub open spec fn syscall_lines(list: Seq<SyscallSummary>) -> Seq<char>
    decreases list.len(),
{
    if list.len() == 0 {
        Seq::empty()
    } else {
        syscall_lines(list.drop_last()) + syscall_line(list.last())
    }
}

/// The line of a connection.
pub open spec fn connection_line(c: ConnectionSummary) -> Seq<char> {
    "  "@ + c.local@ + " -> "@ + c.remote@ + "  state="@ + c.state@ + "  retransmits="@ + decimal(
        c.retransmits as nat,
    ) + "\n"@
}

/// The lines of connections, in their order.
pub open spec fn connection_lines(list: Seq<ConnectionSummary>) -> Seq<char>
    decreases list.len(),
{
    if list.len() == 0 {
        Seq::empty()
    } else {
        connection_lines(list.drop_last()) + connection_line(list.last())
    }
}

/// The section on connections, left out where there are none.
pub open spec fn connection_section(list: Seq<ConnectionSummary>) -> Seq<char> {
    if list.len() == 0 {
        Seq::empty()
    } else {
        "\nConnections:\n"@ + connection_lines(list)
    }
}

/// The line of a file descriptor.
pub open spec fn file_line(f: FileSummary) -> Seq<char> {
    "  "@ + f.path@ + " (pid="@ + decimal(f.pid as nat) + ",fd="@ + signed_decimal(f.fd as int)
        + ")  "@ + f.status@ + "  read="@ + decimal(f.bytes_read as nat) + " written="@ + decimal(
        f.bytes_written as nat,
    ) + "\n"@
}

/// The lines of file descriptors, in their order.
pub open spec fn file_lines(list: Seq<FileSummary>) -> Seq<char>
    decreases list.len(),
{
    if list.len() == 0 {
        Seq::empty()
    } else {
        file_lines(list.drop_last()) + file_line(list.last())
    }
}

/// The section on files, left out where there are none.
pub open spec fn file_section(list: Seq<FileSummary>) -> Seq<char> {
    if list.len() == 0 {
        Seq::empty()
    } else {
        "\nFiles:\n"@ + file_lines(list)
    }
}

/// The lines on kernel allocations.
pub open spec fn kernel_lines(s: Summary) -> Seq<char> {
    "\nKernel allocs: "@ + decimal(s.kernel_allocs as nat) + " ("@ + size_text(
        s.kernel_alloc_bytes as nat,
    ) + ")\nKernel frees: "@ + decimal(s.kernel_frees as nat) + "\n"@
}

/// The line on memory.
pub open spec fn memory_line(memory: Option<MemorySummary>) -> Seq<char> {
    match memory {
        Some(MemorySummary::Cgroup { current_bytes, .. }) => "Memory (cgroup): "@ + size_text(
            current_bytes as nat,
        ) + "\n"@,
        Some(MemorySummary::Proc { rss_bytes, num_processes, .. }) => "Memory (proc): "@
            + size_text(rss_bytes as nat) + " RSS across "@ + decimal(num_processes as nat)
            + " process(es)\n"@,
        None => "Memory: unavailable\n"@,
    }
}

/// The line on page faults, left out where they are not known.
pub open spec fn fault_line(faults: Option<FaultSummary>) -> Seq<char> {
    match faults {
        Some(f) => "Page faults: minor="@ + decimal(f.minor as nat) + " major="@ + decimal(
            f.major as nat,
        ) + "\n"@,
        None => Seq::empty(),
    }
}

/// A summary as text.
pub open spec fn plain_text(s: Summary) -> Seq<char> {
    "peekbeam summary — "@ + s.target@ + "  (uptime "@ + decimal(s.uptime_secs as nat) + "s)\n"@
        + "\nSyscalls:\n"@ + syscall_lines(s.syscalls@) + connection_section(s.connections@)
        + file_section(s.files@) + kernel_lines(s) + memory_line(s.memory) + fault_line(
        s.page_faults,
    )
}

fn syscall_text(s: &SyscallSummary) -> (line: String)
    ensures
        line@ == syscall_line(*s),
{
    let mut line: String = "  ".to_owned();
    push_padded(&mut line, s.name.as_str(), 20);
    line.append(" count=");
    push_padded(&mut line, decimal_text(s.count as u128).as_str(), 8);
    line.append(" total=");
    push_micros(&mut line, s.total_ns);
    line.append("us avg=");
    push_micros(&mut line, s.avg_ns);
    line.append("us  [");
    line.append(s.category.as_str());
    line.append("]\n");
    line
}

fn push_syscalls(out: &mut String, list: &Vec<SyscallSummary>)
    ensures
        final(out)@ == old(out)@ + syscall_lines(list@),
{
    let ghost before = out@;
    let mut i: usize = 0;
    assert(out@ =~= before + syscall_lines(list@.take(0)));
    while i < list.len()
        invariant
            i <= list@.len(),
            out@ == before + syscall_lines(list@.take(i as int)),
        decreases list@.len() - i,
    {
        assert(list@.take(i + 1).drop_last() =~= list@.take(i as int));
        let line = syscall_text(&list[i]);
        out.append(line.as_str());
        assert(out@ =~= before + (syscall_lines(list@.take(i as int)) + line@));
        i += 1;
    }
    assert(list@.take(list@.len() as int) =~= list@);
}

fn connection_text(c: &ConnectionSummary) -> (line: String)
    ensures
        line@ == connection_line(*c),
{
    let mut line: String = "  ".to_owned();
    line.append(c.local.as_str());
    line.append(" -> ");
    line.append(c.remote.as_str());
    line.append("  state=");
    line.append(c.state.as_str());
    line.append("  retransmits=");
    push_decimal(&mut line, c.retransmits as u128);
    line.append("\n");
    line
}

fn push_connections(out: &mut String, list: &Vec<ConnectionSummary>)
    ensures
        final(out)@ == old(out)@ + connection_section(list@),
{
    let ghost start = out@;
    if list.len() == 0 {
        assert(out@ =~= start + connection_section(list@));
        return ;
    }
    out.append("\nConnections:\n");
    let ghost before = out@;
    let mut i: usize = 0;
    assert(out@ =~= before + connection_lines(list@.take(0)));
    while i < list.len()
        invariant
            i <= list@.len(),
            out@ == before + connection_lines(list@.take(i as int)),
        decreases list@.len() - i,
    {
        assert(list@.take(i + 1).drop_last() =~= list@.take(i as int));
        let line = connection_text(&list[i]);
        out.append(line.as_str());
        assert(out@ =~= before + (connection_lines(list@.take(i as int)) + line@));
        i += 1;
    }
    assert(list@.take(list@.len() as int) =~= list@);
    assert(out@ =~= start + connection_section(list@));
}

fn file_text(f: &FileSummary) -> (line: String)
    ensures
        line@ == file_line(*f),
{
    let mut line: String = "  ".to_owned();
    line.append(f.path.as_str());
    line.append(" (pid=");
    push_decimal(&mut line, f.pid as u128);
    line.append(",fd=");
    push_signed_decimal(&mut line, f.fd);
    line.append(")  ");
    line.append(f.status);
    line.append("  read=");
    push_decimal(&mut line, f.bytes_read as u128);
    line.append(" written=");
    push_decimal(&mut line, f.bytes_written as u128);
    line.append("\n");
    line
}

fn push_files(out: &mut String, list: &Vec<FileSummary>)
    ensures
        final(out)@ == old(out)@ + file_section(list@),
{
    let ghost start = out@;
    if list.len() == 0 {
        assert(out@ =~= start + file_section(list@));
        return ;
    }
    out.append("\nFiles:\n");
    let ghost before = out@;
    let mut i: usize = 0;
    assert(out@ =~= before + file_lines(list@.take(0)));
    while i < list.len()
        invariant
            i <= list@.len(),
            out@ == before + file_lines(list@.take(i as int)),
        decreases list@.len() - i,
    {
        assert(list@.take(i + 1).drop_last() =~= list@.take(i as int));
        let line = file_text(&list[i]);
        out.append(line.as_str());
        assert(out@ =~= before + (file_lines(list@.take(i as int)) + line@));
        i += 1;
    }
    assert(list@.take(list@.len() as int) =~= list@);
    assert(out@ =~= start + file_section(list@));
}

fn kernel_text(s: &Summary) -> (lines: String)
    ensures
        lines@ == kernel_lines(*s),
{
    let mut lines: String = "\nKernel allocs: ".to_owned();
    push_decimal(&mut lines, s.kernel_allocs as u128);
    lines.append(" (");
    push_bytes_text(&mut lines, s.kernel_alloc_bytes);
    lines.append(")\nKernel frees: ");
    push_decimal(&mut lines, s.kernel_frees as u128);
    lines.append("\n");
    lines
}

fn memory_text(memory: &Option<MemorySummary>) -> (line: String)
    ensures
        line@ == memory_line(*memory),
{
    match *memory {
        Some(MemorySummary::Cgroup { current_bytes, .. }) => {
            let mut line: String = "Memory (cgroup): ".to_owned();
            push_bytes_text(&mut line, current_bytes);
            line.append("\n");
            line
        },
        Some(MemorySummary::Proc { rss_bytes, num_processes, .. }) => {
            let mut line: String = "Memory (proc): ".to_owned();
            push_bytes_text(&mut line, rss_bytes);
            line.append(" RSS across ");
            push_decimal(&mut line, num_processes as u128);
            line.append(" process(es)\n");
            line
        },
        None => "Memory: unavailable\n".to_owned(),
    }
}

fn fault_text(faults: &Option<FaultSummary>) -> (line: String)
    ensures
        line@ == fault_line(*faults),
{
    match faults {
        Some(f) => {
            let mut line: String = "Page faults: minor=".to_owned();
            push_decimal(&mut line, f.minor as u128);
            line.append(" major=");
            push_decimal(&mut line, f.major as u128);
            line.append("\n");
            line
        },
        None => String::new(),
    }
}

impl Summary {
    /// Summarises the tables. Rows that rank equally come in no particular
    /// order, since the tables have none.
    pub fn build(
        target: &str,
        uptime_secs: u64,
        stats: &HashMap<u64, SyscallStats>,
        connections: &ConnectionTable,
        files: &FileTable,
        mem_events: MemEventStats,
        memory: Option<MemReport>,
        faults: Option<FaultCounts>,
    ) -> (summary: Summary)
        requires
            connections.wf(),
        ensures
            shows_totals(summary, target@, uptime_secs, mem_events, memory, faults),
            exists|
                a: Seq<(u64, SyscallStats)>,
                b: Seq<(ConnectionKey, ConnectionStats)>,
                c: Seq<((u32, i32), FileView)>,
            |
                lists(a, stats@) && lists(b, connections@) && lists(c, files@)
                    && #[trigger] shows_rows(summary, a, b, c),
    {
        let syscalls = syscall_rows(stats);
        let open = files.rows();
        let summary = Summary::of_rows(
            target,
            uptime_secs,
            &syscalls,
            connections.rows(),
            &open,
            mem_events,
            memory,
            faults,
        );
        summary
    }

    /// Summarises rows.
    pub fn of_rows(
        target: &str,
        uptime_secs: u64,
        syscalls: &Vec<(u64, SyscallStats)>,
        connections: &Vec<(ConnectionKey, ConnectionStats)>,
        files: &Vec<((u32, i32), FileStats)>,
        mem_events: MemEventStats,
        memory: Option<MemReport>,
        faults: Option<FaultCounts>,
    ) -> (summary: Summary)
        ensures
            shows_totals(summary, target@, uptime_secs, mem_events, memory, faults),
            shows_rows(summary, syscalls@, connections@, file_rows(files@)),
    {
        let memory = match memory {
            None => None,
            Some(MemReport::Cgroup {
                current_bytes,
                anon_bytes,
                file_bytes,
                active_anon_bytes,
                inactive_anon_bytes,
            }) => Some(
                MemorySummary::Cgroup {
                    current_bytes,
                    anon_bytes,
                    file_bytes,
                    active_anon_bytes,
                    inactive_anon_bytes,
                },
            ),
            Some(MemReport::Process {
                rss_bytes,
                anon_bytes,
                file_bytes,
                shmem_bytes,
                num_processes,
            }) => Some(
                MemorySummary::Proc {
                    rss_bytes,
                    anon_bytes,
                    file_bytes,
                    shmem_bytes,
                    num_processes,
                },
            ),
        };
        let page_faults = match faults {
            None => None,
            Some(f) => Some(FaultSummary { minor: f.min_flt, major: f.maj_flt }),
        };
        Summary {
            target: target.to_owned(),
            uptime_secs,
            syscalls: summarise_syscalls(syscalls),
            connections: summarise_connections(connections),
            files: summarise_files(files),
            kernel_allocs: mem_events.alloc_count,
            kernel_alloc_bytes: mem_events.alloc_bytes,
            kernel_frees: mem_events.free_count,
            memory,
            page_faults,
        }
    }

    /// Renders the summary for a human reader.
    pub fn to_plain_text(&self) -> (text: String)
        ensures
            text@ == plain_text(*self),
    {
        let mut out: String = "peekbeam summary — ".to_owned();
        out.append(self.target.as_str());
        out.append("  (uptime ");
        push_decimal(&mut out, self.uptime_secs as u128);
        out.append("s)\n");
        out.append("\nSyscalls:\n");
        push_syscalls(&mut out, &self.syscalls);
        push_connections(&mut out, &self.connections);
        push_files(&mut out, &self.files);
        out.append(kernel_text(self).as_str());
        out.append(memory_text(&self.memory).as_str());
        out.append(fault_text(&self.page_faults).as_str());
        out
    }
}

/// The syscalls that took the most time come first: one further down took no
/// longer, or its microseconds are the same double.
pub proof fn slowest_syscalls_come_first(
    s: Summary,
    syscalls: Seq<(u64, SyscallStats)>,
    connections: Seq<(ConnectionKey, ConnectionStats)>,
    files: Seq<((u32, i32), FileView)>,
    i: int,
    j: int,
)
    requires
        shows_rows(s, syscalls, connections, files),
        syscalls.len() <= usize::MAX,
        0 <= i < j < s.syscalls@.len(),
    ensures
        s.syscalls@[j].total_ns <= s.syscalls@[i].total_ns || thousandth_of(
            double_of(s.syscalls@[j].total_ns as nat),
        ) == thousandth_of(double_of(s.syscalls@[i].total_ns as nat)),
{
    let key = |r: (u64, SyscallStats)| time_key(r);
    let a = ranked(syscalls, key);
    ranking_exists(syscalls.map_values(key));
    ranked_rows_descend(syscalls, key, i, j);
    assert(is_syscall_summary(s.syscalls@[i], a[i]));
    assert(is_syscall_summary(s.syscalls@[j], a[j]));
    let (upper, lower) = (s.syscalls@[i].total_ns, s.syscalls@[j].total_ns);
    weights_fit(upper);
    weights_fit(lower);
    if lower > upper {
        longer_times_weigh_more(upper as nat, lower as nat);
    }
}

/// The connections that retransmit the most come first.
pub proof fn troubled_connections_come_first(
    s: Summary,
    syscalls: Seq<(u64, SyscallStats)>,
    connections: Seq<(ConnectionKey, ConnectionStats)>,
    files: Seq<((u32, i32), FileView)>,
    i: int,
    j: int,
)
    requires
        shows_rows(s, syscalls, connections, files),
        connections.len() <= usize::MAX,
        0 <= i < j < s.connections@.len(),
    ensures
        s.connections@[j].retransmits <= s.connections@[i].retransmits,
{
    let key = |r: (ConnectionKey, ConnectionStats)| retransmit_key(r);
    let b = ranked(connections, key);
    ranking_exists(connections.map_values(key));
    ranked_rows_descend(connections, key, i, j);
    assert(is_connection_summary(s.connections@[i], b[i]));
    assert(is_connection_summary(s.connections@[j], b[j]));
}

/// The files that moved the most bytes come first.
pub proof fn busiest_files_come_first(
    s: Summary,
    syscalls: Seq<(u64, SyscallStats)>,
    connections: Seq<(ConnectionKey, ConnectionStats)>,
    files: Seq<((u32, i32), FileView)>,
    i: int,
    j: int,
)
    requires
        shows_rows(s, syscalls, connections, files),
        files.len() <= usize::MAX,
        0 <= i < j < s.files@.len(),
    ensures
        s.files@[j].bytes_read + s.files@[j].bytes_written <= s.files@[i].bytes_read
            + s.files@[i].bytes_written,
{
    let key = |r: ((u32, i32), FileView)| volume_key(r);
    let c = ranked(files, key);
    ranking_exists(files.map_values(key));
    ranked_rows_descend(files, key, i, j);
    assert(is_file_summary(s.files@[i], c[i]));
    assert(is_file_summary(s.files@[j], c[j]));
}

/// What is not a row is taken over as it was given: the target, the time, the
/// kernel counters, and each figure of memory and of the faults under its own
/// name.
pub proof fn figures_keep_their_names(
    s: Summary,
    target: Seq<char>,
    uptime_secs: u64,
    mem_events: MemEventStats,
    memory: Option<MemReport>,
    faults: Option<FaultCounts>,
)
    requires
        shows_totals(s, target, uptime_secs, mem_events, memory, faults),
    ensures
        s.target@ == target,
        s.uptime_secs == uptime_secs,
        s.kernel_allocs == mem_events.alloc_count,
        s.kernel_alloc_bytes == mem_events.alloc_bytes,
        s.kernel_frees == mem_events.free_count,
        memory is None <==> s.memory is None,
        memory matches Some(r) ==> r is Cgroup ==> {
            &&& s.memory->0 is Cgroup
            &&& s.memory->0->current_bytes == r->current_bytes
            &&& s.memory->0->Cgroup_anon_bytes == r->Cgroup_anon_bytes
            &&& s.memory->0->Cgroup_file_bytes == r->Cgroup_file_bytes
            &&& s.memory->0->active_anon_bytes == r->active_anon_bytes
            &&& s.memory->0->inactive_anon_bytes == r->inactive_anon_bytes
        },
        memory matches Some(r) ==> r is Process ==> {
            &&& s.memory->0 is Proc
            &&& s.memory->0->rss_bytes == r->rss_bytes
            &&& s.memory->0->Proc_anon_bytes == r->Process_anon_bytes
            &&& s.memory->0->Proc_file_bytes == r->Process_file_bytes
            &&& s.memory->0->shmem_bytes == r->shmem_bytes
            &&& s.memory->0->num_processes == r->num_processes
        },
        faults is None <==> s.page_faults is None,
        faults matches Some(f) ==> s.page_faults->0.minor == f.min_flt && s.page_faults->0.major
            == f.maj_flt,
{
}

/// Every syscall is summarised once, the slowest first, with its calls, the time
/// spent in them and the time of one. The rows in that order are returned.
pub proof fn every_syscall_is_summarised(
    s: Summary,
    syscalls: Seq<(u64, SyscallStats)>,
    connections: Seq<(ConnectionKey, ConnectionStats)>,
    files: Seq<((u32, i32), FileView)>,
) -> (sorted: Seq<(u64, SyscallStats)>)
    requires
        shows_rows(s, syscalls, connections, files),
        syscalls.len() <= usize::MAX,
    ensures
        sorted.to_multiset() == syscalls.to_multiset(),
        sorted.len() == syscalls.len() == s.syscalls@.len(),
        forall|i: int|
            0 <= i < sorted.len() ==> {
                let shown = #[trigger] s.syscalls@[i];
                let row = sorted[i];
                &&& shown.name@ == shown_name(sysno_name(table_index(row.0)))
                &&& shown.category@ == classification(shown.name@).0
                &&& shown.count == row.1.count
                &&& shown.total_ns == row.1.total_ns
                &&& shown.count == 0 ==> shown.avg_ns == 0
                &&& shown.count > 0 ==> shown.avg_ns * shown.count <= shown.total_ns < (shown.avg_ns
                    + 1) * shown.count
            },
{
    let key = |r: (u64, SyscallStats)| time_key(r);
    let sorted = ranked(syscalls, key);
    ranking_exists(syscalls.map_values(key));
    ranking_keeps_the_rows(syscalls, key);
    assert forall|i: int| 0 <= i < sorted.len() implies {
        let shown = #[trigger] s.syscalls@[i];
        let row = sorted[i];
        &&& shown.name@ == shown_name(sysno_name(table_index(row.0)))
        &&& shown.category@ == classification(shown.name@).0
        &&& shown.count == row.1.count
        &&& shown.total_ns == row.1.total_ns
        &&& shown.count == 0 ==> shown.avg_ns == 0
        &&& shown.count > 0 ==> shown.avg_ns * shown.count <= shown.total_ns < (shown.avg_ns + 1)
            * shown.count
    } by {
        assert(is_syscall_summary(s.syscalls@[i], sorted[i]));
        if sorted[i].1.count > 0 {
            average_shares_the_total(sorted[i].1);
        }
    }
    sorted
}

/// Every connection is summarised once, with both its ends, its state and its
/// retransmits. The rows in their order are returned.
pub proof fn every_connection_is_summarised(
    s: Summary,
    syscalls: Seq<(u64, SyscallStats)>,
    connections: Seq<(ConnectionKey, ConnectionStats)>,
    files: Seq<((u32, i32), FileView)>,
) -> (sorted: Seq<(ConnectionKey, ConnectionStats)>)
    requires
        shows_rows(s, syscalls, connections, files),
        connections.len() <= usize::MAX,
    ensures
        sorted.to_multiset() == connections.to_multiset(),
        sorted.len() == connections.len() == s.connections@.len(),
        forall|i: int|
            0 <= i < sorted.len() ==> {
                let shown = #[trigger] s.connections@[i];
                let (k, c) = sorted[i];
                &&& shown.local@ == address_text(k.family, k.saddr@) + ":"@ + decimal(
                    k.sport as nat,
                )
                &&& shown.remote@ == address_text(k.family, k.daddr@) + ":"@ + decimal(
                    k.dport as nat,
                )
                &&& shown.state@ == name_of_state(c.state)
                &&& shown.retransmits == c.retransmits
            },
{
    let key = |r: (ConnectionKey, ConnectionStats)| retransmit_key(r);
    let sorted = ranked(connections, key);
    ranking_exists(connections.map_values(key));
    ranking_keeps_the_rows(connections, key);
    assert forall|i: int| 0 <= i < sorted.len() implies is_connection_summary(
        #[trigger] s.connections@[i],
        sorted[i],
    ) by {}
    sorted
}

/// Every file descriptor is summarised once, with its path, whether it is open,
/// and the bytes moved each way. The rows in their order are returned.
pub proof fn every_file_is_summarised(
    s: Summary,
    syscalls: Seq<(u64, SyscallStats)>,
    connections: Seq<(ConnectionKey, ConnectionStats)>,
    files: Seq<((u32, i32), FileView)>,
) -> (sorted: Seq<((u32, i32), FileView)>)
    requires
        shows_rows(s, syscalls, connections, files),
        files.len() <= usize::MAX,
    ensures
        sorted.to_multiset() == files.to_multiset(),
        sorted.len() == files.len() == s.files@.len(),
        forall|i: int|
            0 <= i < sorted.len() ==> {
                let shown = #[trigger] s.files@[i];
                let (k, f) = sorted[i];
                &&& shown.path@ == f.path && shown.pid == k.0 && shown.fd == k.1
                &&& f.closed ==> shown.status@ == "closed"@
                &&& !f.closed ==> shown.status@ == "open"@
                &&& shown.bytes_read == f.bytes_read
                &&& shown.bytes_written == f.bytes_written
            },
{
    let key = |r: ((u32, i32), FileView)| volume_key(r);
    let sorted = ranked(files, key);
    ranking_exists(files.map_values(key));
    ranking_keeps_the_rows(files, key);
    assert forall|i: int| 0 <= i < sorted.len() implies is_file_summary(
        #[trigger] s.files@[i],
        sorted[i],
    ) by {}
    sorted
}

/// The text of a summary names its target and its time, then has one line for
/// each row in the order of the rows, with every figure of it, and then the
/// totals.
pub proof fn texts_have_a_line_for_each_row(
    a: Seq<SyscallSummary>,
    x: SyscallSummary,
    b: Seq<ConnectionSummary>,
    y: ConnectionSummary,
    c: Seq<FileSummary>,
    z: FileSummary,
)
    ensures
        syscall_lines(Seq::empty()) == Seq::<char>::empty(),
        syscall_lines(a.push(x)) == syscall_lines(a) + ("  "@ + padded(x.name@, 20) + " count="@
            + padded(decimal(x.count as nat), 8) + " total="@ + micros(x.total_ns as nat)
            + "us avg="@ + micros(x.avg_ns as nat) + "us  ["@ + x.category@ + "]\n"@),
        connection_section(Seq::empty()) == Seq::<char>::empty(),
        connection_section(seq![y]) == "\nConnections:\n"@ + connection_line(y),
        b.len() > 0 ==> connection_section(b.push(y)) == connection_section(b) + connection_line(y),
        connection_line(y) == "  "@ + y.local@ + " -> "@ + y.remote@ + "  state="@ + y.state@
            + "  retransmits="@ + decimal(y.retransmits as nat) + "\n"@,
        file_section(Seq::empty()) == Seq::<char>::empty(),
        file_section(seq![z]) == "\nFiles:\n"@ + file_line(z),
        c.len() > 0 ==> file_section(c.push(z)) == file_section(c) + file_line(z),
        file_line(z) == "  "@ + z.path@ + " (pid="@ + decimal(z.pid as nat) + ",fd="@
            + signed_decimal(z.fd as int) + ")  "@ + z.status@ + "  read="@ + decimal(
            z.bytes_read as nat,
        ) + " written="@ + decimal(z.bytes_written as nat) + "\n"@,
{
    assert(a.push(x).drop_last() =~= a);
    assert(b.push(y).drop_last() =~= b);
    assert(c.push(z).drop_last() =~= c);
    assert(seq![y].drop_last() =~= Seq::empty());
    assert(seq![z].drop_last() =~= Seq::empty());
    reveal_with_fuel(connection_lines, 2);
    reveal_with_fuel(file_lines, 2);
    assert(Seq::<char>::empty() + connection_line(y) =~= connection_line(y));
    assert(Seq::<char>::empty() + file_line(z) =~= file_line(z));
    let (p, q) = (connection_lines(b), file_lines(c));
    assert("\nConnections:\n"@ + (p + connection_line(y)) =~= ("\nConnections:\n"@ + p)
        + connection_line(y));
    assert("\nFiles:\n"@ + (q + file_line(z)) =~= ("\nFiles:\n"@ + q) + file_line(z));
}

/// The text of a summary is its parts in a fixed order, and each total stands
/// behind its own words.
pub proof fn texts_are_their_parts(s: Summary)
    ensures
        plain_text(s) == "peekbeam summary — "@ + s.target@ + "  (uptime "@ + decimal(
            s.uptime_secs as nat,
        ) + "s)\n"@ + "\nSyscalls:\n"@ + syscall_lines(s.syscalls@) + connection_section(
            s.connections@,
        ) + file_section(s.files@) + ("\nKernel allocs: "@ + decimal(s.kernel_allocs as nat) + " ("@
            + size_text(s.kernel_alloc_bytes as nat) + ")\nKernel frees: "@ + decimal(
            s.kernel_frees as nat,
        ) + "\n"@) + memory_line(s.memory) + fault_line(s.page_faults),
        s.memory is None ==> memory_line(s.memory) == "Memory: unavailable\n"@,
        s.memory matches Some(m) ==> m is Cgroup ==> memory_line(s.memory) == "Memory (cgroup): "@
            + size_text(m->current_bytes as nat) + "\n"@,
        s.memory matches Some(m) ==> m is Proc ==> memory_line(s.memory) == "Memory (proc): "@
            + size_text(m->rss_bytes as nat) + " RSS across "@ + decimal(m->num_processes as nat)
            + " process(es)\n"@,
        s.page_faults is None ==> fault_line(s.page_faults) == Seq::<char>::empty(),
        s.page_faults matches Some(f) ==> fault_line(s.page_faults) == "Page faults: minor="@
            + decimal(f.minor as nat) + " major="@ + decimal(f.major as nat) + "\n"@,
{
}

/// An end of a connection is its address, a colon and its port.
pub proof fn ends_are_address_and_port(family: u16, addr: Seq<u8>, port: u16)
    ensures
        endpoint_text(family, addr, port) == address_text(family, addr) + ":"@ + decimal(
            port as nat,
        ),
{
}

} // verus!
