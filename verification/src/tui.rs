//! The interactive panels: what the keys do, when to draw, and what stands in
//! each panel. Putting it on a terminal is left to the program.

use crate::file_table::{middle_cut, truncate_middle};
use crate::mem_stats::{format_bytes, push_bytes_text, size_text, FaultCounts, MemReport};
use crate::net_table::{
    address_text, annotation_of_state, name_of_state, state_annotation, state_name,
};
use crate::order::{
    leads_to, rank, ranked, ranked_rows_descend, ranking_exists, ranking_keeps_the_rows,
};
use crate::round::{micros, push_micros};
use crate::stats::{
    average, file_rows, ConnectionKey, ConnectionStats, FileStats, FileView, MemEventStats,
    SyscallStats,
};
use crate::summary::{
    connection_order, endpoint, endpoint_text, file_order, retransmit_key, status_name, status_text,
    volume_key,
};
use crate::syscall_table::{
    classification, lookup, shown_name, sysno_name, table_index, SyscallInfo,
};
use crate::text::{decimal, decimal_text, push_decimal, push_signed_decimal, signed_decimal};
use vstd::prelude::*;
use vstd::string::*;

verus! {

/// The panels.
#[derive(Clone, Copy, Debug, PartialEq, Eq, Structural)]
pub enum Pane {
    Syscalls,
    Network,
    Memory,
    Files,
}

/// By what syscalls are sorted.
#[derive(Clone, Copy, Debug, PartialEq, Eq, Structural)]
pub enum SortBy {
    Count,
    Time,
}

/// What is shown.
#[derive(Clone, Copy, Debug, PartialEq, Eq, Structural)]
pub struct Session {
    pub pane: Pane,
    pub sort_by: SortBy,
}

/// A key of the keyboard.
#[derive(Clone, Copy, Debug, PartialEq, Eq, Structural)]
pub enum Key {
    Char(char),
    Esc,
    Tab,
    Other,
}

/// Something that happened to a key.
#[derive(Clone, Copy, Debug, PartialEq, Eq, Structural)]
pub struct KeyInput {
    pub key: Key,
    /// It went down; otherwise it was let go, or repeated itself.
    pub pressed: bool,
    /// The control key was held.
    pub control: bool,
}

/// The panel after a panel.
pub open spec fn next_pane(pane: Pane) -> Pane {
    match pane {
        Pane::Syscalls => Pane::Network,
        Pane::Network => Pane::Memory,
        Pane::Memory => Pane::Files,
        Pane::Files => Pane::Syscalls,
    }
}

/// The other order.
pub open spec fn other_order(sort_by: SortBy) -> SortBy {
    match sort_by {
        SortBy::Count => SortBy::Time,
        SortBy::Time => SortBy::Count,
    }
}

/// The input ends the session.
pub open spec fn quits(input: KeyInput) -> bool {
    input.pressed && (input.key == Key::Char('q') || input.key == Key::Esc || (input.key
        == Key::Char('c') && input.control))
}

/// What is shown after an input that does not end the session.
pub open spec fn after_input(s: Session, input: KeyInput) -> Session {
    if !input.pressed {
        s
    } else if input.key == Key::Tab {
        Session { pane: next_pane(s.pane), sort_by: s.sort_by }
    } else if input.key == Key::Char('s') && s.pane == Pane::Syscalls {
        Session { pane: s.pane, sort_by: other_order(s.sort_by) }
    } else {
        s
    }
}

impl Session {
    /// What is shown first: the syscalls, by the time they took.
    pub fn new() -> (session: Session)
        ensures
            session == (Session { pane: Pane::Syscalls, sort_by: SortBy::Time }),
    {
        Session { pane: Pane::Syscalls, sort_by: SortBy::Time }
    }

    /// What is shown after an input; nothing, where the input ends the session.
    pub fn on_input(self, input: KeyInput) -> (next: Option<Session>)
        ensures
            next == (if quits(input) {
                None
            } else {
                Some(after_input(self, input))
            }),
    {
        if !input.pressed {
            return Some(self);
        }
        match input.key {
            Key::Esc => None,
            Key::Tab => {
                let pane = match self.pane {
                    Pane::Syscalls => Pane::Network,
                    Pane::Network => Pane::Memory,
                    Pane::Memory => Pane::Files,
                    Pane::Files => Pane::Syscalls,
                };
                Some(Session { pane, sort_by: self.sort_by })
            },
            Key::Char(c) => if c == 'q' || (c == 'c' && input.control) {
                None
            } else if c == 's' && self.pane == Pane::Syscalls {
                let sort_by = match self.sort_by {
                    SortBy::Count => SortBy::Time,
                    SortBy::Time => SortBy::Count,
                };
                Some(Session { pane: self.pane, sort_by })
            } else {
                Some(self)
            },
            Key::Other => Some(self),
        }
    }
}

/// Whether a panel is to be drawn again. Times are in nanoseconds.
pub fn is_due(since_draw: u128, refresh: u128) -> (due: bool)
    ensures
        due <==> since_draw >= refresh,
{
    since_draw >= refresh
}

/// What is shown once it is known whether the process was asked to end, and
/// what was typed; nothing, where the session is over.
pub open spec fn session_after(
    s: Session,
    requested: bool,
    input: Option<KeyInput>,
) -> Option<Session> {
    if requested {
        None
    } else {
        match input {
            None => Some(s),
            Some(i) => if quits(i) {
                None
            } else {
                Some(after_input(s, i))
            },
        }
    }
}

/// Goes on with a session. A request to end comes first, whatever was typed.
pub fn next_session(s: Session, requested: bool, input: Option<KeyInput>) -> (next: Option<Session>)
    ensures
        next == session_after(s, requested, input),
{
    if requested {
        return None;
    }
    match input {
        None => Some(s),
        Some(i) => s.on_input(i),
    }
}

/// What the loop behind the panels does.
#[derive(Clone, Copy, Debug, PartialEq, Eq, Structural)]
pub enum Work {
    /// It looks for a request to end, and then for input.
    Listen,
    /// It folds in the events that have come.
    Poll,
    /// It draws the panel that is shown.
    Draw,
    /// It ends.
    Quit,
}

/// What the loop has done, and what came of it. Times are in nanoseconds.
#[derive(Clone, Copy, Debug, PartialEq, Eq, Structural)]
pub enum Done {
    Listened { requested: bool, input: Option<KeyInput> },
    Polled { since_draw: u128, refresh: u128 },
    Drawn,
}

/// What is shown, and what to do, after something was done.
pub open spec fn work_after(s: Session, done: Done) -> (Session, Work) {
    match done {
        Done::Listened { requested, input } => match session_after(s, requested, input) {
            None => (s, Work::Quit),
            Some(next) => (next, Work::Poll),
        },
        Done::Polled { since_draw, refresh } => if since_draw >= refresh {
            (s, Work::Draw)
        } else {
            (s, Work::Listen)
        },
        Done::Drawn => (s, Work::Listen),
    }
}

/// Decides what the loop does next.
pub fn next_work(s: Session, done: Done) -> (next: (Session, Work))
    ensures
        next == work_after(s, done),
{
    match done {
        Done::Listened { requested, input } => match next_session(s, requested, input) {
            None => (s, Work::Quit),
            Some(next) => (next, Work::Poll),
        },
        Done::Polled { since_draw, refresh } => if is_due(since_draw, refresh) {
            (s, Work::Draw)
        } else {
            (s, Work::Listen)
        },
        Done::Drawn => (s, Work::Listen),
    }
}

/// How a row stands out.
#[derive(Clone, Copy, Debug, PartialEq, Eq, Structural)]
pub enum Tone {
    /// Not at all.
    Plain,
    /// As something to look at.
    Notable,
    /// As a file that is open.
    Open,
}

/// A row of a panel.
#[derive(Debug)]
pub struct PanelRow {
    pub cells: Vec<String>,
    pub tone: Tone,
}

/// What is drawn: a title and a line of text in a box, a table, and a line
/// below it.
#[derive(Debug)]
pub struct Panel {
    pub title: &'static str,
    pub header: String,
    pub columns: Vec<&'static str>,
    pub rows: Vec<PanelRow>,
    pub footer: &'static str,
}

/// A row, with text as characters.
#[verifier::ext_equal]
pub struct RowView {
    pub cells: Seq<Seq<char>>,
    pub tone: Tone,
}

/// A panel, with text as characters.
#[verifier::ext_equal]
pub struct PanelView {
    pub title: Seq<char>,
    pub header: Seq<char>,
    pub columns: Seq<Seq<char>>,
    pub rows: Seq<RowView>,
    pub footer: Seq<char>,
}

impl View for PanelRow {
    type V = RowView;

    open spec fn view(&self) -> RowView {
        RowView { cells: self.cells@.map_values(|c: String| c@), tone: self.tone }
    }
}

/// Rows, with text as characters.
pub open spec fn row_views(rows: Seq<PanelRow>) -> Seq<RowView> {
    rows.map_values(|r: PanelRow| r@)
}

impl View for Panel {
    type V = PanelView;

    open spec fn view(&self) -> PanelView {
        PanelView {
            title: self.title@,
            header: self.header@,
            columns: self.columns@.map_values(|c: &'static str| c@),
            rows: row_views(self.rows@),
            footer: self.footer@,
        }
    }
}

/// Calls that take longer than this on average, in nanoseconds, stand out.
pub const SLOW_NS: u64 = 10_000_000;

/// Syscalls called more often than this stand out.
pub const OFTEN: u64 = 10_000;

/// How many characters of a path are shown.
pub const PATH_WIDTH: usize = 50;

/// By what a syscall is sorted.
pub open spec fn sort_key(sort_by: SortBy, row: (u64, SyscallStats)) -> u128 {
    match sort_by {
        SortBy::Count => row.1.count as u128,
        SortBy::Time => row.1.total_ns as u128,
    }
}

/// What the order is called.
pub open spec fn sort_label(sort_by: SortBy) -> Seq<char> {
    match sort_by {
        SortBy::Count => "count"@,
        SortBy::Time => "total time"@,
    }
}

/// How many calls there were in all.
pub open spec fn call_count(rows: Seq<(u64, SyscallStats)>) -> nat
    decreases rows.len(),
{
    if rows.len() == 0 {
        0
    } else {
        call_count(rows.drop_last()) + rows.last().1.count as nat
    }
}

/// The time spent in all calls together, in nanoseconds.
pub open spec fn time_spent(rows: Seq<(u64, SyscallStats)>) -> nat
    decreases rows.len(),
{
    if rows.len() == 0 {
        0
    } else {
        time_spent(rows.drop_last()) + rows.last().1.total_ns as nat
    }
}

/// A syscall stands out: its calls are slow or many, or more than half of the
/// time of all syscalls was spent in it.
pub open spec fn is_notable(stats: SyscallStats, all_ns: nat) -> bool {
    average(stats) > SLOW_NS || stats.count > OFTEN || 2 * stats.total_ns > all_ns
}

/// The row of a syscall with the given name, category and annotation.
pub open spec fn described_row(
    name: Seq<char>,
    category: Seq<char>,
    annotation: Seq<char>,
    stats: SyscallStats,
    all_ns: nat,
) -> RowView {
    RowView {
        cells: seq![
            category,
            name,
            decimal(stats.count as nat),
            micros(stats.total_ns as nat),
            micros(average(stats) as nat),
            annotation,
        ],
        tone: if is_notable(stats, all_ns) {
            Tone::Notable
        } else {
            Tone::Plain
        },
    }
}

/// The row of a syscall.
pub open spec fn syscall_view(row: (u64, SyscallStats), all_ns: nat) -> RowView {
    let shown = shown_name(sysno_name(table_index(row.0)));
    let (category, annotation) = classification(shown);
    described_row(shown, category, annotation, row.1, all_ns)
}

/// The panel of syscalls.
pub open spec fn syscalls_panel(
    target: Seq<char>,
    uptime_secs: u64,
    sort_by: SortBy,
    rows: Seq<(u64, SyscallStats)>,
) -> PanelView {
    PanelView {
        title: "peekbeam — Syscalls"@,
        header: target + "  |  uptime "@ + decimal(uptime_secs as nat) + "s  |  "@ + decimal(
            call_count(rows),
        ) + " syscalls seen  |  sorted by "@ + sort_label(sort_by)
            + " ('s' to toggle, Tab to cycle panels)"@,
        columns: seq![
            "Category"@,
            "Syscall"@,
            "Count"@,
            "Total (us)"@,
            "Avg (us)"@,
            "What it means"@,
        ],
        rows: ranked(rows, |r: (u64, SyscallStats)| sort_key(sort_by, r)).map_values(
            |r: (u64, SyscallStats)| syscall_view(r, time_spent(rows)),
        ),
        footer: "Ctrl+C or 'q' to quit — detaches all probes cleanly"@,
    }
}

/// The row of a connection.
pub open spec fn connection_view(row: (ConnectionKey, ConnectionStats)) -> RowView {
    RowView {
        cells: seq![
            endpoint_text(row.0.family, row.0.saddr@, row.0.sport),
            endpoint_text(row.0.family, row.0.daddr@, row.0.dport),
            name_of_state(row.1.state),
            decimal(row.1.retransmits as nat),
            annotation_of_state(row.1.state),
        ],
        tone: if row.1.retransmits > 0 {
            Tone::Notable
        } else {
            Tone::Plain
        },
    }
}

/// How many of the connections retransmit.
pub open spec fn retransmitting(rows: Seq<(ConnectionKey, ConnectionStats)>) -> nat
    decreases rows.len(),
{
    if rows.len() == 0 {
        0
    } else {
        retransmitting(rows.drop_last()) + (if rows.last().1.retransmits > 0 {
            1nat
        } else {
            0
        })
    }
}

/// The panel of connections.
pub open spec fn network_panel(
    target: Seq<char>,
    uptime_secs: u64,
    rows: Seq<(ConnectionKey, ConnectionStats)>,
) -> PanelView {
    PanelView {
        title: "peekbeam — Network"@,
        header: target + "  |  uptime "@ + decimal(uptime_secs as nat) + "s  |  "@ + decimal(
            rows.len(),
        ) + " connections, "@ + decimal(retransmitting(rows))
            + " retransmitting  |  (Tab to cycle panels)"@,
        columns: seq!["Local"@, "Remote"@, "State"@, "Retransmits"@, "What it means"@],
        rows: ranked(rows, |r: (ConnectionKey, ConnectionStats)| retransmit_key(r)).map_values(
            |r: (ConnectionKey, ConnectionStats)| connection_view(r),
        ),
        footer:
            "Ctrl+C or 'q' to quit — detaches all probes cleanly. Bytes sent/received not available on this host (no kernel BTF for a CO-RE socket-stats read)."@,
    }
}

/// A row of the panel of memory.
pub open spec fn metric(
    name: Seq<char>,
    value: Seq<char>,
    meaning: Seq<char>,
    tone: Tone,
) -> RowView {
    RowView { cells: seq![name, value, meaning], tone }
}

/// How major faults stand out: any of them hints at memory pressure.
pub open spec fn fault_tone(maj_flt: u64) -> Tone {
    if maj_flt > 0 {
        Tone::Notable
    } else {
        Tone::Plain
    }
}

/// The rows on the memory reported, and the line below the table.
pub open spec fn report_view(report: Option<MemReport>) -> (Seq<RowView>, Seq<char>) {
    match report {
        None => (
            Seq::empty(),
            "unavailable: no live processes found for this target (may have exited)"@,
        ),
        Some(
            MemReport::Cgroup {
                current_bytes,
                anon_bytes,
                file_bytes,
                active_anon_bytes,
                inactive_anon_bytes,
            },
        ) => (
            seq![
                metric(
                    "Total (memory.current)"@,
                    size_text(current_bytes as nat),
                    "charged to this cgroup: anon + file cache + kernel structures"@,
                    Tone::Plain,
                ),
                metric(
                    "Anonymous"@,
                    size_text(anon_bytes as nat),
                    "heap/stack memory, not backed by a file"@,
                    Tone::Plain,
                ),
                metric(
                    "File cache"@,
                    size_text(file_bytes as nat),
                    "file-backed memory, reclaimable under pressure"@,
                    Tone::Plain,
                ),
                metric(
                    "Active anon"@,
                    size_text(active_anon_bytes as nat),
                    "anon memory used recently, unlikely to be reclaimed soon"@,
                    Tone::Plain,
                ),
                metric(
                    "Inactive anon"@,
                    size_text(inactive_anon_bytes as nat),
                    "anon memory not used recently, first candidate if swap is needed"@,
                    Tone::Plain,
                ),
            ],
            "Source: cgroup memory controller."@,
        ),
        Some(
            MemReport::Process { rss_bytes, anon_bytes, file_bytes, shmem_bytes, num_processes },
        ) => (
            seq![
                metric(
                    "RSS (VmRSS)"@,
                    size_text(rss_bytes as nat),
                    "resident memory summed across "@ + decimal(num_processes as nat)
                        + " process(es)"@,
                    Tone::Plain,
                ),
                metric(
                    "Anonymous"@,
                    size_text(anon_bytes as nat),
                    "heap/stack memory, not backed by a file"@,
                    Tone::Plain,
                ),
                metric(
                    "File-backed"@,
                    size_text(file_bytes as nat),
                    "mapped/cached file pages, reclaimable under pressure"@,
                    Tone::Plain,
                ),
                metric(
                    "Shared"@,
                    size_text(shmem_bytes as nat),
                    "shared memory (tmpfs, shm segments)"@,
                    Tone::Plain,
                ),
            ],
            "Source: /proc/<pid>/status (cgroup memory controller not delegated on this host)."@,
        ),
    }
}

/// The rows on kernel allocations.
pub open spec fn kernel_view(events: MemEventStats) -> Seq<RowView> {
    seq![
        metric(
            "Kernel allocs"@,
            decimal(events.alloc_count as nat) + " ("@ + size_text(events.alloc_bytes as nat)
                + ")"@,
            "kmalloc calls attributed to this target, and their total requested size"@,
            Tone::Plain,
        ),
        metric(
            "Kernel frees"@,
            decimal(events.free_count as nat),
            "kfree calls attributed to this target"@,
            Tone::Plain,
        ),
    ]
}

/// The rows on page faults, none where they are not known.
pub open spec fn fault_view(faults: Option<FaultCounts>) -> Seq<RowView> {
    match faults {
        None => Seq::empty(),
        Some(f) => seq![
            metric(
                "Minor faults"@,
                decimal(f.min_flt as nat),
                "page already in memory, just needed a new mapping (cheap)"@,
                Tone::Plain,
            ),
            metric(
                "Major faults"@,
                decimal(f.maj_flt as nat),
                "page had to be read from disk/swap (signals memory pressure)"@,
                fault_tone(f.maj_flt),
            ),
        ],
    }
}

/// The panel of memory.
pub open spec fn memory_panel(
    target: Seq<char>,
    uptime_secs: u64,
    report: Option<MemReport>,
    faults: Option<FaultCounts>,
    events: MemEventStats,
) -> PanelView {
    let (rows, footer) = report_view(report);
    PanelView {
        title: "peekbeam — Memory"@,
        header: target + "  |  uptime "@ + decimal(uptime_secs as nat)
            + "s  |  (Tab to cycle panels)"@,
        columns: seq!["Metric"@, "Value"@, "What it means"@],
        rows: rows + kernel_view(events) + fault_view(faults),
        footer,
    }
}

/// The row of a file descriptor.
pub open spec fn file_view(row: ((u32, i32), FileView)) -> RowView {
    RowView {
        cells: seq![
            middle_cut(row.1.path, PATH_WIDTH as nat),
            decimal(row.0.0 as nat) + ":"@ + signed_decimal(row.0.1 as int),
            status_text(row.1.closed),
            size_text(row.1.bytes_read as nat),
            size_text(row.1.bytes_written as nat),
        ],
        tone: if row.1.closed {
            Tone::Plain
        } else {
            Tone::Open
        },
    }
}

/// How many of the files are open.
pub open spec fn open_count(rows: Seq<((u32, i32), FileView)>) -> nat
    decreases rows.len(),
{
    if rows.len() == 0 {
        0
    } else {
        open_count(rows.drop_last()) + (if rows.last().1.closed {
            0nat
        } else {
            1
        })
    }
}

/// The panel of files.
pub open spec fn files_panel(
    target: Seq<char>,
    uptime_secs: u64,
    rows: Seq<((u32, i32), FileView)>,
) -> PanelView {
    PanelView {
        title: "peekbeam — Files"@,
        header: target + "  |  uptime "@ + decimal(uptime_secs as nat) + "s  |  "@ + decimal(
            open_count(rows),
        ) + " open, "@ + decimal(rows.len()) + " total  |  (Tab to cycle panels)"@,
        columns: seq!["Path"@, "pid:fd"@, "Status"@, "Read"@, "Written"@],
        rows: ranked(rows, |r: ((u32, i32), FileView)| volume_key(r)).map_values(
            |r: ((u32, i32), FileView)| file_view(r),
        ),
        footer: "Ctrl+C or 'q' to quit — detaches all probes cleanly. Green = currently open."@,
    }
}

/// A time in nanoseconds as text, in microseconds with two decimals.
fn micros_text(ns: u64) -> (text: String)
    ensures
        text@ == micros(ns as nat),
{
    let mut out = String::new();
    push_micros(&mut out, ns);
    assert(out@ =~= micros(ns as nat));
    out
}

/// The row of a syscall of which is known what to show.
pub fn syscall_row(info: SyscallInfo, stats: SyscallStats, all_ns: u128) -> (row: PanelRow)
    ensures
        row@ == described_row(
            info.name@,
            info.category@,
            info.annotation@,
            stats,
            all_ns as nat,
        ),
{
    let avg: u64 = stats.avg_ns();
    let tone = if avg > SLOW_NS || stats.count > OFTEN || 2 * (stats.total_ns as u128) > all_ns {
        Tone::Notable
    } else {
        Tone::Plain
    };
    let cells: Vec<String> = vec![
        info.category.to_owned(),
        info.name.to_owned(),
        decimal_text(stats.count as u128),
        micros_text(stats.total_ns),
        micros_text(avg),
        info.annotation.to_owned(),
    ];
    let row = PanelRow { cells, tone };
    assert(row@ =~~= described_row(
        info.name@,
        info.category@,
        info.annotation@,
        stats,
        all_ns as nat,
    ));
    row
}

fn count_calls(rows: &Vec<(u64, SyscallStats)>) -> (total: u128)
    ensures
        total == call_count(rows@),
{
    let mut total: u128 = 0;
    let mut i: usize = 0;
    while i < rows.len()
        invariant
            i <= rows@.len(),
            total == call_count(rows@.take(i as int)),
            total <= i * 0xffff_ffff_ffff_ffff,
        decreases rows@.len() - i,
    {
        assert(rows@.take(i + 1).drop_last() =~= rows@.take(i as int));
        assert(rows@.take(i + 1).last() == rows@[i as int]);
        total = total + rows[i].1.count as u128;
        i += 1;
    }
    assert(rows@.take(i as int) =~= rows@);
    total
}

fn sum_times(rows: &Vec<(u64, SyscallStats)>) -> (total: u128)
    ensures
        total == time_spent(rows@),
{
    let mut total: u128 = 0;
    let mut i: usize = 0;
    while i < rows.len()
        invariant
            i <= rows@.len(),
            total == time_spent(rows@.take(i as int)),
            total <= i * 0xffff_ffff_ffff_ffff,
        decreases rows@.len() - i,
    {
        assert(rows@.take(i + 1).drop_last() =~= rows@.take(i as int));
        assert(rows@.take(i + 1).last() == rows@[i as int]);
        total = total + rows[i].1.total_ns as u128;
        i += 1;
    }
    assert(rows@.take(i as int) =~= rows@);
    total
}

/// Lays out the panel of syscalls.
pub fn draw_syscalls(
    target: &str,
    uptime_secs: u64,
    sort_by: SortBy,
    rows: &Vec<(u64, SyscallStats)>,
) -> (panel: Panel)
    ensures
        panel@ == syscalls_panel(target@, uptime_secs, sort_by, rows@),
{
    let ghost key = |r: (u64, SyscallStats)| sort_key(sort_by, r);
    let mut keys: Vec<u128> = Vec::new();
    let mut n: usize = 0;
    while n < rows.len()
        invariant
            n <= rows@.len(),
            keys@.len() == n,
            key == (|r: (u64, SyscallStats)| sort_key(sort_by, r)),
            forall|i: int| 0 <= i < n ==> keys@[i] == rows@.map_values(key)[i],
        decreases rows@.len() - n,
    {
        keys.push(
            match sort_by {
                SortBy::Count => rows[n].1.count as u128,
                SortBy::Time => rows[n].1.total_ns as u128,
            },
        );
        n += 1;
    }
    assert(keys@ =~= rows@.map_values(key));
    let order = rank(&keys);
    let ghost sorted = ranked(rows@, key);
    let all_ns: u128 = sum_times(rows);
    let mut table: Vec<PanelRow> = Vec::new();
    let mut i: usize = 0;
    while i < order.len()
        invariant
            i <= order@.len(),
            table@.len() == i,
            leads_to(order@, rows@, sorted),
            all_ns == time_spent(rows@),
            forall|j: int|
                0 <= j < i ==> (#[trigger] table@[j])@ == syscall_view(sorted[j], all_ns as nat),
        decreases order@.len() - i,
    {
        let (nr, stats) = rows[order[i]];
        let row = syscall_row(lookup(nr), stats, all_ns);
        assert(row@ == syscall_view(sorted[i as int], all_ns as nat));
        table.push(row);
        i += 1;
    }
    let mut header: String = target.to_owned();
    header.append("  |  uptime ");
    push_decimal(&mut header, uptime_secs as u128);
    header.append("s  |  ");
    push_decimal(&mut header, count_calls(rows));
    header.append(" syscalls seen  |  sorted by ");
    header.append(
        match sort_by {
            SortBy::Count => "count",
            SortBy::Time => "total time",
        },
    );
    header.append(" ('s' to toggle, Tab to cycle panels)");
    let columns: Vec<&'static str> = vec![
        "Category",
        "Syscall",
        "Count",
        "Total (us)",
        "Avg (us)",
        "What it means",
    ];
    let panel = Panel {
        title: "peekbeam — Syscalls",
        header,
        columns,
        rows: table,
        footer: "Ctrl+C or 'q' to quit — detaches all probes cleanly",
    };
    proof {
        let view = syscalls_panel(target@, uptime_secs, sort_by, rows@);
        assert(panel@.header =~= view.header);
        assert(panel@.columns =~~= view.columns);
        assert(panel@.rows =~= view.rows);
    }
    panel
}

/// The row of a connection.
pub fn connection_row(key: &ConnectionKey, stats: ConnectionStats) -> (row: PanelRow)
    ensures
        row@ == connection_view((*key, stats)),
{
    let tone = if stats.retransmits > 0 {
        Tone::Notable
    } else {
        Tone::Plain
    };
    let cells: Vec<String> = vec![
        endpoint(key.family, &key.saddr, key.sport),
        endpoint(key.family, &key.daddr, key.dport),
        state_name(stats.state).to_owned(),
        decimal_text(stats.retransmits as u128),
        state_annotation(stats.state).to_owned(),
    ];
    let row = PanelRow { cells, tone };
    assert(row@ =~~= connection_view((*key, stats)));
    row
}

fn count_retransmitting(rows: &Vec<(ConnectionKey, ConnectionStats)>) -> (count: usize)
    ensures
        count == retransmitting(rows@),
{
    let mut count: usize = 0;
    let mut i: usize = 0;
    while i < rows.len()
        invariant
            i <= rows@.len(),
            count == retransmitting(rows@.take(i as int)),
            count <= i,
        decreases rows@.len() - i,
    {
        assert(rows@.take(i + 1).drop_last() =~= rows@.take(i as int));
        assert(rows@.take(i + 1).last() == rows@[i as int]);
        if rows[i].1.retransmits > 0 {
            count += 1;
        }
        i += 1;
    }
    assert(rows@.take(i as int) =~= rows@);
    count
}

/// Lays out the panel of connections.
pub fn draw_network(
    target: &str,
    uptime_secs: u64,
    rows: &Vec<(ConnectionKey, ConnectionStats)>,
) -> (panel: Panel)
    ensures
        panel@ == network_panel(target@, uptime_secs, rows@),
{
    let order = connection_order(rows);
    let ghost sorted = ranked(rows@, |r: (ConnectionKey, ConnectionStats)| retransmit_key(r));
    let mut table: Vec<PanelRow> = Vec::new();
    let mut i: usize = 0;
    while i < order.len()
        invariant
            i <= order@.len(),
            table@.len() == i,
            leads_to(order@, rows@, sorted),
            forall|j: int| 0 <= j < i ==> (#[trigger] table@[j])@ == connection_view(sorted[j]),
        decreases order@.len() - i,
    {
        let (k, stats) = rows[order[i]];
        table.push(connection_row(&k, stats));
        i += 1;
    }
    let mut header: String = target.to_owned();
    header.append("  |  uptime ");
    push_decimal(&mut header, uptime_secs as u128);
    header.append("s  |  ");
    push_decimal(&mut header, rows.len() as u128);
    header.append(" connections, ");
    push_decimal(&mut header, count_retransmitting(rows) as u128);
    header.append(" retransmitting  |  (Tab to cycle panels)");
    let columns: Vec<&'static str> = vec!["Local", "Remote", "State", "Retransmits", "What it means"];
    let panel = Panel {
        title: "peekbeam — Network",
        header,
        columns,
        rows: table,
        footer:
            "Ctrl+C or 'q' to quit — detaches all probes cleanly. Bytes sent/received not available on this host (no kernel BTF for a CO-RE socket-stats read).",
    };
    proof {
        let view = network_panel(target@, uptime_secs, rows@);
        assert(panel@.header =~= view.header);
        assert(panel@.columns =~~= view.columns);
        assert(panel@.rows =~= view.rows);
    }
    panel
}

fn metric_row(name: &str, value: String, meaning: &str, tone: Tone) -> (row: PanelRow)
    ensures
        row@ == metric(name@, value@, meaning@, tone),
{
    let cells: Vec<String> = vec![name.to_owned(), value, meaning.to_owned()];
    let row = PanelRow { cells, tone };
    assert(row@ =~~= metric(name@, value@, meaning@, tone));
    row
}

fn cgroup_rows(
    current_bytes: u64,
    anon_bytes: u64,
    file_bytes: u64,
    active_anon_bytes: u64,
    inactive_anon_bytes: u64,
) -> (rows: Vec<PanelRow>)
    ensures
        row_views(rows@) == report_view(
            Some(
                MemReport::Cgroup {
                    current_bytes,
                    anon_bytes,
                    file_bytes,
                    active_anon_bytes,
                    inactive_anon_bytes,
                },
            ),
        ).0,
{
    let total = metric_row(
        "Total (memory.current)",
        format_bytes(current_bytes),
        "charged to this cgroup: anon + file cache + kernel structures",
        Tone::Plain,
    );
    let anon = metric_row(
        "Anonymous",
        format_bytes(anon_bytes),
        "heap/stack memory, not backed by a file",
        Tone::Plain,
    );
    let file = metric_row(
        "File cache",
        format_bytes(file_bytes),
        "file-backed memory, reclaimable under pressure",
        Tone::Plain,
    );
    let active = metric_row(
        "Active anon",
        format_bytes(active_anon_bytes),
        "anon memory used recently, unlikely to be reclaimed soon",
        Tone::Plain,
    );
    let inactive = metric_row(
        "Inactive anon",
        format_bytes(inactive_anon_bytes),
        "anon memory not used recently, first candidate if swap is needed",
        Tone::Plain,
    );
    let ghost views = seq![total@, anon@, file@, active@, inactive@];
    let rows: Vec<PanelRow> = vec![total, anon, file, active, inactive];
    assert(row_views(rows@) =~= views);
    rows
}

fn process_rows(
    rss_bytes: u64,
    anon_bytes: u64,
    file_bytes: u64,
    shmem_bytes: u64,
    num_processes: usize,
) -> (rows: Vec<PanelRow>)
    ensures
        row_views(rows@) == report_view(
            Some(
                MemReport::Process {
                    rss_bytes,
                    anon_bytes,
                    file_bytes,
                    shmem_bytes,
                    num_processes,
                },
            ),
        ).0,
{
    let mut across: String = "resident memory summed across ".to_owned();
    push_decimal(&mut across, num_processes as u128);
    across.append(" process(es)");
    let rss = metric_row("RSS (VmRSS)", format_bytes(rss_bytes), across.as_str(), Tone::Plain);
    let anon = metric_row(
        "Anonymous",
        format_bytes(anon_bytes),
        "heap/stack memory, not backed by a file",
        Tone::Plain,
    );
    let file = metric_row(
        "File-backed",
        format_bytes(file_bytes),
        "mapped/cached file pages, reclaimable under pressure",
        Tone::Plain,
    );
    let shared = metric_row(
        "Shared",
        format_bytes(shmem_bytes),
        "shared memory (tmpfs, shm segments)",
        Tone::Plain,
    );
    let ghost views = seq![rss@, anon@, file@, shared@];
    let rows: Vec<PanelRow> = vec![rss, anon, file, shared];
    assert(row_views(rows@) =~= views);
    rows
}

/// The rows on the memory reported, and the line below the table.
pub fn report_rows(report: &Option<MemReport>) -> (shown: (Vec<PanelRow>, &'static str))
    ensures
        row_views(shown.0@) == report_view(*report).0,
        shown.1@ == report_view(*report).1,
{
    match *report {
        None => {
            let rows: Vec<PanelRow> = Vec::new();
            assert(row_views(rows@) =~= Seq::empty());
            (rows, "unavailable: no live processes found for this target (may have exited)")
        },
        Some(MemReport::Cgroup {
            current_bytes,
            anon_bytes,
            file_bytes,
            active_anon_bytes,
            inactive_anon_bytes,
        }) => {
            let rows = cgroup_rows(
                current_bytes,
                anon_bytes,
                file_bytes,
                active_anon_bytes,
                inactive_anon_bytes,
            );
            (rows, "Source: cgroup memory controller.")
        },
        Some(MemReport::Process {
            rss_bytes,
            anon_bytes,
            file_bytes,
            shmem_bytes,
            num_processes,
        }) => {
            let rows = process_rows(rss_bytes, anon_bytes, file_bytes, shmem_bytes, num_processes);
            (
                rows,
                "Source: /proc/<pid>/status (cgroup memory controller not delegated on this host).",
            )
        },
    }
}

fn push_row(rows: &mut Vec<PanelRow>, row: PanelRow)
    ensures
        row_views(final(rows)@) == row_views(old(rows)@).push(row@),
{
    let ghost before = rows@;
    rows.push(row);
    assert(row_views(rows@) =~= row_views(before).push(row@));
}

fn push_kernel(rows: &mut Vec<PanelRow>, events: MemEventStats)
    ensures
        row_views(final(rows)@) == row_views(old(rows)@) + kernel_view(events),
{
    let ghost before = row_views(rows@);
    let mut allocs: String = decimal_text(events.alloc_count as u128);
    allocs.append(" (");
    push_bytes_text(&mut allocs, events.alloc_bytes);
    allocs.append(")");
    let allocated = metric_row(
        "Kernel allocs",
        allocs,
        "kmalloc calls attributed to this target, and their total requested size",
        Tone::Plain,
    );
    let freed = metric_row(
        "Kernel frees",
        decimal_text(events.free_count as u128),
        "kfree calls attributed to this target",
        Tone::Plain,
    );
    let ghost views = seq![allocated@, freed@];
    push_row(rows, allocated);
    push_row(rows, freed);
    assert(row_views(rows@) =~= before + views);
}

fn push_faults(rows: &mut Vec<PanelRow>, faults: &Option<FaultCounts>)
    ensures
        row_views(final(rows)@) == row_views(old(rows)@) + fault_view(*faults),
{
    let ghost before = row_views(rows@);
    match faults {
        None => {
            assert(row_views(rows@) =~= before + Seq::empty());
        },
        Some(f) => {
            let minor = metric_row(
                "Minor faults",
                decimal_text(f.min_flt as u128),
                "page already in memory, just needed a new mapping (cheap)",
                Tone::Plain,
            );
            let major = metric_row(
                "Major faults",
                decimal_text(f.maj_flt as u128),
                "page had to be read from disk/swap (signals memory pressure)",
                if f.maj_flt > 0 {
                    Tone::Notable
                } else {
                    Tone::Plain
                },
            );
            let ghost views = seq![minor@, major@];
            push_row(rows, minor);
            push_row(rows, major);
            assert(row_views(rows@) =~= before + views);
        },
    }
}

/// Lays out the panel of memory.
pub fn draw_memory(
    target: &str,
    uptime_secs: u64,
    report: &Option<MemReport>,
    faults: &Option<FaultCounts>,
    events: MemEventStats,
) -> (panel: Panel)
    ensures
        panel@ == memory_panel(target@, uptime_secs, *report, *faults, events),
{
    let (mut rows, footer) = report_rows(report);
    push_kernel(&mut rows, events);
    push_faults(&mut rows, faults);
    let mut header: String = target.to_owned();
    header.append("  |  uptime ");
    push_decimal(&mut header, uptime_secs as u128);
    header.append("s  |  (Tab to cycle panels)");
    let columns: Vec<&'static str> = vec!["Metric", "Value", "What it means"];
    let panel = Panel { title: "peekbeam — Memory", header, columns, rows, footer };
    assert(panel@.columns =~= seq!["Metric"@, "Value"@, "What it means"@]);
    panel
}

/// The row of a file descriptor.
pub fn file_row(key: (u32, i32), stats: &FileStats) -> (row: PanelRow)
    ensures
        row@ == file_view((key, stats@)),
{
    let tone = if stats.closed {
        Tone::Plain
    } else {
        Tone::Open
    };
    let mut pid_fd: String = decimal_text(key.0 as u128);
    pid_fd.append(":");
    push_signed_decimal(&mut pid_fd, key.1);
    let cells: Vec<String> = vec![
        truncate_middle(stats.path.as_str(), PATH_WIDTH),
        pid_fd,
        status_name(stats.closed).to_owned(),
        format_bytes(stats.bytes_read),
        format_bytes(stats.bytes_written),
    ];
    let row = PanelRow { cells, tone };
    assert(row@ =~~= file_view((key, stats@)));
    row
}

fn count_open(rows: &Vec<((u32, i32), FileStats)>) -> (count: usize)
    ensures
        count == open_count(file_rows(rows@)),
{
    let ghost shown = file_rows(rows@);
    let mut count: usize = 0;
    let mut i: usize = 0;
    while i < rows.len()
        invariant
            i <= rows@.len(),
            shown == file_rows(rows@),
            count == open_count(shown.take(i as int)),
            count <= i,
        decreases rows@.len() - i,
    {
        assert(shown.take(i + 1).drop_last() =~= shown.take(i as int));
        assert(shown.take(i + 1).last() == shown[i as int]);
        if !rows[i].1.closed {
            count += 1;
        }
        i += 1;
    }
    assert(shown.take(i as int) =~= shown);
    count
}

/// Lays out the panel of files.
pub fn draw_files(
    target: &str,
    uptime_secs: u64,
    rows: &Vec<((u32, i32), FileStats)>,
) -> (panel: Panel)
    ensures
        panel@ == files_panel(target@, uptime_secs, file_rows(rows@)),
{
    let order = file_order(rows);
    let ghost shown = file_rows(rows@);
    let ghost sorted = ranked(shown, |r: ((u32, i32), FileView)| volume_key(r));
    let mut table: Vec<PanelRow> = Vec::new();
    let mut i: usize = 0;
    while i < order.len()
        invariant
            i <= order@.len(),
            table@.len() == i,
            shown == file_rows(rows@),
            leads_to(order@, shown, sorted),
            forall|j: int| 0 <= j < i ==> (#[trigger] table@[j])@ == file_view(sorted[j]),
        decreases order@.len() - i,
    {
        let row = &rows[order[i]];
        let laid = file_row(row.0, &row.1);
        assert(laid@ == file_view(sorted[i as int]));
        table.push(laid);
        i += 1;
    }
    let mut header: String = target.to_owned();
    header.append("  |  uptime ");
    push_decimal(&mut header, uptime_secs as u128);
    header.append("s  |  ");
    push_decimal(&mut header, count_open(rows) as u128);
    header.append(" open, ");
    push_decimal(&mut header, rows.len() as u128);
    header.append(" total  |  (Tab to cycle panels)");
    let columns: Vec<&'static str> = vec!["Path", "pid:fd", "Status", "Read", "Written"];
    let panel = Panel {
        title: "peekbeam — Files",
        header,
        columns,
        rows: table,
        footer: "Ctrl+C or 'q' to quit — detaches all probes cleanly. Green = currently open.",
    };
    proof {
        let view = files_panel(target@, uptime_secs, shown);
        assert(panel@.header =~= view.header);
        assert(panel@.columns =~~= view.columns);
        assert(panel@.rows =~= view.rows);
    }
    panel
}

/// Four times Tab leads back to the panel it started from, past all the
/// others.
pub proof fn tab_cycles_through_the_panels(pane: Pane)
    ensures
        next_pane(next_pane(next_pane(next_pane(pane)))) == pane,
        next_pane(pane) != pane,
        next_pane(next_pane(pane)) != pane,
        next_pane(next_pane(next_pane(pane))) != pane,
{
}

/// Toggling the order twice changes nothing.
pub proof fn toggling_twice_changes_nothing(s: Session, input: KeyInput)
    requires
        input.key == Key::Char('s'),
    ensures
        after_input(after_input(s, input), input) == s,
{
}

/// Letting a key go does nothing.
pub proof fn releases_do_nothing(s: Session, input: KeyInput)
    requires
        !input.pressed,
    ensures
        !quits(input),
        after_input(s, input) == s,
{
}

/// The order is only toggled where it is shown.
pub proof fn other_panels_keep_the_order(s: Session, input: KeyInput)
    requires
        s.pane != Pane::Syscalls,
    ensures
        after_input(s, input).sort_by == s.sort_by,
{
}

/// What is done answers what was to be done.
pub open spec fn is_done(work: Work, done: Done) -> bool {
    match work {
        Work::Listen => done is Listened,
        Work::Poll => done is Polled,
        Work::Draw => done is Drawn,
        Work::Quit => false,
    }
}

/// Where the loop stands after everything that was done since it started.
pub open spec fn loop_after(trail: Seq<Done>) -> (Session, Work)
    decreases trail.len(),
{
    if trail.len() == 0 {
        (Session { pane: Pane::Syscalls, sort_by: SortBy::Time }, Work::Listen)
    } else {
        work_after(loop_after(trail.drop_last()).0, trail.last())
    }
}

/// The loop did what was to be done, each time.
pub open spec fn is_trail(trail: Seq<Done>) -> bool
    decreases trail.len(),
{
    trail.len() > 0 ==> {
        &&& is_trail(trail.drop_last())
        &&& is_done(loop_after(trail.drop_last()).1, trail.last())
    }
}

/// A press of the key was heard.
pub open spec fn heard(done: Done, key: Key) -> bool {
    done matches Done::Listened { input: Some(i), .. } && i.pressed && i.key == key
}

/// How often Tab was pressed.
pub open spec fn tabs(trail: Seq<Done>) -> nat
    decreases trail.len(),
{
    if trail.len() == 0 {
        0
    } else {
        tabs(trail.drop_last()) + (if heard(trail.last(), Key::Tab) {
            1nat
        } else {
            0
        })
    }
}

/// The panel that stands at a place in the cycle.
pub open spec fn pane_at(n: nat) -> Pane {
    if n % 4 == 0 {
        Pane::Syscalls
    } else if n % 4 == 1 {
        Pane::Network
    } else if n % 4 == 2 {
        Pane::Memory
    } else {
        Pane::Files
    }
}

/// How often the key for the order was pressed while the syscalls were shown.
pub open spec fn toggles(trail: Seq<Done>) -> nat
    decreases trail.len(),
{
    if trail.len() == 0 {
        0
    } else {
        let before = trail.drop_last();
        toggles(before) + (if heard(trail.last(), Key::Char('s')) && pane_at(tabs(before))
            == Pane::Syscalls {
            1nat
        } else {
            0
        })
    }
}

/// The panel shown follows from how often Tab was pressed, and the order of the
/// syscalls from how often it was toggled where it is shown.
pub proof fn keys_lead_to_the_panel(trail: Seq<Done>)
    requires
        is_trail(trail),
        loop_after(trail).1 != Work::Quit,
    ensures
        loop_after(trail).0.pane == pane_at(tabs(trail)),
        loop_after(trail).0.sort_by == (if toggles(trail) % 2 == 0 {
            SortBy::Time
        } else {
            SortBy::Count
        }),
    decreases trail.len(),
{
    if trail.len() > 0 {
        keys_lead_to_the_panel(trail.drop_last());
    }
}

/// The loop ends at the first request to end or key that quits, and at nothing
/// else.
pub proof fn sessions_end_when_asked(trail: Seq<Done>)
    requires
        is_trail(trail),
        trail.len() > 0,
    ensures
        loop_after(trail).1 == Work::Quit <==> match trail.last() {
            Done::Listened { requested, input } => requested || (input matches Some(i) && quits(i)),
            _ => false,
        },
        loop_after(trail.drop_last()).1 != Work::Quit,
{
}

/// How often the loop has listened.
pub open spec fn listened(trail: Seq<Done>) -> nat {
    trail.filter(|d: Done| d is Listened).len()
}

/// How often the loop has polled.
pub open spec fn polled(trail: Seq<Done>) -> nat {
    trail.filter(|d: Done| d is Polled).len()
}

/// The events are polled once in each round, and right before every drawing; in
/// the round that ends the loop nothing is polled or drawn.
pub proof fn panels_show_polled_events(trail: Seq<Done>)
    requires
        is_trail(trail),
    ensures
        loop_after(trail).1 == Work::Draw ==> trail.last() is Polled,
        listened(trail) == polled(trail) + (if loop_after(trail).1 == Work::Poll || loop_after(
            trail,
        ).1 == Work::Quit {
            1nat
        } else {
            0
        }),
    decreases trail.len(),
{
    reveal(Seq::filter);
    if trail.len() > 0 {
        panels_show_polled_events(trail.drop_last());
    }
}

/// The time and the number of all calls are the sums of those of the rows.
pub proof fn totals_grow_by_each_row(rows: Seq<(u64, SyscallStats)>, row: (u64, SyscallStats))
    ensures
        time_spent(Seq::empty()) == 0,
        call_count(Seq::empty()) == 0,
        time_spent(rows.push(row)) == time_spent(rows) + row.1.total_ns,
        call_count(rows.push(row)) == call_count(rows) + row.1.count,
{
    assert(rows.push(row).drop_last() =~= rows);
}

/// The panel of syscalls shows each once. By time, a row further down took no
/// longer in total; by count, it was called no more often. Slow syscalls,
/// frequent ones, and one that took more than half of all the time stand out.
/// The rows in the order shown are returned.
pub proof fn syscalls_are_shown_in_order(
    target: Seq<char>,
    uptime_secs: u64,
    sort_by: SortBy,
    rows: Seq<(u64, SyscallStats)>,
) -> (sorted: Seq<(u64, SyscallStats)>)
    requires
        rows.len() <= usize::MAX,
    ensures
        ({
            let panel = syscalls_panel(target, uptime_secs, sort_by, rows);
            &&& sorted.to_multiset() == rows.to_multiset()
            &&& panel.rows.len() == sorted.len() == rows.len()
            &&& sort_by == SortBy::Time ==> forall|i: int, j: int|
                0 <= i < j < sorted.len() ==> (#[trigger] sorted[i]).1.total_ns >= (
                #[trigger] sorted[j]).1.total_ns
            &&& sort_by == SortBy::Count ==> forall|i: int, j: int|
                0 <= i < j < sorted.len() ==> (#[trigger] sorted[i]).1.count >= (
                #[trigger] sorted[j]).1.count
            &&& forall|i: int|
                0 <= i < sorted.len() ==> {
                    let row = #[trigger] panel.rows[i];
                    let (nr, stats) = sorted[i];
                    let name = shown_name(sysno_name(table_index(nr)));
                    &&& row.cells.len() == 6
                    &&& row.cells[0] == classification(name).0
                    &&& row.cells[1] == name
                    &&& row.cells[2] == decimal(stats.count as nat)
                    &&& row.cells[3] == micros(stats.total_ns as nat)
                    &&& row.cells[4] == micros(average(stats) as nat)
                    &&& row.cells[5] == classification(name).1
                    &&& row.tone == Tone::Notable <==> average(stats) > 10_000_000 || stats.count
                        > 10_000 || stats.total_ns > time_spent(rows) - stats.total_ns
                    &&& row.tone != Tone::Open
                }
        }),
{
    let key = |r: (u64, SyscallStats)| sort_key(sort_by, r);
    let sorted = ranked(rows, key);
    ranking_exists(rows.map_values(key));
    ranking_keeps_the_rows(rows, key);
    assert forall|i: int, j: int| 0 <= i < j < sorted.len() implies sort_key(
        sort_by,
        #[trigger] sorted[i],
    ) >= sort_key(sort_by, #[trigger] sorted[j]) by {
        ranked_rows_descend(rows, key, i, j);
    }
    sorted
}

/// The panel of syscalls says how many calls were seen, and by what they are
/// sorted.
pub proof fn the_syscall_header_tells_the_order(
    target: Seq<char>,
    uptime_secs: u64,
    rows: Seq<(u64, SyscallStats)>,
)
    ensures
        ({
            let head = target + "  |  uptime "@ + decimal(uptime_secs as nat) + "s  |  "@ + decimal(
                call_count(rows),
            ) + " syscalls seen  |  sorted by "@;
            let tail = " ('s' to toggle, Tab to cycle panels)"@;
            &&& syscalls_panel(target, uptime_secs, SortBy::Count, rows).header == head + "count"@
                + tail
            &&& syscalls_panel(target, uptime_secs, SortBy::Time, rows).header == head
                + "total time"@ + tail
        }),
{
}

/// The panel of connections shows each once, those with the most retransmits
/// first, and sets off every one that has any. The rows in the order shown are
/// returned.
pub proof fn connections_are_shown_in_order(
    target: Seq<char>,
    uptime_secs: u64,
    rows: Seq<(ConnectionKey, ConnectionStats)>,
) -> (sorted: Seq<(ConnectionKey, ConnectionStats)>)
    requires
        rows.len() <= usize::MAX,
    ensures
        ({
            let panel = network_panel(target, uptime_secs, rows);
            &&& sorted.to_multiset() == rows.to_multiset()
            &&& panel.rows.len() == sorted.len() == rows.len()
            &&& forall|i: int, j: int|
                0 <= i < j < sorted.len() ==> (#[trigger] sorted[i]).1.retransmits >= (
                #[trigger] sorted[j]).1.retransmits
            &&& forall|i: int|
                0 <= i < sorted.len() ==> {
                    let row = #[trigger] panel.rows[i];
                    let (k, c) = sorted[i];
                    &&& row.cells.len() == 5
                    &&& row.cells[0] == address_text(k.family, k.saddr@) + ":"@ + decimal(
                        k.sport as nat,
                    )
                    &&& row.cells[1] == address_text(k.family, k.daddr@) + ":"@ + decimal(
                        k.dport as nat,
                    )
                    &&& row.cells[2] == name_of_state(c.state)
                    &&& row.cells[3] == decimal(c.retransmits as nat)
                    &&& row.cells[4] == annotation_of_state(c.state)
                    &&& c.retransmits > 0 ==> row.tone == Tone::Notable
                    &&& c.retransmits == 0 ==> row.tone == Tone::Plain
                }
            &&& panel.header == target + "  |  uptime "@ + decimal(uptime_secs as nat) + "s  |  "@
                + decimal(rows.len()) + " connections, "@ + decimal(retransmitting(rows))
                + " retransmitting  |  (Tab to cycle panels)"@
        }),
{
    let key = |r: (ConnectionKey, ConnectionStats)| retransmit_key(r);
    let sorted = ranked(rows, key);
    ranking_exists(rows.map_values(key));
    ranking_keeps_the_rows(rows, key);
    assert forall|i: int, j: int| 0 <= i < j < sorted.len() implies (
    #[trigger] sorted[i]).1.retransmits >= (#[trigger] sorted[j]).1.retransmits by {
        ranked_rows_descend(rows, key, i, j);
    }
    sorted
}

/// The panel of files shows each once, those that moved the most bytes first,
/// and sets off the open ones. The rows in the order shown are returned.
pub proof fn files_are_shown_in_order(
    target: Seq<char>,
    uptime_secs: u64,
    rows: Seq<((u32, i32), FileView)>,
) -> (sorted: Seq<((u32, i32), FileView)>)
    requires
        rows.len() <= usize::MAX,
    ensures
        ({
            let panel = files_panel(target, uptime_secs, rows);
            &&& sorted.to_multiset() == rows.to_multiset()
            &&& panel.rows.len() == sorted.len() == rows.len()
            &&& forall|i: int, j: int|
                0 <= i < j < sorted.len() ==> (#[trigger] sorted[i]).1.bytes_read
                    + sorted[i].1.bytes_written >= (#[trigger] sorted[j]).1.bytes_read
                    + sorted[j].1.bytes_written
            &&& forall|i: int|
                0 <= i < sorted.len() ==> {
                    let row = #[trigger] panel.rows[i];
                    let (k, f) = sorted[i];
                    &&& row.cells.len() == 5
                    &&& row.cells[0] == middle_cut(f.path, 50)
                    &&& row.cells[1] == decimal(k.0 as nat) + ":"@ + signed_decimal(k.1 as int)
                    &&& row.cells[2] == if f.closed {
                        "closed"@
                    } else {
                        "open"@
                    }
                    &&& row.cells[3] == size_text(f.bytes_read as nat)
                    &&& row.cells[4] == size_text(f.bytes_written as nat)
                    &&& f.closed ==> row.tone == Tone::Plain
                    &&& !f.closed ==> row.tone == Tone::Open
                }
            &&& panel.header == target + "  |  uptime "@ + decimal(uptime_secs as nat) + "s  |  "@
                + decimal(open_count(rows)) + " open, "@ + decimal(rows.len())
                + " total  |  (Tab to cycle panels)"@
        }),
{
    let key = |r: ((u32, i32), FileView)| volume_key(r);
    let sorted = ranked(rows, key);
    ranking_exists(rows.map_values(key));
    ranking_keeps_the_rows(rows, key);
    assert forall|i: int, j: int| 0 <= i < j < sorted.len() implies (
    #[trigger] sorted[i]).1.bytes_read + sorted[i].1.bytes_written >= (
    #[trigger] sorted[j]).1.bytes_read + sorted[j].1.bytes_written by {
        ranked_rows_descend(rows, key, i, j);
    }
    sorted
}

/// Retransmitting connections and open files are counted one by one.
pub proof fn counts_grow_by_each_row(
    a: Seq<(ConnectionKey, ConnectionStats)>,
    c: (ConnectionKey, ConnectionStats),
    b: Seq<((u32, i32), FileView)>,
    f: ((u32, i32), FileView),
)
    ensures
        retransmitting(Seq::empty()) == 0,
        c.1.retransmits > 0 ==> retransmitting(a.push(c)) == retransmitting(a) + 1,
        c.1.retransmits == 0 ==> retransmitting(a.push(c)) == retransmitting(a),
        open_count(Seq::empty()) == 0,
        f.1.closed ==> open_count(b.push(f)) == open_count(b),
        !f.1.closed ==> open_count(b.push(f)) == open_count(b) + 1,
{
    assert(a.push(c).drop_last() =~= a);
    assert(b.push(f).drop_last() =~= b);
}

/// The row says these three things, and stands out or not.
pub open spec fn says(
    row: RowView,
    name: Seq<char>,
    value: Seq<char>,
    meaning: Seq<char>,
    notable: bool,
) -> bool {
    &&& row.cells == seq![name, value, meaning]
    &&& row.tone == (if notable {
        Tone::Notable
    } else {
        Tone::Plain
    })
}

/// The panel of memory gives each figure under its name: those of the report,
/// then those of the kernel, then the faults, where each is known. Major faults
/// stand out, if there are any.
pub proof fn memory_is_shown_figure_by_figure(
    target: Seq<char>,
    uptime_secs: u64,
    report: Option<MemReport>,
    faults: Option<FaultCounts>,
    events: MemEventStats,
)
    ensures
        ({
            let panel = memory_panel(target, uptime_secs, report, faults, events);
            let rows = panel.rows;
            let n: int = match report {
                None => 0,
                Some(MemReport::Cgroup { .. }) => 5,
                Some(MemReport::Process { .. }) => 4,
            };
            &&& panel.header == target + "  |  uptime "@ + decimal(uptime_secs as nat)
                + "s  |  (Tab to cycle panels)"@
            &&& rows.len() == n + 2 + (if faults is Some {
                2int
            } else {
                0
            })
            &&& report is None ==> panel.footer
                == "unavailable: no live processes found for this target (may have exited)"@
            &&& report matches Some(r) ==> r is Cgroup ==> {
                &&& panel.footer == "Source: cgroup memory controller."@
                &&& says(
                    rows[0],
                    "Total (memory.current)"@,
                    size_text(r->current_bytes as nat),
                    "charged to this cgroup: anon + file cache + kernel structures"@,
                    false,
                )
                &&& says(
                    rows[1],
                    "Anonymous"@,
                    size_text(r->Cgroup_anon_bytes as nat),
                    "heap/stack memory, not backed by a file"@,
                    false,
                )
                &&& says(
                    rows[2],
                    "File cache"@,
                    size_text(r->Cgroup_file_bytes as nat),
                    "file-backed memory, reclaimable under pressure"@,
                    false,
                )
                &&& says(
                    rows[3],
                    "Active anon"@,
                    size_text(r->active_anon_bytes as nat),
                    "anon memory used recently, unlikely to be reclaimed soon"@,
                    false,
                )
                &&& says(
                    rows[4],
                    "Inactive anon"@,
                    size_text(r->inactive_anon_bytes as nat),
                    "anon memory not used recently, first candidate if swap is needed"@,
                    false,
                )
            }
            &&& report matches Some(r) ==> r is Process ==> {
                &&& panel.footer
                    == "Source: /proc/<pid>/status (cgroup memory controller not delegated on this host)."@
                &&& says(
                    rows[0],
                    "RSS (VmRSS)"@,
                    size_text(r->rss_bytes as nat),
                    "resident memory summed across "@ + decimal(r->num_processes as nat)
                        + " process(es)"@,
                    false,
                )
                &&& says(
                    rows[1],
                    "Anonymous"@,
                    size_text(r->Process_anon_bytes as nat),
                    "heap/stack memory, not backed by a file"@,
                    false,
                )
                &&& says(
                    rows[2],
                    "File-backed"@,
                    size_text(r->Process_file_bytes as nat),
                    "mapped/cached file pages, reclaimable under pressure"@,
                    false,
                )
                &&& says(
                    rows[3],
                    "Shared"@,
                    size_text(r->shmem_bytes as nat),
                    "shared memory (tmpfs, shm segments)"@,
                    false,
                )
            }
            &&& says(
                rows[n],
                "Kernel allocs"@,
                decimal(events.alloc_count as nat) + " ("@ + size_text(events.alloc_bytes as nat)
                    + ")"@,
                "kmalloc calls attributed to this target, and their total requested size"@,
                false,
            )
            &&& says(
                rows[n + 1],
                "Kernel frees"@,
                decimal(events.free_count as nat),
                "kfree calls attributed to this target"@,
                false,
            )
            &&& faults matches Some(f) ==> {
                &&& says(
                    rows[n + 2],
                    "Minor faults"@,
                    decimal(f.min_flt as nat),
                    "page already in memory, just needed a new mapping (cheap)"@,
                    false,
                )
                &&& says(
                    rows[n + 3],
                    "Major faults"@,
                    decimal(f.maj_flt as nat),
                    "page had to be read from disk/swap (signals memory pressure)"@,
                    f.maj_flt > 0,
                )
            }
        }),
{
    let rows = memory_panel(target, uptime_secs, report, faults, events).rows;
    let reported = report_view(report).0;
    let n = reported.len() as int;
    assert(forall|i: int| 0 <= i < n ==> rows[i] == reported[i]);
    assert(rows[n] == kernel_view(events)[0] && rows[n + 1] == kernel_view(events)[1]);
    if faults is Some {
        assert(rows[n + 2] == fault_view(faults)[0] && rows[n + 3] == fault_view(faults)[1]);
    }
}

/// Each panel has its own title, columns and last line.
pub proof fn panels_have_their_frames(
    target: Seq<char>,
    uptime_secs: u64,
    sort_by: SortBy,
    a: Seq<(u64, SyscallStats)>,
    b: Seq<(ConnectionKey, ConnectionStats)>,
    c: Seq<((u32, i32), FileView)>,
    report: Option<MemReport>,
    faults: Option<FaultCounts>,
    events: MemEventStats,
)
    ensures
        ({
            let p = syscalls_panel(target, uptime_secs, sort_by, a);
            &&& p.title == "peekbeam — Syscalls"@
            &&& p.columns == seq![
                "Category"@,
                "Syscall"@,
                "Count"@,
                "Total (us)"@,
                "Avg (us)"@,
                "What it means"@,
            ]
            &&& p.footer == "Ctrl+C or 'q' to quit — detaches all probes cleanly"@
        }),
        ({
            let p = network_panel(target, uptime_secs, b);
            &&& p.title == "peekbeam — Network"@
            &&& p.columns == seq!["Local"@, "Remote"@, "State"@, "Retransmits"@, "What it means"@]
            &&& p.footer
                == "Ctrl+C or 'q' to quit — detaches all probes cleanly. Bytes sent/received not available on this host (no kernel BTF for a CO-RE socket-stats read)."@
        }),
        ({
            let p = files_panel(target, uptime_secs, c);
            &&& p.title == "peekbeam — Files"@
            &&& p.columns == seq!["Path"@, "pid:fd"@, "Status"@, "Read"@, "Written"@]
            &&& p.footer
                == "Ctrl+C or 'q' to quit — detaches all probes cleanly. Green = currently open."@
        }),
        ({
            let p = memory_panel(target, uptime_secs, report, faults, events);
            p.title == "peekbeam — Memory"@ && p.columns == seq![
                "Metric"@,
                "Value"@,
                "What it means"@,
            ]
        }),
{
}

/// A press of `q` or Esc ends the session, and so does `c` with control held;
/// nothing else does.
pub proof fn few_keys_end_the_session(s: Session, input: KeyInput)
    ensures
        session_after(s, false, Some(input)) is None <==> input.pressed && match input.key {
            Key::Char(c) => c == 'q' || (c == 'c' && input.control),
            Key::Esc => true,
            Key::Tab => false,
            Key::Other => false,
        },
        session_after(s, true, Some(input)) is None,
        session_after(s, true, None) is None,
        session_after(s, false, None) == Some(s),
{
}

/// A press of Tab shows the next panel, in the order syscalls, network, memory,
/// files, and then the first again; a press of `s` turns the order of the
/// syscalls round where they are shown. No other key changes what is shown.
pub proof fn keys_change_what_they_are_for(s: Session, input: KeyInput)
    requires
        session_after(s, false, Some(input)) is Some,
    ensures
        ({
            let next = session_after(s, false, Some(input))->0;
            let tab = input.pressed && input.key == Key::Tab;
            let toggle = input.pressed && input.key == Key::Char('s') && s.pane == Pane::Syscalls;
            &&& !tab ==> next.pane == s.pane
            &&& tab && s.pane == Pane::Syscalls ==> next.pane == Pane::Network
            &&& tab && s.pane == Pane::Network ==> next.pane == Pane::Memory
            &&& tab && s.pane == Pane::Memory ==> next.pane == Pane::Files
            &&& tab && s.pane == Pane::Files ==> next.pane == Pane::Syscalls
            &&& toggle <==> next.sort_by != s.sort_by
        }),
{
}

/// After the events were polled, the panel is drawn once the interval since the
/// last drawing is over, and not before; after that the loop listens again. What
/// is shown changes by neither.
pub proof fn panels_are_drawn_at_their_interval(s: Session, since_draw: u128, refresh: u128)
    ensures
        work_after(s, Done::Polled { since_draw, refresh }) == (
            s,
            if since_draw < refresh {
                Work::Listen
            } else {
                Work::Draw
            },
        ),
        work_after(s, Done::Drawn) == (s, Work::Listen),
{
}

/// What is said of a panel holds of the text that is drawn: row by row in the
/// same order, and in each row cell by cell.
pub proof fn panels_are_drawn_as_they_stand(p: Panel)
    ensures
        p@.title == p.title@,
        p@.header == p.header@,
        p@.footer == p.footer@,
        p@.columns.len() == p.columns@.len(),
        forall|i: int| 0 <= i < p.columns@.len() ==> #[trigger] p@.columns[i] == p.columns@[i]@,
        p@.rows.len() == p.rows@.len(),
        forall|i: int|
            0 <= i < p.rows@.len() ==> {
                &&& (#[trigger] p@.rows[i]).tone == p.rows@[i].tone
                &&& p@.rows[i].cells.len() == p.rows@[i].cells@.len()
            },
        forall|i: int, k: int|
            0 <= i < p.rows@.len() && 0 <= k < p.rows@[i].cells@.len()
                ==> #[trigger] p@.rows[i].cells[k] == p.rows@[i].cells@[k]@,
{
}

} // verus!
