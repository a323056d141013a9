//! What was seen so far: every event of the target is folded into one of the
//! tables here, and the panels and summaries are made from them.

use crate::event::{
    decode_file, decode_mem, decode_net, decode_syscall, file_in, mem_in, net_in, syscall_in, EventKind, FileEvent, FileEventKind, MemEvent, MemEventKind, NetEvent,
    NetEventKind, SyscallEvent, TCP_CLOSE,
};
use crate::file_table::{format_path, path_bytes, path_text, utf8_lossy};
use crate::wire::ByteOrder;
use std::collections::HashMap;
use vstd::prelude::*;
use vstd::std_specs::hash::*;
use vstd::std_specs::iter::IteratorSpec;

verus! {

/// Rows list a map: one row for each key, with its value.
pub open spec fn lists<K, V>(rows: Seq<(K, V)>, m: Map<K, V>) -> bool {
    &&& forall|i: int, j: int|
        0 <= i < j < rows.len() ==> (#[trigger] rows[i]).0 != (#[trigger] rows[j]).0
    &&& forall|i: int|
        0 <= i < rows.len() ==> m.contains_key((#[trigger] rows[i]).0) && m[rows[i].0] == rows[i].1
    &&& forall|k: K| #[trigger]
        m.contains_key(k) ==> exists|i: int| 0 <= i < rows.len() && (#[trigger] rows[i]).0 == k
}

/// What became of a record.
#[derive(Clone, Copy, Debug, PartialEq, Eq, Structural)]
pub enum Ingest {
    /// Its event was folded in.
    Recorded,
    /// It holds no event, and was dropped.
    Dropped,
    /// Its event does not fit into the counters, and was not folded in.
    Overflow,
}

/// Aggregated stats for one syscall number, matched from enter/exit event pairs.
#[derive(Clone, Copy, Debug, Default, PartialEq, Eq, Structural)]
pub struct SyscallStats {
    pub count: u64,
    pub total_ns: u64,
}

/// The average time of a call, rounded down; zero before the first.
pub open spec fn average(s: SyscallStats) -> u64 {
    if s.count == 0 {
        0
    } else {
        s.total_ns / s.count
    }
}

impl SyscallStats {
    /// The average time of a call, in nanoseconds.
    pub fn avg_ns(&self) -> (avg: u64)
        ensures
            avg == average(*self),
    {
        if self.count == 0 {
            0
        } else {
            self.total_ns / self.count
        }
    }
}

/// The calls under way, by process and syscall number, with the time they were
/// entered; and the finished ones, by syscall number.
pub struct SyscallView {
    pub pending: Map<(u32, u64), u64>,
    pub stats: Map<u64, SyscallStats>,
}

/// How long a call took; no time, if the clock went back.
pub open spec fn duration(start: u64, end: u64) -> int {
    if end >= start {
        end - start
    } else {
        0
    }
}

/// What is known of a syscall, nothing if it was never seen.
pub open spec fn seen(stats: Map<u64, SyscallStats>, nr: u64) -> SyscallStats {
    if stats.contains_key(nr) {
        stats[nr]
    } else {
        SyscallStats { count: 0, total_ns: 0 }
    }
}

/// The counters can take the event.
pub open spec fn syscall_fits(v: SyscallView, e: SyscallEvent) -> bool {
    let key = (e.pid, e.syscall_nr);
    e.kind == EventKind::Exit && v.pending.contains_key(key) ==> {
        let s = seen(v.stats, e.syscall_nr);
        s.count < u64::MAX && s.total_ns + duration(v.pending[key], e.timestamp_ns) <= u64::MAX
    }
}

/// An entry is remembered; an exit finishes the entry that is remembered for
/// the same process and number, and means nothing without one.
pub open spec fn after_syscall(v: SyscallView, e: SyscallEvent) -> SyscallView {
    let key = (e.pid, e.syscall_nr);
    match e.kind {
        EventKind::Enter => SyscallView {
            pending: v.pending.insert(key, e.timestamp_ns),
            stats: v.stats,
        },
        EventKind::Exit => if v.pending.contains_key(key) {
            let s = seen(v.stats, e.syscall_nr);
            SyscallView {
                pending: v.pending.remove(key),
                stats: v.stats.insert(
                    e.syscall_nr,
                    SyscallStats {
                        count: (s.count + 1) as u64,
                        total_ns: (s.total_ns + duration(v.pending[key], e.timestamp_ns)) as u64,
                    },
                ),
            }
        } else {
            v
        },
    }
}

/// Syscalls of the target, under way and finished.
pub struct SyscallTable {
    pending: HashMap<u128, u64>,
    stats: HashMap<u64, SyscallStats>,
}

spec fn call_key(k: (u32, u64)) -> u128 {
    (k.0 * 0x1_0000_0000_0000_0000 + k.1) as u128
}

spec fn by_call(m: Map<u128, u64>) -> Map<(u32, u64), u64> {
    Map::new(|k: (u32, u64)| m.contains_key(call_key(k)), |k: (u32, u64)| m[call_key(k)])
}

fn pack_call(pid: u32, nr: u64) -> (key: u128)
    ensures
        key == call_key((pid, nr)),
{
    pid as u128 * 0x1_0000_0000_0000_0000 + nr as u128
}

impl View for SyscallTable {
    type V = SyscallView;

    closed spec fn view(&self) -> SyscallView {
        SyscallView { pending: by_call(self.pending@), stats: self.stats@ }
    }
}

impl SyscallTable {
    /// A table that has seen nothing.
    pub fn new() -> (table: Self)
        ensures
            table@.pending == Map::<(u32, u64), u64>::empty(),
            table@.stats == Map::<u64, SyscallStats>::empty(),
    {
        let table = SyscallTable { pending: HashMap::new(), stats: HashMap::new() };
        assert(table@.pending =~= Map::<(u32, u64), u64>::empty());
        table
    }

    /// Folds an event in.
    pub fn record(&mut self, event: &SyscallEvent)
        requires
            syscall_fits(old(self)@, *event),
        ensures
            final(self)@ == after_syscall(old(self)@, *event),
    {
        let ghost before = self@;
        let ghost calls = self.pending@;
        let ghost k = (event.pid, event.syscall_nr);
        let key: u128 = pack_call(event.pid, event.syscall_nr);
        match event.kind {
            EventKind::Enter => {
                self.pending.insert(key, event.timestamp_ns);
                assert(self@.pending =~= before.pending.insert(k, event.timestamp_ns));
            },
            EventKind::Exit => {
                assert(before.pending.contains_key(k) == calls.contains_key(key));
                if let Some(start) = self.pending.remove(&key) {
                    let dur: u64 = if event.timestamp_ns >= start {
                        event.timestamp_ns - start
                    } else {
                        0
                    };
                    let known: SyscallStats = match self.stats.get(&event.syscall_nr) {
                        Some(s) => *s,
                        None => SyscallStats { count: 0, total_ns: 0 },
                    };
                    assert(known == seen(before.stats, event.syscall_nr));
                    self.stats.insert(
                        event.syscall_nr,
                        SyscallStats { count: known.count + 1, total_ns: known.total_ns + dur },
                    );
                    assert(self@.pending =~= before.pending.remove(k));
                } else {
                    assert(self@.pending =~= before.pending);
                }
            },
        }
    }

    /// Whether the counters can take an event.
    pub fn fits(&self, event: &SyscallEvent) -> (yes: bool)
        ensures
            yes == syscall_fits(self@, *event),
    {
        let ghost k = (event.pid, event.syscall_nr);
        let key: u128 = pack_call(event.pid, event.syscall_nr);
        assert(self@.pending.contains_key(k) == self.pending@.contains_key(key));
        match event.kind {
            EventKind::Enter => true,
            EventKind::Exit => match self.pending.get(&key) {
                None => true,
                Some(start) => {
                    let dur: u64 = if event.timestamp_ns >= *start {
                        event.timestamp_ns - *start
                    } else {
                        0
                    };
                    match self.stats.get(&event.syscall_nr) {
                        None => true,
                        Some(s) => s.count < u64::MAX && s.total_ns <= u64::MAX - dur,
                    }
                },
            },
        }
    }

    /// Folds the event of a ring buffer record in. A record that holds none is
    /// dropped.
    pub fn ingest(&mut self, record: &[u8], order: ByteOrder) -> (outcome: Ingest)
        ensures
            match syscall_in(record@, order) {
                None => outcome == Ingest::Dropped && final(self)@ == old(self)@,
                Some(e) => if syscall_fits(old(self)@, e) {
                    outcome == Ingest::Recorded && final(self)@ == after_syscall(old(self)@, e)
                } else {
                    outcome == Ingest::Overflow && final(self)@ == old(self)@
                },
            },
    {
        match decode_syscall(record, order) {
            None => Ingest::Dropped,
            Some(event) => if self.fits(&event) {
                self.record(&event);
                Ingest::Recorded
            } else {
                Ingest::Overflow
            },
        }
    }

    /// The finished syscalls.
    pub fn stats(&self) -> (stats: &HashMap<u64, SyscallStats>)
        ensures
            stats@ == self@.stats,
    {
        &self.stats
    }
}

/// Identifies one TCP connection by its 4-tuple. IPv4 addresses are stored in
/// the first 4 bytes of `saddr`/`daddr`, as in `NetEvent`.
#[derive(Clone, Copy, Debug, PartialEq, Eq, Hash)]
pub struct ConnectionKey {
    pub family: u16,
    pub sport: u16,
    pub dport: u16,
    pub saddr: [u8; 16],
    pub daddr: [u8; 16],
}

/// Aggregated state for one connection.
#[derive(Clone, Copy, Debug, Default, PartialEq, Eq, Structural)]
pub struct ConnectionStats {
    pub state: u16,
    pub retransmits: u64,
}

/// The connection that an event is about.
pub open spec fn connection_of(e: NetEvent) -> ConnectionKey {
    ConnectionKey {
        family: e.family,
        sport: e.sport,
        dport: e.dport,
        saddr: e.saddr,
        daddr: e.daddr,
    }
}

/// The retransmits counted on a connection so far.
pub open spec fn retransmits_of(m: Map<ConnectionKey, ConnectionStats>, k: ConnectionKey) -> u64 {
    if m.contains_key(k) {
        m[k].retransmits
    } else {
        0
    }
}

/// The counters can take the event.
pub open spec fn net_fits(m: Map<ConnectionKey, ConnectionStats>, e: NetEvent) -> bool {
    e.kind == NetEventKind::Retransmit ==> retransmits_of(m, connection_of(e)) < u64::MAX
}

/// A connection goes when it is closed; any other event sets its state, and a
/// retransmit is counted.
pub open spec fn after_net(
    m: Map<ConnectionKey, ConnectionStats>,
    e: NetEvent,
) -> Map<ConnectionKey, ConnectionStats> {
    let k = connection_of(e);
    match e.kind {
        NetEventKind::StateChange => if e.state == TCP_CLOSE {
            m.remove(k)
        } else {
            m.insert(k, ConnectionStats { state: e.state, retransmits: retransmits_of(m, k) })
        },
        NetEventKind::Retransmit => m.insert(
            k,
            ConnectionStats { state: e.state, retransmits: (retransmits_of(m, k) + 1) as u64 },
        ),
    }
}

fn same_bytes(a: &[u8; 16], b: &[u8; 16]) -> (same: bool)
    ensures
        same == (*a == *b),
{
    let mut i: usize = 0;
    while i < 16
        invariant
            i <= 16,
            forall|j: int| 0 <= j < i ==> a@[j] == b@[j],
        decreases 16 - i,
    {
        if a[i] != b[i] {
            return false;
        }
        i += 1;
    }
    assert(*a =~= *b);
    true
}

fn same_connection(a: &ConnectionKey, b: &ConnectionKey) -> (same: bool)
    ensures
        same == (*a == *b),
{
    a.family == b.family && a.sport == b.sport && a.dport == b.dport && same_bytes(
        &a.saddr,
        &b.saddr,
    ) && same_bytes(&a.daddr, &b.daddr)
}

/// The connections of the target that are not closed.
pub struct ConnectionTable {
    entries: Vec<(ConnectionKey, ConnectionStats)>,
}

spec fn has_row<K, V>(rows: Seq<(K, V)>, k: K) -> bool {
    exists|i: int| 0 <= i < rows.len() && (#[trigger] rows[i]).0 == k
}

spec fn rows_map<K, V>(rows: Seq<(K, V)>) -> Map<K, V> {
    Map::new(
        |k: K| has_row(rows, k),
        |k: K| rows[choose|i: int| 0 <= i < rows.len() && (#[trigger] rows[i]).0 == k].1,
    )
}

spec fn distinct<K, V>(rows: Seq<(K, V)>) -> bool {
    forall|i: int, j: int|
        0 <= i < j < rows.len() ==> (#[trigger] rows[i]).0 != (#[trigger] rows[j]).0
}

proof fn lemma_row_value<K, V>(rows: Seq<(K, V)>, i: int)
    requires
        distinct(rows),
        0 <= i < rows.len(),
    ensures
        rows_map(rows).contains_key(rows[i].0),
        rows_map(rows)[rows[i].0] == rows[i].1,
{
    let k = rows[i].0;
    let j = choose|j: int| 0 <= j < rows.len() && (#[trigger] rows[j]).0 == k;
    assert(has_row(rows, k));
    assert(i == j);
}

proof fn lemma_rows_list<K, V>(rows: Seq<(K, V)>)
    requires
        distinct(rows),
    ensures
        lists(rows, rows_map(rows)),
{
    assert forall|i: int| 0 <= i < rows.len() implies rows_map(rows).contains_key(
        (#[trigger] rows[i]).0,
    ) && rows_map(rows)[rows[i].0] == rows[i].1 by {
        lemma_row_value(rows, i);
    }
}

impl View for ConnectionTable {
    type V = Map<ConnectionKey, ConnectionStats>;

    closed spec fn view(&self) -> Map<ConnectionKey, ConnectionStats> {
        rows_map(self.entries@)
    }
}

impl ConnectionTable {
    /// No connection stands in the table twice.
    pub closed spec fn wf(&self) -> bool {
        distinct(self.entries@)
    }

    /// A table without connections.
    pub fn new() -> (table: Self)
        ensures
            table.wf(),
            table@ == Map::<ConnectionKey, ConnectionStats>::empty(),
    {
        let table = ConnectionTable { entries: Vec::new() };
        assert(table@ =~= Map::<ConnectionKey, ConnectionStats>::empty());
        table
    }

    fn position(&self, key: &ConnectionKey) -> (at: Option<usize>)
        requires
            self.wf(),
        ensures
            match at {
                Some(i) => i < self.entries@.len() && self.entries@[i as int].0 == *key
                    && self@.contains_key(*key) && self@[*key] == self.entries@[i as int].1,
                None => !self@.contains_key(*key),
            },
    {
        let mut i: usize = 0;
        while i < self.entries.len()
            invariant
                i <= self.entries@.len(),
                self.wf(),
                forall|j: int| 0 <= j < i ==> (#[trigger] self.entries@[j]).0 != *key,
            decreases self.entries@.len() - i,
        {
            if same_connection(&self.entries[i].0, key) {
                proof {
                    lemma_row_value(self.entries@, i as int);
                }
                return Some(i);
            }
            i += 1;
        }
        None
    }

    fn put(&mut self, key: ConnectionKey, stats: ConnectionStats)
        requires
            old(self).wf(),
        ensures
            final(self).wf(),
            final(self)@ == old(self)@.insert(key, stats),
    {
        let ghost before = self.entries@;
        match self.position(&key) {
            Some(i) => {
                self.entries.set(i, (key, stats));
            },
            None => {
                self.entries.push((key, stats));
            },
        }
        proof {
            lemma_put(before, self.entries@, key, stats);
        }
    }

    fn take_out(&mut self, key: &ConnectionKey)
        requires
            old(self).wf(),
        ensures
            final(self).wf(),
            final(self)@ == old(self)@.remove(*key),
    {
        let ghost before = self.entries@;
        match self.position(key) {
            Some(i) => {
                self.entries.remove(i);
                proof {
                    lemma_take_out(before, i as int);
                }
            },
            None => {
                assert(self@ =~= self@.remove(*key));
            },
        }
    }

    /// Folds an event in.
    pub fn record(&mut self, event: &NetEvent)
        requires
            old(self).wf(),
            net_fits(old(self)@, *event),
        ensures
            final(self).wf(),
            final(self)@ == after_net(old(self)@, *event),
    {
        let key = key_of(event);
        let known: u64 = self.retransmits(&key);
        match event.kind {
            NetEventKind::StateChange => {
                if event.state == TCP_CLOSE {
                    self.take_out(&key);
                } else {
                    self.put(key, ConnectionStats { state: event.state, retransmits: known });
                }
            },
            NetEventKind::Retransmit => {
                self.put(key, ConnectionStats { state: event.state, retransmits: known + 1 });
            },
        }
    }

    fn retransmits(&self, key: &ConnectionKey) -> (n: u64)
        requires
            self.wf(),
        ensures
            n == retransmits_of(self@, *key),
    {
        match self.position(key) {
            Some(i) => self.entries[i].1.retransmits,
            None => 0,
        }
    }

    /// Whether the counters can take an event.
    pub fn fits(&self, event: &NetEvent) -> (yes: bool)
        requires
            self.wf(),
        ensures
            yes == net_fits(self@, *event),
    {
        match event.kind {
            NetEventKind::StateChange => true,
            NetEventKind::Retransmit => self.retransmits(&key_of(event)) < u64::MAX,
        }
    }

    /// Folds the event of a ring buffer record in. A record that holds none is
    /// dropped.
    pub fn ingest(&mut self, record: &[u8], order: ByteOrder) -> (outcome: Ingest)
        requires
            old(self).wf(),
        ensures
            final(self).wf(),
            match net_in(record@, order) {
                None => outcome == Ingest::Dropped && final(self)@ == old(self)@,
                Some(e) => if net_fits(old(self)@, e) {
                    outcome == Ingest::Recorded && final(self)@ == after_net(old(self)@, e)
                } else {
                    outcome == Ingest::Overflow && final(self)@ == old(self)@
                },
            },
    {
        match decode_net(record, order) {
            None => Ingest::Dropped,
            Some(event) => if self.fits(&event) {
                self.record(&event);
                Ingest::Recorded
            } else {
                Ingest::Overflow
            },
        }
    }

    /// The connections, one row each.
    pub fn rows(&self) -> (rows: &Vec<(ConnectionKey, ConnectionStats)>)
        requires
            self.wf(),
        ensures
            lists(rows@, self@),
    {
        proof {
            lemma_rows_list(self.entries@);
        }
        &self.entries
    }
}

/// The connection that an event is about.
pub fn key_of(event: &NetEvent) -> (key: ConnectionKey)
    ensures
        key == connection_of(*event),
{
    ConnectionKey {
        family: event.family,
        sport: event.sport,
        dport: event.dport,
        saddr: event.saddr,
        daddr: event.daddr,
    }
}

proof fn lemma_put<K, V>(before: Seq<(K, V)>, after: Seq<(K, V)>, k: K, v: V)
    requires
        distinct(before),
        (!has_row(before, k) && after == before.push((k, v))) || (exists|i: int|
            0 <= i < before.len() && before[i].0 == k && after == #[trigger] before.update(i, (k, v))),
    ensures
        distinct(after),
        rows_map(after) == rows_map(before).insert(k, v),
{
    if has_row(before, k) {
        let i = choose|i: int|
            0 <= i < before.len() && before[i].0 == k && after == #[trigger] before.update(
                i,
                (k, v),
            );
        assert forall|j: int| 0 <= j < before.len() implies (#[trigger] after[j]).0 == before[j].0
            && (j != i ==> after[j] == before[j]) by {}
        assert(distinct(after));
        lemma_row_value(after, i);
        lemma_same_rows(before, after, k, v);
    } else {
        let n = before.len() as int;
        assert(after[n] == (k, v));
        assert forall|j: int| 0 <= j < n implies #[trigger] after[j] == before[j] by {}
        assert(distinct(after));
        lemma_row_value(after, n);
        lemma_same_rows(before, after, k, v);
    }
}

proof fn lemma_same_rows<K, V>(before: Seq<(K, V)>, after: Seq<(K, V)>, k: K, v: V)
    requires
        distinct(before),
        distinct(after),
        before.len() <= after.len(),
        forall|j: int|
            0 <= j < before.len() ==> (#[trigger] after[j]) == (if before[j].0 == k {
                (k, v)
            } else {
                before[j]
            }),
        forall|j: int| before.len() <= j < after.len() ==> #[trigger] after[j] == (k, v),
        has_row(after, k),
    ensures
        rows_map(after) == rows_map(before).insert(k, v),
{
    let a = rows_map(after);
    let b = rows_map(before).insert(k, v);
    assert forall|x: K| a.contains_key(x) <==> b.contains_key(x) by {
        if has_row(after, x) && x != k {
            let i = choose|i: int| 0 <= i < after.len() && (#[trigger] after[i]).0 == x;
            assert(before[i].0 == x);
        }
        if has_row(before, x) && x != k {
            let i = choose|i: int| 0 <= i < before.len() && (#[trigger] before[i]).0 == x;
            assert(after[i].0 == x);
        }
    }
    assert forall|x: K| a.contains_key(x) implies a[x] == b[x] by {
        let i = choose|i: int| 0 <= i < after.len() && (#[trigger] after[i]).0 == x;
        lemma_row_value(after, i);
        if x == k {
            assert(after[i] == (k, v));
        } else {
            lemma_row_value(before, i);
        }
    }
    assert(a =~= b);
}

proof fn lemma_take_out<K, V>(before: Seq<(K, V)>, i: int)
    requires
        distinct(before),
        0 <= i < before.len(),
    ensures
        distinct(before.remove(i)),
        rows_map(before.remove(i)) == rows_map(before).remove(before[i].0),
{
    let after = before.remove(i);
    let k = before[i].0;
    assert forall|j: int| 0 <= j < after.len() implies #[trigger] after[j] == before[if j < i {
        j
    } else {
        j + 1
    }] by {}
    assert(distinct(after));
    let a = rows_map(after);
    let b = rows_map(before).remove(k);
    assert forall|x: K| a.contains_key(x) <==> b.contains_key(x) by {
        if has_row(after, x) {
            let j = choose|j: int| 0 <= j < after.len() && (#[trigger] after[j]).0 == x;
            let p = if j < i {
                j
            } else {
                j + 1
            };
            assert(before[p].0 == x);
        }
        if has_row(before, x) && x != k {
            let p = choose|p: int| 0 <= p < before.len() && (#[trigger] before[p]).0 == x;
            let j = if p < i {
                p
            } else {
                p - 1
            };
            assert(after[j].0 == x);
        }
    }
    assert forall|x: K| a.contains_key(x) implies a[x] == b[x] by {
        let j = choose|j: int| 0 <= j < after.len() && (#[trigger] after[j]).0 == x;
        lemma_row_value(after, j);
        lemma_row_value(
            before,
            if j < i {
                j
            } else {
                j + 1
            },
        );
    }
    assert(a =~= b);
}

/// One open (or previously-open) file descriptor for the target.
#[derive(Clone, Debug)]
pub struct FileStats {
    pub path: String,
    pub bytes_read: u64,
    pub bytes_written: u64,
    pub closed: bool,
}

/// A file descriptor, with its path as characters.
pub struct FileView {
    pub path: Seq<char>,
    pub bytes_read: u64,
    pub bytes_written: u64,
    pub closed: bool,
}

impl View for FileStats {
    type V = FileView;

    open spec fn view(&self) -> FileView {
        FileView {
            path: self.path@,
            bytes_read: self.bytes_read,
            bytes_written: self.bytes_written,
            closed: self.closed,
        }
    }
}

/// A file descriptor that was open before the first event.
pub open spec fn unseen_file() -> FileView {
    FileView {
        path: "<unknown, opened before trace started>"@,
        bytes_read: 0,
        bytes_written: 0,
        closed: false,
    }
}

/// A read/write landed on an fd that was never seen opened (e.g. inherited from
/// before tracing started) - still worth showing the byte volume.
pub fn unknown_file() -> (file: FileStats)
    ensures
        file@ == unseen_file(),
{
    FileStats {
        path: "<unknown, opened before trace started>".to_owned(),
        bytes_read: 0,
        bytes_written: 0,
        closed: false,
    }
}

/// What is known of a file descriptor.
pub open spec fn file_at(m: Map<(u32, i32), FileView>, k: (u32, i32)) -> FileView {
    if m.contains_key(k) {
        m[k]
    } else {
        unseen_file()
    }
}

/// The path that an event carries, as text.
pub open spec fn event_path(e: FileEvent) -> Seq<char> {
    path_text(utf8_lossy(path_bytes(e.path@, e.path_len)), e.path_len)
}

/// The counters can take the event.
pub open spec fn file_fits(m: Map<(u32, i32), FileView>, e: FileEvent) -> bool {
    let f = file_at(m, (e.pid, e.fd));
    match e.kind {
        FileEventKind::Read => f.bytes_read + e.bytes <= u64::MAX,
        FileEventKind::Write => f.bytes_written + e.bytes <= u64::MAX,
        _ => true,
    }
}

/// Opening starts a descriptor over, closing marks it, and reads and writes add
/// to its volume.
pub open spec fn after_file(m: Map<(u32, i32), FileView>, e: FileEvent) -> Map<
    (u32, i32),
    FileView,
> {
    let k = (e.pid, e.fd);
    let f = file_at(m, k);
    match e.kind {
        FileEventKind::Open => m.insert(
            k,
            FileView { path: event_path(e), bytes_read: 0, bytes_written: 0, closed: false },
        ),
        FileEventKind::Close => if m.contains_key(k) {
            m.insert(k, FileView { closed: true, ..f })
        } else {
            m
        },
        FileEventKind::Read => m.insert(
            k,
            FileView { bytes_read: (f.bytes_read + e.bytes) as u64, ..f },
        ),
        FileEventKind::Write => m.insert(
            k,
            FileView { bytes_written: (f.bytes_written + e.bytes) as u64, ..f },
        ),
    }
}

/// The file descriptors of the target, by process and number.
pub struct FileTable {
    files: HashMap<u64, FileStats>,
}

spec fn fd_key(k: (u32, i32)) -> u64 {
    (k.0 * 0x1_0000_0000 + k.1 + 0x8000_0000) as u64
}

spec fn fd_of(key: u64) -> (u32, i32) {
    ((key / 0x1_0000_0000) as u32, (key % 0x1_0000_0000 - 0x8000_0000) as i32)
}

fn pack_fd(pid: u32, fd: i32) -> (key: u64)
    ensures
        key == fd_key((pid, fd)),
{
    pid as u64 * 0x1_0000_0000 + (fd as i64 + 0x8000_0000) as u64
}

fn unpack_fd(key: u64) -> (k: (u32, i32))
    ensures
        k == fd_of(key),
{
    ((key / 0x1_0000_0000) as u32, ((key % 0x1_0000_0000) as i64 - 0x8000_0000) as i32)
}

spec fn by_fd(m: Map<u64, FileStats>) -> Map<(u32, i32), FileView> {
    Map::new(|k: (u32, i32)| m.contains_key(fd_key(k)), |k: (u32, i32)| m[fd_key(k)]@)
}

/// Rows with their files as characters.
pub open spec fn file_rows(rows: Seq<((u32, i32), FileStats)>) -> Seq<((u32, i32), FileView)> {
    rows.map_values(|r: ((u32, i32), FileStats)| (r.0, r.1@))
}

impl View for FileTable {
    type V = Map<(u32, i32), FileView>;

    closed spec fn view(&self) -> Map<(u32, i32), FileView> {
        by_fd(self.files@)
    }
}

impl FileTable {
    /// A table without files.
    pub fn new() -> (table: Self)
        ensures
            table@ == Map::<(u32, i32), FileView>::empty(),
    {
        let table = FileTable { files: HashMap::new() };
        assert(table@ =~= Map::<(u32, i32), FileView>::empty());
        table
    }

    fn put(&mut self, pid: u32, fd: i32, file: FileStats)
        ensures
            final(self)@ == old(self)@.insert((pid, fd), file@),
    {
        let ghost before = self@;
        self.files.insert(pack_fd(pid, fd), file);
        assert(self@ =~= before.insert((pid, fd), file@));
    }

    fn take_out(&mut self, pid: u32, fd: i32) -> (file: Option<FileStats>)
        ensures
            final(self)@ == old(self)@.remove((pid, fd)),
            match file {
                Some(f) => old(self)@.contains_key((pid, fd)) && f@ == old(self)@[(pid, fd)],
                None => !old(self)@.contains_key((pid, fd)),
            },
    {
        let ghost before = self@;
        let file = self.files.remove(&pack_fd(pid, fd));
        assert(self@ =~= before.remove((pid, fd)));
        file
    }

    /// Folds an event in.
    pub fn record(&mut self, event: &FileEvent)
        requires
            file_fits(old(self)@, *event),
        ensures
            final(self)@ == after_file(old(self)@, *event),
    {
        let ghost before = self@;
        match event.kind {
            FileEventKind::Open => {
                let path = format_path(&event.path, event.path_len);
                self.put(
                    event.pid,
                    event.fd,
                    FileStats { path, bytes_read: 0, bytes_written: 0, closed: false },
                );
            },
            FileEventKind::Close => match self.take_out(event.pid, event.fd) {
                Some(mut file) => {
                    file.closed = true;
                    self.put(event.pid, event.fd, file);
                },
                None => {},
            },
            FileEventKind::Read => {
                let mut file = match self.take_out(event.pid, event.fd) {
                    Some(file) => file,
                    None => unknown_file(),
                };
                file.bytes_read = file.bytes_read + event.bytes as u64;
                self.put(event.pid, event.fd, file);
            },
            FileEventKind::Write => {
                let mut file = match self.take_out(event.pid, event.fd) {
                    Some(file) => file,
                    None => unknown_file(),
                };
                file.bytes_written = file.bytes_written + event.bytes as u64;
                self.put(event.pid, event.fd, file);
            },
        }
        assert(self@ =~= after_file(before, *event));
    }

    /// Whether the counters can take an event.
    pub fn fits(&self, event: &FileEvent) -> (yes: bool)
        ensures
            yes == file_fits(self@, *event),
    {
        match self.files.get(&pack_fd(event.pid, event.fd)) {
            None => true,
            Some(file) => match event.kind {
                FileEventKind::Read => file.bytes_read <= u64::MAX - event.bytes as u64,
                FileEventKind::Write => file.bytes_written <= u64::MAX - event.bytes as u64,
                _ => true,
            },
        }
    }

    /// Folds the event of a ring buffer record in. A record that holds none is
    /// dropped.
    pub fn ingest(&mut self, record: &[u8], order: ByteOrder) -> (outcome: Ingest)
        ensures
            match file_in(record@, order) {
                None => outcome == Ingest::Dropped && final(self)@ == old(self)@,
                Some(e) => if file_fits(old(self)@, e) {
                    outcome == Ingest::Recorded && final(self)@ == after_file(old(self)@, e)
                } else {
                    outcome == Ingest::Overflow && final(self)@ == old(self)@
                },
            },
    {
        match decode_file(record, order) {
            None => Ingest::Dropped,
            Some(event) => if self.fits(&event) {
                self.record(&event);
                Ingest::Recorded
            } else {
                Ingest::Overflow
            },
        }
    }

    /// The file descriptors, one row each, in no particular order.
    pub fn rows(&self) -> (rows: Vec<((u32, i32), FileStats)>)
        ensures
            lists(file_rows(rows@), self@),
    {
        let mut rows: Vec<((u32, i32), FileStats)> = Vec::new();
        let ghost all = spec_hash_map_iter(&self.files).remaining();
        for kv in iter: self.files.iter()
            invariant
                iter.seq() == all,
                rows@.len() == iter.index(),
                forall|i: int|
                    0 <= i < rows@.len() ==> (#[trigger] rows@[i]).0 == fd_of(*all[i].0)
                        && rows@[i].1@ == all[i].1@,
        {
            let file = kv.1;
            rows.push(
                (
                    unpack_fd(*kv.0),
                    FileStats {
                        path: file.path.clone(),
                        bytes_read: file.bytes_read,
                        bytes_written: file.bytes_written,
                        closed: file.closed,
                    },
                ),
            );
        }
        proof {
            let m = self.files@;
            let shown = file_rows(rows@);
            assert forall|i: int, j: int| 0 <= i < j < shown.len() implies (#[trigger] shown[i]).0
                != (#[trigger] shown[j]).0 by {
                assert(m[*all[i].0] == *all[i].1);
                assert(m[*all[j].0] == *all[j].1);
                assert(fd_key(fd_of(*all[i].0)) == *all[i].0);
                assert(fd_key(fd_of(*all[j].0)) == *all[j].0);
            }
            assert forall|i: int| 0 <= i < shown.len() implies self@.contains_key(
                (#[trigger] shown[i]).0,
            ) && self@[shown[i].0] == shown[i].1 by {
                assert(m.contains_key(*all[i].0) && m[*all[i].0] == *all[i].1);
                assert(fd_key(fd_of(*all[i].0)) == *all[i].0);
            }
            assert forall|k: (u32, i32)| #[trigger] self@.contains_key(k) implies exists|i: int|
                0 <= i < shown.len() && (#[trigger] shown[i]).0 == k by {
                let key = fd_key(k);
                assert(m.contains_key(key));
                assert(all.contains((&key, &m[key])));
                let i = choose|i: int| 0 <= i < all.len() && all[i] == (&key, &m[key]);
                assert(shown[i].0 == fd_of(key));
                assert(fd_of(fd_key(k)) == k);
            }
        }
        rows
    }
}

/// The finished syscalls, one row each, in no particular order.
pub fn syscall_rows(stats: &HashMap<u64, SyscallStats>) -> (rows: Vec<(u64, SyscallStats)>)
    ensures
        lists(rows@, stats@),
{
    let mut rows: Vec<(u64, SyscallStats)> = Vec::new();
    let ghost all = spec_hash_map_iter(stats).remaining();
    for kv in iter: stats.iter()
        invariant
            iter.seq() == all,
            rows@.len() == iter.index(),
            forall|i: int|
                0 <= i < rows@.len() ==> (#[trigger] rows@[i]).0 == *all[i].0 && rows@[i].1
                    == *all[i].1,
    {
        rows.push((*kv.0, *kv.1));
    }
    proof {
        let m = stats@;
        assert forall|i: int, j: int| 0 <= i < j < rows@.len() implies (#[trigger] rows@[i]).0
            != (#[trigger] rows@[j]).0 by {
            assert(m[*all[i].0] == *all[i].1);
            assert(m[*all[j].0] == *all[j].1);
        }
        assert forall|i: int| 0 <= i < rows@.len() implies m.contains_key((#[trigger] rows@[i]).0)
            && m[rows@[i].0] == rows@[i].1 by {
            assert(m.contains_key(*all[i].0) && m[*all[i].0] == *all[i].1);
        }
        assert forall|k: u64| #[trigger] m.contains_key(k) implies exists|i: int|
            0 <= i < rows@.len() && (#[trigger] rows@[i]).0 == k by {
            assert(all.contains((&k, &m[k])));
            let i = choose|i: int| 0 <= i < all.len() && all[i] == (&k, &m[k]);
            assert(rows@[i].0 == k);
        }
    }
    rows
}

/// Kernel allocation activity attributable to the target.
#[derive(Clone, Copy, Debug, Default, PartialEq, Eq, Structural)]
pub struct MemEventStats {
    pub alloc_count: u64,
    pub alloc_bytes: u64,
    pub free_count: u64,
}

/// The counters can take the event.
pub open spec fn mem_fits(s: MemEventStats, e: MemEvent) -> bool {
    match e.kind {
        MemEventKind::Alloc => s.alloc_count < u64::MAX && s.alloc_bytes + e.bytes <= u64::MAX,
        MemEventKind::Free => s.free_count < u64::MAX,
    }
}

/// Allocations are counted with their size, frees are counted.
pub open spec fn after_mem(s: MemEventStats, e: MemEvent) -> MemEventStats {
    match e.kind {
        MemEventKind::Alloc => MemEventStats {
            alloc_count: (s.alloc_count + 1) as u64,
            alloc_bytes: (s.alloc_bytes + e.bytes) as u64,
            free_count: s.free_count,
        },
        MemEventKind::Free => MemEventStats { free_count: (s.free_count + 1) as u64, ..s },
    }
}

impl MemEventStats {
    /// Counters that have seen nothing.
    pub fn new() -> (stats: Self)
        ensures
            stats == (MemEventStats { alloc_count: 0, alloc_bytes: 0, free_count: 0 }),
    {
        MemEventStats { alloc_count: 0, alloc_bytes: 0, free_count: 0 }
    }

    /// Folds an event in.
    pub fn record(&mut self, event: &MemEvent)
        requires
            mem_fits(*old(self), *event),
        ensures
            *final(self) == after_mem(*old(self), *event),
    {
        match event.kind {
            MemEventKind::Alloc => {
                self.alloc_count = self.alloc_count + 1;
                self.alloc_bytes = self.alloc_bytes + event.bytes;
            },
            MemEventKind::Free => {
                self.free_count = self.free_count + 1;
            },
        }
    }

    /// Whether the counters can take an event.
    pub fn fits(&self, event: &MemEvent) -> (yes: bool)
        ensures
            yes == mem_fits(*self, *event),
    {
        match event.kind {
            MemEventKind::Alloc => self.alloc_count < u64::MAX && self.alloc_bytes <= u64::MAX
                - event.bytes,
            MemEventKind::Free => self.free_count < u64::MAX,
        }
    }

    /// Folds the event of a ring buffer record in. A record that holds none is
    /// dropped.
    pub fn ingest(&mut self, record: &[u8], order: ByteOrder) -> (outcome: Ingest)
        ensures
            match mem_in(record@, order) {
                None => outcome == Ingest::Dropped && *final(self) == *old(self),
                Some(e) => if mem_fits(*old(self), e) {
                    outcome == Ingest::Recorded && *final(self) == after_mem(*old(self), e)
                } else {
                    outcome == Ingest::Overflow && *final(self) == *old(self)
                },
            },
    {
        match decode_mem(record, order) {
            None => Ingest::Dropped,
            Some(event) => if self.fits(&event) {
                self.record(&event);
                Ingest::Recorded
            } else {
                Ingest::Overflow
            },
        }
    }
}

/// The average is the total shared out evenly, to within one nanosecond a call.
pub proof fn average_shares_the_total(s: SyscallStats)
    requires
        s.count > 0,
    ensures
        average(s) * s.count <= s.total_ns < (average(s) + 1) * s.count,
{
    vstd::arithmetic::div_mod::lemma_fundamental_div_mod(s.total_ns as int, s.count as int);
    assert((average(s) + 1) * s.count == average(s) * s.count + s.count) by (nonlinear_arith);
    assert(average(s) * s.count == s.count * average(s)) by (nonlinear_arith);
}

/// A call that is entered and left counts once, with the time between; and it
/// is no longer under way.
pub proof fn finished_calls_count_once(v: SyscallView, enter: SyscallEvent, exit: SyscallEvent)
    requires
        enter.kind == EventKind::Enter,
        exit.kind == EventKind::Exit,
        enter.pid == exit.pid,
        enter.syscall_nr == exit.syscall_nr,
        syscall_fits(after_syscall(v, enter), exit),
    ensures
        ({
            let w = after_syscall(after_syscall(v, enter), exit);
            let nr = exit.syscall_nr;
            &&& seen(w.stats, nr).count == seen(v.stats, nr).count + 1
            &&& seen(w.stats, nr).total_ns == seen(v.stats, nr).total_ns + duration(
                enter.timestamp_ns,
                exit.timestamp_ns,
            )
            &&& !w.pending.contains_key((exit.pid, nr))
        }),
{
}

/// An exit whose entry was not seen changes nothing.
pub proof fn exits_without_an_entry_mean_nothing(v: SyscallView, exit: SyscallEvent)
    requires
        exit.kind == EventKind::Exit,
        !v.pending.contains_key((exit.pid, exit.syscall_nr)),
    ensures
        after_syscall(v, exit) == v,
{
}

/// An event leaves the calls of other processes and numbers under way, and the
/// figures of other numbers as they are.
pub proof fn calls_do_not_disturb_each_other(v: SyscallView, e: SyscallEvent, pid: u32, nr: u64)
    requires
        (pid, nr) != (e.pid, e.syscall_nr),
    ensures
        after_syscall(v, e).pending.contains_key((pid, nr)) == v.pending.contains_key((pid, nr)),
        after_syscall(v, e).pending[(pid, nr)] == v.pending[(pid, nr)],
        nr != e.syscall_nr ==> seen(after_syscall(v, e).stats, nr) == seen(v.stats, nr),
{
}

/// Events of different calls can be folded in in either order.
pub proof fn events_of_different_calls_commute(v: SyscallView, a: SyscallEvent, b: SyscallEvent)
    requires
        (a.pid, a.syscall_nr) != (b.pid, b.syscall_nr),
        syscall_fits(v, a),
        syscall_fits(after_syscall(v, a), b),
    ensures
        syscall_fits(v, b),
        syscall_fits(after_syscall(v, b), a),
        after_syscall(after_syscall(v, a), b) == after_syscall(after_syscall(v, b), a),
{
    let ab = after_syscall(after_syscall(v, a), b);
    let ba = after_syscall(after_syscall(v, b), a);
    assert(ab.pending =~= ba.pending);
    assert(ab.stats =~= ba.stats);
}

/// The closing of a connection takes it out of the table.
pub proof fn closed_connections_are_gone(m: Map<ConnectionKey, ConnectionStats>, e: NetEvent)
    requires
        e.kind == NetEventKind::StateChange,
        e.state == TCP_CLOSE,
    ensures
        !after_net(m, e).contains_key(connection_of(e)),
{
}

/// An event leaves other connections as they are.
pub proof fn connections_do_not_disturb_each_other(
    m: Map<ConnectionKey, ConnectionStats>,
    e: NetEvent,
    k: ConnectionKey,
)
    requires
        k != connection_of(e),
    ensures
        after_net(m, e).contains_key(k) == m.contains_key(k),
        after_net(m, e)[k] == m[k],
{
}

/// Each retransmit counts once; a change of state keeps the count.
pub proof fn retransmits_count_once(m: Map<ConnectionKey, ConnectionStats>, e: NetEvent)
    requires
        net_fits(m, e),
        !(e.kind == NetEventKind::StateChange && e.state == TCP_CLOSE),
    ensures
        ({
            let k = connection_of(e);
            let more: int = if e.kind == NetEventKind::Retransmit {
                1
            } else {
                0
            };
            &&& after_net(m, e).contains_key(k)
            &&& after_net(m, e)[k].state == e.state
            &&& after_net(m, e)[k].retransmits == retransmits_of(m, k) + more
        }),
{
}

/// Closing a descriptor keeps its path and its volume on show.
pub proof fn closed_files_keep_their_volume(m: Map<(u32, i32), FileView>, e: FileEvent)
    requires
        e.kind == FileEventKind::Close,
        m.contains_key((e.pid, e.fd)),
    ensures
        ({
            let k = (e.pid, e.fd);
            &&& after_file(m, e)[k].closed
            &&& after_file(m, e)[k].path == m[k].path
            &&& after_file(m, e)[k].bytes_read == m[k].bytes_read
            &&& after_file(m, e)[k].bytes_written == m[k].bytes_written
        }),
{
}

/// Reads and writes add to the volume of their descriptor, even where its
/// opening was not seen, and to nothing else.
pub proof fn volume_is_added_up(m: Map<(u32, i32), FileView>, e: FileEvent)
    requires
        e.kind == FileEventKind::Read || e.kind == FileEventKind::Write,
        file_fits(m, e),
    ensures
        ({
            let k = (e.pid, e.fd);
            let f = file_at(m, k);
            let g = after_file(m, e)[k];
            &&& after_file(m, e).contains_key(k)
            &&& g.path == f.path && g.closed == f.closed
            &&& g.bytes_read + g.bytes_written == f.bytes_read + f.bytes_written + e.bytes
        }),
{
}

/// An event leaves other descriptors as they are.
pub proof fn files_do_not_disturb_each_other(
    m: Map<(u32, i32), FileView>,
    e: FileEvent,
    k: (u32, i32),
)
    requires
        k != (e.pid, e.fd),
    ensures
        after_file(m, e).contains_key(k) == m.contains_key(k),
        after_file(m, e)[k] == m[k],
{
}

/// An entry is remembered with its time, in place of an earlier one of the same
/// call; nothing is counted yet, and there is always room for it.
pub proof fn entries_are_remembered(v: SyscallView, enter: SyscallEvent)
    requires
        enter.kind == EventKind::Enter,
    ensures
        syscall_fits(v, enter),
        after_syscall(v, enter).pending == v.pending.insert(
            (enter.pid, enter.syscall_nr),
            enter.timestamp_ns,
        ),
        after_syscall(v, enter).stats == v.stats,
{
}

/// An exit adds one call to its syscall, and the time since the entry that is
/// remembered for it: the difference of the two times, or none if the clock
/// went back. It fits unless one of the two sums does not fit into 64 bits.
pub proof fn exits_add_the_time_since_the_entry(v: SyscallView, exit: SyscallEvent)
    requires
        exit.kind == EventKind::Exit,
        v.pending.contains_key((exit.pid, exit.syscall_nr)),
    ensures
        ({
            let nr = exit.syscall_nr;
            let a = v.pending[(exit.pid, nr)];
            let b = exit.timestamp_ns;
            let count: int = if v.stats.contains_key(nr) {
                v.stats[nr].count as int
            } else {
                0
            };
            let total: int = if v.stats.contains_key(nr) {
                v.stats[nr].total_ns as int
            } else {
                0
            };
            let w = after_syscall(v, exit);
            &&& a <= b ==> (syscall_fits(v, exit) <==> count + 1 <= u64::MAX && total + (b - a)
                <= u64::MAX)
            &&& a > b ==> (syscall_fits(v, exit) <==> count + 1 <= u64::MAX)
            &&& syscall_fits(v, exit) ==> {
                &&& w.stats.contains_key(nr)
                &&& w.stats[nr].count == count + 1
                &&& a <= b ==> w.stats[nr].total_ns == total + (b - a)
                &&& a > b ==> w.stats[nr].total_ns == total
                &&& w.stats.remove(nr) == v.stats.remove(nr)
                &&& w.pending == v.pending.remove((exit.pid, nr))
            }
        }),
{
    let w = after_syscall(v, exit);
    assert(w.stats.remove(exit.syscall_nr) =~= v.stats.remove(exit.syscall_nr));
}

/// A call that is entered at one time and left at a later one adds exactly the
/// time between to the total of its syscall.
pub proof fn calls_take_the_time_between(v: SyscallView, enter: SyscallEvent, exit: SyscallEvent)
    requires
        enter.kind == EventKind::Enter,
        exit.kind == EventKind::Exit,
        enter.pid == exit.pid,
        enter.syscall_nr == exit.syscall_nr,
        enter.timestamp_ns <= exit.timestamp_ns,
        v.stats.contains_key(exit.syscall_nr) ==> v.stats[exit.syscall_nr].count < u64::MAX,
        v.stats.contains_key(exit.syscall_nr) ==> v.stats[exit.syscall_nr].total_ns
            + exit.timestamp_ns - enter.timestamp_ns <= u64::MAX,
    ensures
        ({
            let nr = exit.syscall_nr;
            let w = after_syscall(after_syscall(v, enter), exit);
            &&& syscall_fits(after_syscall(v, enter), exit)
            &&& w.stats.contains_key(nr)
            &&& v.stats.contains_key(nr) ==> w.stats[nr].count == v.stats[nr].count + 1
                && w.stats[nr].total_ns == v.stats[nr].total_ns + exit.timestamp_ns
                - enter.timestamp_ns
            &&& !v.stats.contains_key(nr) ==> w.stats[nr].count == 1 && w.stats[nr].total_ns
                == exit.timestamp_ns - enter.timestamp_ns
        }),
{
    entries_are_remembered(v, enter);
    exits_add_the_time_since_the_entry(after_syscall(v, enter), exit);
}

/// Before the first call there is no average.
pub proof fn no_calls_have_no_average(s: SyscallStats)
    requires
        s.count == 0,
    ensures
        average(s) == 0,
{
}

/// Two events are about the same connection exactly if they agree in family,
/// ports and addresses, each end in its place.
pub proof fn connections_are_told_apart_by_their_ends(a: NetEvent, b: NetEvent)
    ensures
        connection_of(a) == connection_of(b) <==> a.family == b.family && a.sport == b.sport
            && a.dport == b.dport && a.saddr == b.saddr && a.daddr == b.daddr,
        connection_of(a).family == a.family,
        connection_of(a).sport == a.sport,
        connection_of(a).dport == a.dport,
        connection_of(a).saddr == a.saddr,
        connection_of(a).daddr == a.daddr,
{
}

/// An event sets the state of its connection, and a retransmit counts one more;
/// the change to the state numbered 7 takes the connection out instead. A new
/// connection starts without retransmits.
pub proof fn events_set_the_state(m: Map<ConnectionKey, ConnectionStats>, e: NetEvent)
    ensures
        ({
            let k = ConnectionKey {
                family: e.family,
                sport: e.sport,
                dport: e.dport,
                saddr: e.saddr,
                daddr: e.daddr,
            };
            let known: int = if m.contains_key(k) {
                m[k].retransmits as int
            } else {
                0
            };
            let w = after_net(m, e);
            let closing = e.kind == NetEventKind::StateChange && e.state == 7;
            &&& net_fits(m, e) <==> (e.kind == NetEventKind::Retransmit ==> known + 1 <= u64::MAX)
            &&& closing ==> w == m.remove(k)
            &&& !closing ==> w.contains_key(k) && w[k].state == e.state && w.remove(k) == m.remove(k)
            &&& e.kind == NetEventKind::StateChange && !closing ==> w[k].retransmits == known
            &&& e.kind == NetEventKind::Retransmit && net_fits(m, e) ==> w[k].retransmits == known
                + 1
        }),
{
    let k = connection_of(e);
    assert(after_net(m, e).remove(k) =~= m.remove(k));
}

/// Opening starts a descriptor over under its path, of which as many bytes are
/// decoded as the record says and holds.
pub proof fn opened_files_start_over(m: Map<(u32, i32), FileView>, e: FileEvent)
    requires
        e.kind == FileEventKind::Open,
    ensures
        ({
            let k = (e.pid, e.fd);
            let w = after_file(m, e);
            &&& file_fits(m, e)
            &&& w.contains_key(k) && w.remove(k) == m.remove(k)
            &&& w[k].bytes_read == 0 && w[k].bytes_written == 0 && !w[k].closed
            &&& e.path_len < 256 ==> w[k].path == utf8_lossy(e.path@.take(e.path_len as int))
            &&& e.path_len >= 256 ==> w[k].path == utf8_lossy(e.path@) + "…"@
        }),
{
    let k = (e.pid, e.fd);
    assert(after_file(m, e).remove(k) =~= m.remove(k));
    assert(e.path@.take(256) =~= e.path@);
}

/// Reads add their bytes to what was read, writes theirs to what was written;
/// the other figure, the path and the mark of the closed stay. A descriptor
/// that was not seen before starts with no bytes, open.
pub proof fn reads_and_writes_are_counted_apart(m: Map<(u32, i32), FileView>, e: FileEvent)
    requires
        e.kind == FileEventKind::Read || e.kind == FileEventKind::Write,
    ensures
        ({
            let k = (e.pid, e.fd);
            let read: int = if m.contains_key(k) {
                m[k].bytes_read as int
            } else {
                0
            };
            let written: int = if m.contains_key(k) {
                m[k].bytes_written as int
            } else {
                0
            };
            let w = after_file(m, e);
            &&& w.contains_key(k) && w.remove(k) == m.remove(k)
            &&& m.contains_key(k) ==> w[k].path == m[k].path && w[k].closed == m[k].closed
            &&& !m.contains_key(k) ==> w[k].path == "<unknown, opened before trace started>"@
                && !w[k].closed
            &&& e.kind == FileEventKind::Read ==> {
                &&& file_fits(m, e) <==> read + e.bytes <= u64::MAX
                &&& file_fits(m, e) ==> w[k].bytes_read == read + e.bytes && w[k].bytes_written
                    == written
            }
            &&& e.kind == FileEventKind::Write ==> {
                &&& file_fits(m, e) <==> written + e.bytes <= u64::MAX
                &&& file_fits(m, e) ==> w[k].bytes_written == written + e.bytes && w[k].bytes_read
                    == read
            }
        }),
{
    let k = (e.pid, e.fd);
    assert(after_file(m, e).remove(k) =~= m.remove(k));
}

/// Closing marks a descriptor that is known, and does nothing to any other.
pub proof fn closing_marks_known_files(m: Map<(u32, i32), FileView>, e: FileEvent)
    requires
        e.kind == FileEventKind::Close,
    ensures
        ({
            let k = (e.pid, e.fd);
            let w = after_file(m, e);
            &&& file_fits(m, e)
            &&& !m.contains_key(k) ==> w == m
            &&& m.contains_key(k) ==> w.contains_key(k) && w[k].closed && w.remove(k) == m.remove(k)
        }),
{
    let k = (e.pid, e.fd);
    assert(after_file(m, e).remove(k) =~= m.remove(k));
}

/// An allocation counts once, with its bytes; a free counts once, and its bytes
/// are not looked at.
pub proof fn allocations_and_frees_are_counted(s: MemEventStats, e: MemEvent)
    ensures
        e.kind == MemEventKind::Alloc ==> {
            &&& mem_fits(s, e) <==> s.alloc_count + 1 <= u64::MAX && s.alloc_bytes + e.bytes
                <= u64::MAX
            &&& mem_fits(s, e) ==> after_mem(s, e).alloc_count == s.alloc_count + 1
            &&& mem_fits(s, e) ==> after_mem(s, e).alloc_bytes == s.alloc_bytes + e.bytes
            &&& after_mem(s, e).free_count == s.free_count
        },
        e.kind == MemEventKind::Free ==> {
            &&& mem_fits(s, e) <==> s.free_count + 1 <= u64::MAX
            &&& mem_fits(s, e) ==> after_mem(s, e).free_count == s.free_count + 1
            &&& after_mem(s, e).alloc_count == s.alloc_count
            &&& after_mem(s, e).alloc_bytes == s.alloc_bytes
        },
{
}

/// Rows that list a table hold each of its entries once, and nothing else.
pub proof fn listed_rows_are_the_entries<K, V>(rows: Seq<(K, V)>, m: Map<K, V>, k: K)
    requires
        lists(rows, m),
    ensures
        m.contains_key(k) ==> rows.contains((k, m[k])),
        forall|i: int| 0 <= i < rows.len() && (#[trigger] rows[i]).0 == k ==> m.contains_key(k)
            && m[k] == rows[i].1,
        forall|i: int, j: int|
            0 <= i < rows.len() && 0 <= j < rows.len() && (#[trigger] rows[i]).0 == k && (
            #[trigger] rows[j]).0 == k ==> i == j,
{
    if m.contains_key(k) {
        let i = choose|i: int| 0 <= i < rows.len() && (#[trigger] rows[i]).0 == k;
        assert(rows[i] == (k, m[k]));
    }
    assert forall|i: int, j: int|
        0 <= i < rows.len() && 0 <= j < rows.len() && (#[trigger] rows[i]).0 == k && (
        #[trigger] rows[j]).0 == k implies i == j by {
        if i < j {
            assert(rows[i].0 != rows[j].0);
        }
        if j < i {
            assert(rows[j].0 != rows[i].0);
        }
    }
}

/// What is said of a file's figures holds of the figures themselves, and what is
/// said of the rows of files of each row in its place.
pub proof fn file_figures_are_what_they_are(f: FileStats, rows: Seq<((u32, i32), FileStats)>)
    ensures
        file_rows(rows).len() == rows.len(),
        forall|i: int|
            0 <= i < rows.len() ==> (#[trigger] file_rows(rows)[i]).0 == rows[i].0 && file_rows(
                rows,
            )[i].1 == rows[i].1@,
        f@.path == f.path@,
        f@.bytes_read == f.bytes_read,
        f@.bytes_written == f.bytes_written,
        f@.closed == f.closed,
{
}

} // verus!
