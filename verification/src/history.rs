//! What the tables tell of everything that happened: after any events, what
//! they hold can be read off the events directly.

use crate::event::{
    EventKind, FileEvent, FileEventKind, MemEvent, MemEventKind, NetEvent, NetEventKind,
    SyscallEvent, TCP_CLOSE,
};
use crate::stats::{
    after_file, after_mem, after_net, after_syscall, connection_of, event_path, file_fits,
    mem_fits, net_fits, syscall_fits, unseen_file, ConnectionKey, ConnectionStats, FileView,
    MemEventStats, SyscallView,
};
use vstd::prelude::*;

verus! {

/// The syscall table after events, starting with nothing.
pub open spec fn syscalls_after(events: Seq<SyscallEvent>) -> SyscallView
    decreases events.len(),
{
    if events.len() == 0 {
        SyscallView { pending: Map::empty(), stats: Map::empty() }
    } else {
        after_syscall(syscalls_after(events.drop_last()), events.last())
    }
}

/// The counters can take all the events.
pub open spec fn syscalls_fit(events: Seq<SyscallEvent>) -> bool
    decreases events.len(),
{
    events.len() > 0 ==> {
        &&& syscalls_fit(events.drop_last())
        &&& syscall_fits(syscalls_after(events.drop_last()), events.last())
    }
}

/// The latest event of a call.
pub open spec fn latest_call(events: Seq<SyscallEvent>, pid: u32, nr: u64) -> Option<SyscallEvent>
    decreases events.len(),
{
    if events.len() == 0 {
        None
    } else if events.last().pid == pid && events.last().syscall_nr == nr {
        Some(events.last())
    } else {
        latest_call(events.drop_last(), pid, nr)
    }
}

/// A call is under way: its latest event is its entry.
pub open spec fn under_way(events: Seq<SyscallEvent>, pid: u32, nr: u64) -> bool {
    latest_call(events, pid, nr) matches Some(e) && e.kind == EventKind::Enter
}

/// The last of the events finishes a call of the given number.
pub open spec fn last_finishes(events: Seq<SyscallEvent>, nr: u64) -> bool {
    let e = events.last();
    e.kind == EventKind::Exit && e.syscall_nr == nr && under_way(events.drop_last(), e.pid, nr)
}

/// How many calls of a number were finished.
pub open spec fn finished(events: Seq<SyscallEvent>, nr: u64) -> nat
    decreases events.len(),
{
    if events.len() == 0 {
        0
    } else {
        finished(events.drop_last(), nr) + (if last_finishes(events, nr) {
            1nat
        } else {
            0
        })
    }
}

/// How long the finished calls of a number took, together.
pub open spec fn time_taken(events: Seq<SyscallEvent>, nr: u64) -> int
    decreases events.len(),
{
    if events.len() == 0 {
        0
    } else {
        let e = events.last();
        let start = latest_call(events.drop_last(), e.pid, nr)->0.timestamp_ns;
        time_taken(events.drop_last(), nr) + (if last_finishes(events, nr) && e.timestamp_ns
            >= start {
            e.timestamp_ns - start
        } else {
            0
        })
    }
}

/// A call is pending exactly while its latest event is its entry, and for each
/// number the finished calls are counted with the time they took.
pub proof fn syscalls_are_told(events: Seq<SyscallEvent>, pid: u32, nr: u64)
    requires
        syscalls_fit(events),
    ensures
        ({
            let v = syscalls_after(events);
            &&& v.pending.contains_key((pid, nr)) <==> under_way(events, pid, nr)
            &&& under_way(events, pid, nr) ==> v.pending[(pid, nr)] == latest_call(
                events,
                pid,
                nr,
            )->0.timestamp_ns
            &&& v.stats.contains_key(nr) <==> finished(events, nr) > 0
            &&& finished(events, nr) > 0 ==> v.stats[nr].count == finished(events, nr)
                && v.stats[nr].total_ns == time_taken(events, nr)
            &&& finished(events, nr) == 0 ==> time_taken(events, nr) == 0
        }),
    decreases events.len(),
{
    if events.len() > 0 {
        let before = events.drop_last();
        let e = events.last();
        syscalls_are_told(before, pid, nr);
        syscalls_are_told(before, e.pid, e.syscall_nr);
    }
}

/// The connection table after events, starting with nothing.
pub open spec fn connections_after(events: Seq<NetEvent>) -> Map<ConnectionKey, ConnectionStats>
    decreases events.len(),
{
    if events.len() == 0 {
        Map::empty()
    } else {
        after_net(connections_after(events.drop_last()), events.last())
    }
}

/// The counters can take all the events.
pub open spec fn connections_fit(events: Seq<NetEvent>) -> bool
    decreases events.len(),
{
    events.len() > 0 ==> {
        &&& connections_fit(events.drop_last())
        &&& net_fits(connections_after(events.drop_last()), events.last())
    }
}

/// An event closes its connection.
pub open spec fn closes(e: NetEvent) -> bool {
    e.kind == NetEventKind::StateChange && e.state == TCP_CLOSE
}

/// The latest event of a connection.
pub open spec fn latest_net(events: Seq<NetEvent>, k: ConnectionKey) -> Option<NetEvent>
    decreases events.len(),
{
    if events.len() == 0 {
        None
    } else if connection_of(events.last()) == k {
        Some(events.last())
    } else {
        latest_net(events.drop_last(), k)
    }
}

/// The retransmits of a connection since it was last closed.
pub open spec fn retransmitted(events: Seq<NetEvent>, k: ConnectionKey) -> nat
    decreases events.len(),
{
    if events.len() == 0 {
        0
    } else {
        let e = events.last();
        let before = retransmitted(events.drop_last(), k);
        if connection_of(e) != k {
            before
        } else if closes(e) {
            0
        } else if e.kind == NetEventKind::Retransmit {
            before + 1
        } else {
            before
        }
    }
}

/// A connection is listed exactly while its latest event is not its closing,
/// in the state of that event, with the retransmits since it was last closed.
pub proof fn connections_are_told(events: Seq<NetEvent>, k: ConnectionKey)
    requires
        connections_fit(events),
    ensures
        ({
            let m = connections_after(events);
            &&& m.contains_key(k) <==> match latest_net(events, k) {
                Some(e) => !closes(e),
                None => false,
            }
            &&& m.contains_key(k) ==> {
                &&& m[k].state == latest_net(events, k)->0.state
                &&& m[k].retransmits == retransmitted(events, k)
            }
            &&& !m.contains_key(k) ==> retransmitted(events, k) == 0
        }),
    decreases events.len(),
{
    if events.len() > 0 {
        connections_are_told(events.drop_last(), k);
    }
}

/// The file table after events, starting with nothing.
pub open spec fn files_after(events: Seq<FileEvent>) -> Map<(u32, i32), FileView>
    decreases events.len(),
{
    if events.len() == 0 {
        Map::empty()
    } else {
        after_file(files_after(events.drop_last()), events.last())
    }
}

/// The counters can take all the events.
pub open spec fn files_fit(events: Seq<FileEvent>) -> bool
    decreases events.len(),
{
    events.len() > 0 ==> {
        &&& files_fit(events.drop_last())
        &&& file_fits(files_after(events.drop_last()), events.last())
    }
}

/// Whether anything but closings was seen of a descriptor.
pub open spec fn used(events: Seq<FileEvent>, k: (u32, i32)) -> bool
    decreases events.len(),
{
    events.len() > 0 && (used(events.drop_last(), k) || ((events.last().pid, events.last().fd) == k
        && events.last().kind != FileEventKind::Close))
}

/// The path that a descriptor was last opened with.
pub open spec fn opened_path(events: Seq<FileEvent>, k: (u32, i32)) -> Seq<char>
    decreases events.len(),
{
    if events.len() == 0 {
        unseen_file().path
    } else if (events.last().pid, events.last().fd) == k && events.last().kind
        == FileEventKind::Open {
        event_path(events.last())
    } else {
        opened_path(events.drop_last(), k)
    }
}

/// The bytes moved one way on a descriptor since it was last opened.
pub open spec fn moved(events: Seq<FileEvent>, k: (u32, i32), way: FileEventKind) -> nat
    decreases events.len(),
{
    if events.len() == 0 {
        0
    } else {
        let e = events.last();
        let before = moved(events.drop_last(), k, way);
        if (e.pid, e.fd) != k {
            before
        } else if e.kind == FileEventKind::Open {
            0
        } else if e.kind == way {
            before + e.bytes as nat
        } else {
            before
        }
    }
}

/// Whether a descriptor was closed since it was last opened, or first used
/// where its opening was not seen.
pub open spec fn shut(events: Seq<FileEvent>, k: (u32, i32)) -> bool
    decreases events.len(),
{
    if events.len() == 0 {
        false
    } else {
        let e = events.last();
        if (e.pid, e.fd) != k {
            shut(events.drop_last(), k)
        } else if e.kind == FileEventKind::Open {
            false
        } else if e.kind == FileEventKind::Close {
            used(events.drop_last(), k)
        } else {
            shut(events.drop_last(), k)
        }
    }
}

/// A descriptor is listed once anything but a closing was seen of it, with the
/// path of its last opening, the bytes moved since, and whether it was closed
/// since.
pub proof fn files_are_told(events: Seq<FileEvent>, k: (u32, i32))
    requires
        files_fit(events),
    ensures
        ({
            let m = files_after(events);
            &&& m.contains_key(k) <==> used(events, k)
            &&& used(events, k) ==> m[k] == (FileView {
                path: opened_path(events, k),
                bytes_read: moved(events, k, FileEventKind::Read) as u64,
                bytes_written: moved(events, k, FileEventKind::Write) as u64,
                closed: shut(events, k),
            })
            &&& !used(events, k) ==> opened_path(events, k) == unseen_file().path && !shut(events, k)
            &&& !used(events, k) ==> moved(events, k, FileEventKind::Read) == 0
            &&& !used(events, k) ==> moved(events, k, FileEventKind::Write) == 0
            &&& moved(events, k, FileEventKind::Read) <= u64::MAX
            &&& moved(events, k, FileEventKind::Write) <= u64::MAX
        }),
    decreases events.len(),
{
    if events.len() > 0 {
        files_are_told(events.drop_last(), k);
    }
}

/// The memory counters after events, starting with nothing.
pub open spec fn memory_after(events: Seq<MemEvent>) -> MemEventStats
    decreases events.len(),
{
    if events.len() == 0 {
        MemEventStats { alloc_count: 0, alloc_bytes: 0, free_count: 0 }
    } else {
        after_mem(memory_after(events.drop_last()), events.last())
    }
}

/// The counters can take all the events.
pub open spec fn memory_fits(events: Seq<MemEvent>) -> bool
    decreases events.len(),
{
    events.len() > 0 ==> {
        &&& memory_fits(events.drop_last())
        &&& mem_fits(memory_after(events.drop_last()), events.last())
    }
}

/// How many of the events are of a kind.
pub open spec fn of_kind(events: Seq<MemEvent>, kind: MemEventKind) -> nat {
    events.filter(|e: MemEvent| e.kind == kind).len()
}

/// The bytes of the allocations, together.
pub open spec fn allocated(events: Seq<MemEvent>) -> nat
    decreases events.len(),
{
    if events.len() == 0 {
        0
    } else if events.last().kind == MemEventKind::Alloc {
        allocated(events.drop_last()) + events.last().bytes as nat
    } else {
        allocated(events.drop_last())
    }
}

/// Allocations and frees are counted, and the bytes of the allocations added
/// up.
pub proof fn allocations_are_told(events: Seq<MemEvent>)
    requires
        memory_fits(events),
    ensures
        memory_after(events).alloc_count == of_kind(events, MemEventKind::Alloc),
        memory_after(events).alloc_bytes == allocated(events),
        memory_after(events).free_count == of_kind(events, MemEventKind::Free),
    decreases events.len(),
{
    reveal(Seq::filter);
    if events.len() > 0 {
        allocations_are_told(events.drop_last());
    }
}

} // verus!
