//! The records that the kernel probes write to their ring buffers and the
//! program reads back: one record per event, of a fixed size for each kind.

use crate::wire::{
    byte_span, field, fields_kept, push_bytes, push_u16, push_u32, push_u64, read_u16, read_u32, read_u64,
    values_fit, ByteOrder,
};
use vstd::prelude::*;

verus! {

/// The address family of IPv6.
pub const AF_INET6: u16 = 10;

/// The TCP state of a connection that is gone.
pub const TCP_CLOSE: u16 = 7;

/// How many bytes of a path a file record can hold.
pub const FILE_PATH_MAX: usize = 256;

/// The size of a syscall record.
pub const SYSCALL_EVENT_SIZE: usize = 24;

/// The size of a network record.
pub const NET_EVENT_SIZE: usize = 56;

/// The size of a file record: a header, then the path.
pub const FILE_EVENT_SIZE: usize = 272;

/// The size of a memory record.
pub const MEM_EVENT_SIZE: usize = 16;

/// Which end of a syscall was seen.
#[derive(Clone, Copy, Debug, PartialEq, Eq, Structural)]
pub enum EventKind {
    /// The syscall was entered.
    Enter,
    /// The syscall returned.
    Exit,
}

/// One end of one syscall of the target.
#[derive(Clone, Copy, Debug)]
pub struct SyscallEvent {
    pub pid: u32,
    pub kind: EventKind,
    pub _pad: [u8; 3],
    pub syscall_nr: u64,
    pub timestamp_ns: u64,
}

/// What happened to a connection.
#[derive(Clone, Copy, Debug, PartialEq, Eq, Structural)]
pub enum NetEventKind {
    /// It went into another TCP state.
    StateChange,
    /// A segment was sent again.
    Retransmit,
}

/// One event on a TCP connection of the target. IPv4 addresses stand in the
/// first four bytes of `saddr` and `daddr`.
#[derive(Clone, Copy, Debug)]
pub struct NetEvent {
    pub kind: NetEventKind,
    pub family: u16,
    pub state: u16,
    pub sport: u16,
    pub dport: u16,
    pub saddr: [u8; 16],
    pub daddr: [u8; 16],
    pub timestamp_ns: u64,
}

/// What happened to a file descriptor.
#[derive(Clone, Copy, Debug, PartialEq, Eq, Structural)]
pub enum FileEventKind {
    /// It was opened.
    Open,
    /// It was closed.
    Close,
    /// Bytes were read from it.
    Read,
    /// Bytes were written to it.
    Write,
}

/// One event on a file descriptor of the target.
#[derive(Clone, Copy, Debug)]
pub struct FileEvent {
    pub pid: u32,
    pub fd: i32,
    pub bytes: u32,
    pub path_len: u16,
    pub kind: FileEventKind,
    pub path: [u8; FILE_PATH_MAX],
}

/// What happened to kernel memory.
#[derive(Clone, Copy, Debug, PartialEq, Eq, Structural)]
pub enum MemEventKind {
    /// It was allocated.
    Alloc,
    /// It was freed.
    Free,
}

/// One kernel allocation or free on behalf of the target.
#[derive(Clone, Copy, Debug)]
pub struct MemEvent {
    pub kind: MemEventKind,
    pub bytes: u64,
}

/// The byte that stands for a kind of syscall event.
pub open spec fn event_code(kind: EventKind) -> int {
    match kind {
        EventKind::Enter => 0,
        EventKind::Exit => 1,
    }
}

/// The byte that stands for a kind of network event.
pub open spec fn net_code(kind: NetEventKind) -> int {
    match kind {
        NetEventKind::StateChange => 0,
        NetEventKind::Retransmit => 1,
    }
}

/// The byte that stands for a kind of file event.
pub open spec fn file_code(kind: FileEventKind) -> int {
    match kind {
        FileEventKind::Open => 0,
        FileEventKind::Close => 1,
        FileEventKind::Read => 2,
        FileEventKind::Write => 3,
    }
}

/// The byte that stands for a kind of memory event.
pub open spec fn mem_code(kind: MemEventKind) -> int {
    match kind {
        MemEventKind::Alloc => 0,
        MemEventKind::Free => 1,
    }
}

/// A file descriptor as the four-byte number that stands for it.
pub open spec fn fd_code(fd: i32) -> int {
    if fd < 0 {
        fd + 0x1_0000_0000
    } else {
        fd as int
    }
}

/// `s` is a syscall record that holds `e`.
pub open spec fn holds_syscall(s: Seq<u8>, e: SyscallEvent, order: ByteOrder) -> bool {
    &&& s.len() == SYSCALL_EVENT_SIZE
    &&& field(s, 0, 4, order) == e.pid
    &&& s[4] == event_code(e.kind)
    &&& s.subrange(5, 8) == e._pad@
    &&& field(s, 8, 8, order) == e.syscall_nr
    &&& field(s, 16, 8, order) == e.timestamp_ns
}

/// `s` is a network record that holds `e`.
pub open spec fn holds_net(s: Seq<u8>, e: NetEvent, order: ByteOrder) -> bool {
    &&& s.len() == NET_EVENT_SIZE
    &&& s[0] == net_code(e.kind)
    &&& field(s, 2, 2, order) == e.family
    &&& field(s, 4, 2, order) == e.state
    &&& field(s, 6, 2, order) == e.sport
    &&& field(s, 8, 2, order) == e.dport
    &&& s.subrange(10, 26) == e.saddr@
    &&& s.subrange(26, 42) == e.daddr@
    &&& field(s, 48, 8, order) == e.timestamp_ns
}

/// `s` is a file record that holds `e`.
pub open spec fn holds_file(s: Seq<u8>, e: FileEvent, order: ByteOrder) -> bool {
    &&& s.len() == FILE_EVENT_SIZE
    &&& field(s, 0, 4, order) == e.pid
    &&& field(s, 4, 4, order) == fd_code(e.fd)
    &&& field(s, 8, 4, order) == e.bytes
    &&& field(s, 12, 2, order) == e.path_len
    &&& s[14] == file_code(e.kind)
    &&& s.subrange(16, FILE_EVENT_SIZE as int) == e.path@
}

/// `s` is a memory record that holds `e`.
pub open spec fn holds_mem(s: Seq<u8>, e: MemEvent, order: ByteOrder) -> bool {
    &&& s.len() == MEM_EVENT_SIZE
    &&& s[0] == mem_code(e.kind)
    &&& field(s, 8, 8, order) == e.bytes
}

fn take_bytes<const N: usize>(record: &[u8], at: usize) -> (out: [u8; N])
    requires
        at + N <= record.len(),
    ensures
        out@ == record@.subrange(at as int, at + N),
{
    let mut out: [u8; N] = [0;N];
    let mut i: usize = 0;
    while i < N
        invariant
            i <= N,
            at + N <= record.len(),
            forall|j: int| 0 <= j < i ==> out@[j] == record@[at + j],
        decreases N - i,
    {
        out[i] = record[at + i];
        i += 1;
    }
    assert(out@ =~= record@.subrange(at as int, at + N));
    out
}

/// The event in a syscall record, if it holds one.
pub open spec fn syscall_in(s: Seq<u8>, order: ByteOrder) -> Option<SyscallEvent> {
    if exists|e: SyscallEvent| holds_syscall(s, e, order) {
        Some(choose|e: SyscallEvent| holds_syscall(s, e, order))
    } else {
        None
    }
}

/// Reads a syscall record. A record of the wrong size or of an unknown kind holds
/// no event.
pub fn decode_syscall(record: &[u8], order: ByteOrder) -> (event: Option<SyscallEvent>)
    ensures
        event == syscall_in(record@, order),
        match event {
            Some(e) => holds_syscall(record@, e, order),
            None => record@.len() != SYSCALL_EVENT_SIZE || record@[4] > 1,
        },
{
    if record.len() != SYSCALL_EVENT_SIZE {
        return None;
    }
    let kind = match record[4] {
        0 => EventKind::Enter,
        1 => EventKind::Exit,
        _ => {
            return None;
        },
    };
    let event = SyscallEvent {
        pid: read_u32(record, 0, order),
        kind,
        _pad: take_bytes::<3>(record, 5),
        syscall_nr: read_u64(record, 8, order),
        timestamp_ns: read_u64(record, 16, order),
    };
    proof {
        assert(holds_syscall(record@, event, order));
        syscall_events_are_read_back(record@, event, order);
    }
    Some(event)
}

/// The event in a network record, if it holds one.
pub open spec fn net_in(s: Seq<u8>, order: ByteOrder) -> Option<NetEvent> {
    if exists|e: NetEvent| holds_net(s, e, order) {
        Some(choose|e: NetEvent| holds_net(s, e, order))
    } else {
        None
    }
}

/// Reads a network record. A record of the wrong size or of an unknown kind holds
/// no event.
pub fn decode_net(record: &[u8], order: ByteOrder) -> (event: Option<NetEvent>)
    ensures
        event == net_in(record@, order),
        match event {
            Some(e) => holds_net(record@, e, order),
            None => record@.len() != NET_EVENT_SIZE || record@[0] > 1,
        },
{
    if record.len() != NET_EVENT_SIZE {
        return None;
    }
    let kind = match record[0] {
        0 => NetEventKind::StateChange,
        1 => NetEventKind::Retransmit,
        _ => {
            return None;
        },
    };
    let event = NetEvent {
        kind,
        family: read_u16(record, 2, order),
        state: read_u16(record, 4, order),
        sport: read_u16(record, 6, order),
        dport: read_u16(record, 8, order),
        saddr: take_bytes::<16>(record, 10),
        daddr: take_bytes::<16>(record, 26),
        timestamp_ns: read_u64(record, 48, order),
    };
    proof {
        assert(holds_net(record@, event, order));
        net_events_are_read_back(record@, event, order);
    }
    Some(event)
}

/// The event in a file record, if it holds one.
pub open spec fn file_in(s: Seq<u8>, order: ByteOrder) -> Option<FileEvent> {
    if exists|e: FileEvent| holds_file(s, e, order) {
        Some(choose|e: FileEvent| holds_file(s, e, order))
    } else {
        None
    }
}

/// Reads a file record. A record of the wrong size or of an unknown kind holds
/// no event.
pub fn decode_file(record: &[u8], order: ByteOrder) -> (event: Option<FileEvent>)
    ensures
        event == file_in(record@, order),
        match event {
            Some(e) => holds_file(record@, e, order),
            None => record@.len() != FILE_EVENT_SIZE || record@[14] > 3,
        },
{
    if record.len() != FILE_EVENT_SIZE {
        return None;
    }
    let kind = match record[14] {
        0 => FileEventKind::Open,
        1 => FileEventKind::Close,
        2 => FileEventKind::Read,
        3 => FileEventKind::Write,
        _ => {
            return None;
        },
    };
    let fd_bits: u32 = read_u32(record, 4, order);
    let fd: i32 = if fd_bits < 0x8000_0000 {
        fd_bits as i32
    } else {
        (fd_bits as i64 - 0x1_0000_0000) as i32
    };
    let event = FileEvent {
        pid: read_u32(record, 0, order),
        fd,
        bytes: read_u32(record, 8, order),
        path_len: read_u16(record, 12, order),
        kind,
        path: take_bytes::<FILE_PATH_MAX>(record, 16),
    };
    proof {
        assert(holds_file(record@, event, order));
        file_events_are_read_back(record@, event, order);
    }
    Some(event)
}

/// The event in a memory record, if it holds one.
pub open spec fn mem_in(s: Seq<u8>, order: ByteOrder) -> Option<MemEvent> {
    if exists|e: MemEvent| holds_mem(s, e, order) {
        Some(choose|e: MemEvent| holds_mem(s, e, order))
    } else {
        None
    }
}

/// Reads a memory record. A record of the wrong size or of an unknown kind holds
/// no event.
pub fn decode_mem(record: &[u8], order: ByteOrder) -> (event: Option<MemEvent>)
    ensures
        event == mem_in(record@, order),
        match event {
            Some(e) => holds_mem(record@, e, order),
            None => record@.len() != MEM_EVENT_SIZE || record@[0] > 1,
        },
{
    if record.len() != MEM_EVENT_SIZE {
        return None;
    }
    let kind = match record[0] {
        0 => MemEventKind::Alloc,
        1 => MemEventKind::Free,
        _ => {
            return None;
        },
    };
    let event = MemEvent {
        kind,
        bytes: read_u64(record, 8, order),
    };
    proof {
        assert(holds_mem(record@, event, order));
        mem_events_are_read_back(record@, event, order);
    }
    Some(event)
}

/// Writes a syscall record.
pub fn encode_syscall(event: &SyscallEvent, order: ByteOrder) -> (record: Vec<u8>)
    ensures
        holds_syscall(record@, *event, order),
{
    let mut out: Vec<u8> = Vec::new();
    push_u32(&mut out, event.pid, order);
    let ghost a = out@;
    out.push(
        match event.kind {
            EventKind::Enter => 0,
            EventKind::Exit => 1,
        },
    );
    push_bytes(&mut out, &event._pad);
    push_u64(&mut out, event.syscall_nr, order);
    let ghost b = out@;
    push_u64(&mut out, event.timestamp_ns, order);
    proof {
        assert(b.take(4) =~= a);
        assert(out@.take(4) =~= b.take(4));
        fields_kept(a, out@, 0, 4, order);
        fields_kept(b, out@, 8, 8, order);
        assert(out@.take(8) =~= b.take(8));
        assert(out@.subrange(5, 8) =~= event._pad@) by {
            assert forall|i: int| 0 <= i < 3 implies out@[5 + i] == event._pad@[i] by {
                assert(out@.take(8)[5 + i] == b.take(8)[5 + i]);
            }
        }
        assert(out@[4] == out@.take(8)[4]);
    }
    out
}

/// Writes a network record.
pub fn encode_net(event: &NetEvent, order: ByteOrder) -> (record: Vec<u8>)
    ensures
        holds_net(record@, *event, order),
{
    let mut out: Vec<u8> = Vec::new();
    out.push(
        match event.kind {
            NetEventKind::StateChange => 0,
            NetEventKind::Retransmit => 1,
        },
    );
    out.push(0);
    push_u16(&mut out, event.family, order);
    let ghost b = out@;
    push_u16(&mut out, event.state, order);
    let ghost c = out@;
    push_u16(&mut out, event.sport, order);
    let ghost d = out@;
    push_u16(&mut out, event.dport, order);
    let ghost e = out@;
    push_bytes(&mut out, &event.saddr);
    push_bytes(&mut out, &event.daddr);
    push_bytes(&mut out, &[0, 0, 0, 0, 0, 0]);
    let ghost f = out@;
    push_u64(&mut out, event.timestamp_ns, order);
    proof {
        let s = out@;
        assert(f.take(10) =~= e);
        assert(s.take(10) =~= s.take(48).take(10));
        assert(s.take(8) =~= s.take(10).take(8));
        assert(s.take(6) =~= s.take(8).take(6));
        assert(s.take(4) =~= s.take(6).take(4));
        assert(s.take(2) =~= s.take(4).take(2));
        assert(s[0] == s.take(2)[0]);
        fields_kept(b, s, 2, 2, order);
        fields_kept(c, s, 4, 2, order);
        fields_kept(d, s, 6, 2, order);
        fields_kept(e, s, 8, 2, order);
        assert(s.subrange(10, 26) =~= s.take(48).subrange(10, 26));
        assert(s.subrange(26, 42) =~= s.take(48).subrange(26, 42));
        assert(f.subrange(10, 26) =~= event.saddr@);
        assert(f.subrange(26, 42) =~= event.daddr@);
    }
    out
}

/// Writes a file record.
pub fn encode_file(event: &FileEvent, order: ByteOrder) -> (record: Vec<u8>)
    ensures
        holds_file(record@, *event, order),
{
    let mut out: Vec<u8> = Vec::new();
    push_u32(&mut out, event.pid, order);
    let ghost a = out@;
    let fd_bits: u32 = if event.fd < 0 {
        (event.fd as i64 + 0x1_0000_0000) as u32
    } else {
        event.fd as u32
    };
    push_u32(&mut out, fd_bits, order);
    let ghost b = out@;
    push_u32(&mut out, event.bytes, order);
    let ghost c = out@;
    push_u16(&mut out, event.path_len, order);
    let ghost d = out@;
    out.push(
        match event.kind {
            FileEventKind::Open => 0,
            FileEventKind::Close => 1,
            FileEventKind::Read => 2,
            FileEventKind::Write => 3,
        },
    );
    out.push(0);
    push_bytes(&mut out, &event.path);
    proof {
        let s = out@;
        assert(s.take(14) =~= d);
        assert(s.take(12) =~= s.take(14).take(12));
        assert(s.take(8) =~= s.take(12).take(8));
        assert(s.take(4) =~= s.take(8).take(4));
        fields_kept(a, s, 0, 4, order);
        fields_kept(b, s, 4, 4, order);
        fields_kept(c, s, 8, 4, order);
        fields_kept(d, s, 12, 2, order);
        assert(s.subrange(16, FILE_EVENT_SIZE as int) =~= event.path@);
    }
    out
}

/// Writes a memory record.
pub fn encode_mem(event: &MemEvent, order: ByteOrder) -> (record: Vec<u8>)
    ensures
        holds_mem(record@, *event, order),
{
    let mut out: Vec<u8> = Vec::new();
    out.push(
        match event.kind {
            MemEventKind::Alloc => 0,
            MemEventKind::Free => 1,
        },
    );
    push_bytes(&mut out, &[0, 0, 0, 0, 0, 0, 0]);
    push_u64(&mut out, event.bytes, order);
    assert(out@[0] == out@.take(8)[0]);
    out
}

proof fn lemma_one_syscall_event(s: Seq<u8>, a: SyscallEvent, b: SyscallEvent, order: ByteOrder)
    requires
        holds_syscall(s, a, order),
        holds_syscall(s, b, order),
    ensures
        a == b,
{
    assert(a._pad =~= b._pad);
}

/// The event that a syscall record was written with is the one that is read back.
pub proof fn syscall_events_are_read_back(s: Seq<u8>, e: SyscallEvent, order: ByteOrder)
    requires
        holds_syscall(s, e, order),
    ensures
        syscall_in(s, order) == Some(e),
{
    lemma_one_syscall_event(s, e, choose|f: SyscallEvent| holds_syscall(s, f, order), order);
}

proof fn lemma_one_net_event(s: Seq<u8>, a: NetEvent, b: NetEvent, order: ByteOrder)
    requires
        holds_net(s, a, order),
        holds_net(s, b, order),
    ensures
        a == b,
{
    assert(a.saddr =~= b.saddr);
    assert(a.daddr =~= b.daddr);
}

/// The event that a network record was written with is the one that is read back.
pub proof fn net_events_are_read_back(s: Seq<u8>, e: NetEvent, order: ByteOrder)
    requires
        holds_net(s, e, order),
    ensures
        net_in(s, order) == Some(e),
{
    lemma_one_net_event(s, e, choose|f: NetEvent| holds_net(s, f, order), order);
}

proof fn lemma_one_file_event(s: Seq<u8>, a: FileEvent, b: FileEvent, order: ByteOrder)
    requires
        holds_file(s, a, order),
        holds_file(s, b, order),
    ensures
        a == b,
{
    assert(a.path =~= b.path);
}

/// The event that a file record was written with is the one that is read back.
pub proof fn file_events_are_read_back(s: Seq<u8>, e: FileEvent, order: ByteOrder)
    requires
        holds_file(s, e, order),
    ensures
        file_in(s, order) == Some(e),
{
    lemma_one_file_event(s, e, choose|f: FileEvent| holds_file(s, f, order), order);
}

proof fn lemma_one_mem_event(s: Seq<u8>, a: MemEvent, b: MemEvent, order: ByteOrder)
    requires
        holds_mem(s, a, order),
        holds_mem(s, b, order),
    ensures
        a == b,
{
}

/// The event that a memory record was written with is the one that is read back.
pub proof fn mem_events_are_read_back(s: Seq<u8>, e: MemEvent, order: ByteOrder)
    requires
        holds_mem(s, e, order),
    ensures
        mem_in(s, order) == Some(e),
{
    lemma_one_mem_event(s, e, choose|f: MemEvent| holds_mem(s, f, order), order);
}

/// The number that stands for each kind is the one that the probes write.
pub proof fn kinds_have_their_numbers()
    ensures
        event_code(EventKind::Enter) == 0 && event_code(EventKind::Exit) == 1,
        net_code(NetEventKind::StateChange) == 0 && net_code(NetEventKind::Retransmit) == 1,
        file_code(FileEventKind::Open) == 0 && file_code(FileEventKind::Close) == 1,
        file_code(FileEventKind::Read) == 2 && file_code(FileEventKind::Write) == 3,
        mem_code(MemEventKind::Alloc) == 0 && mem_code(MemEventKind::Free) == 1,
{
}

/// A syscall record has 24 bytes: the process at 0, the kind at 4, three unused,
/// the number at 8 and the time at 16.
pub proof fn syscall_records_have_their_layout(s: Seq<u8>, e: SyscallEvent, order: ByteOrder)
    ensures
        holds_syscall(s, e, order) <==> {
            &&& s.len() == 24
            &&& e.pid == field(s, 0, 4, order)
            &&& s[4] == 0 && e.kind == EventKind::Enter || s[4] == 1 && e.kind == EventKind::Exit
            &&& e._pad@ == s.subrange(5, 8)
            &&& e.syscall_nr == field(s, 8, 8, order)
            &&& e.timestamp_ns == field(s, 16, 8, order)
        },
{
}

/// A network record has 56 bytes: the kind at 0, the family at 2, the state at
/// 4, the ports at 6 and 8, the addresses at 10 and 26 and the time at 48.
pub proof fn net_records_have_their_layout(s: Seq<u8>, e: NetEvent, order: ByteOrder)
    ensures
        holds_net(s, e, order) <==> {
            &&& s.len() == 56
            &&& s[0] == 0 && e.kind == NetEventKind::StateChange || s[0] == 1 && e.kind
                == NetEventKind::Retransmit
            &&& e.family == field(s, 2, 2, order)
            &&& e.state == field(s, 4, 2, order)
            &&& e.sport == field(s, 6, 2, order)
            &&& e.dport == field(s, 8, 2, order)
            &&& e.saddr@ == s.subrange(10, 26)
            &&& e.daddr@ == s.subrange(26, 42)
            &&& e.timestamp_ns == field(s, 48, 8, order)
        },
{
}

/// A file record has 272 bytes: the process at 0, the descriptor at 4, the bytes
/// moved at 8, the length of the path at 12, the kind at 14 and the path at 16.
/// Descriptors are signed: the upper half of the numbers are the negative ones.
pub proof fn file_records_have_their_layout(s: Seq<u8>, e: FileEvent, order: ByteOrder)
    ensures
        holds_file(s, e, order) <==> {
            &&& s.len() == 272
            &&& e.pid == field(s, 0, 4, order)
            &&& e.fd == field(s, 4, 4, order) || e.fd == field(s, 4, 4, order) - 0x1_0000_0000
            &&& e.bytes == field(s, 8, 4, order)
            &&& e.path_len == field(s, 12, 2, order)
            &&& s[14] == 0 && e.kind == FileEventKind::Open || s[14] == 1 && e.kind
                == FileEventKind::Close || s[14] == 2 && e.kind == FileEventKind::Read || s[14] == 3
                && e.kind == FileEventKind::Write
            &&& e.path@ == s.subrange(16, 272)
        },
{
    if s.len() == 272 {
        values_fit(s.subrange(4, 8), order);
        reveal_with_fuel(byte_span, 5);
    }
}

/// A memory record has 16 bytes: the kind at 0 and the bytes at 8.
pub proof fn mem_records_have_their_layout(s: Seq<u8>, e: MemEvent, order: ByteOrder)
    ensures
        holds_mem(s, e, order) <==> {
            &&& s.len() == 16
            &&& s[0] == 0 && e.kind == MemEventKind::Alloc || s[0] == 1 && e.kind
                == MemEventKind::Free
            &&& e.bytes == field(s, 8, 8, order)
        },
{
}

/// An event is in a record exactly if the record holds it.
pub proof fn records_hold_what_is_in_them(s: Seq<u8>, order: ByteOrder)
    ensures
        syscall_in(s, order) matches Some(e) ==> holds_syscall(s, e, order),
        net_in(s, order) matches Some(e) ==> holds_net(s, e, order),
        file_in(s, order) matches Some(e) ==> holds_file(s, e, order),
        mem_in(s, order) matches Some(e) ==> holds_mem(s, e, order),
{
}

} // verus!
