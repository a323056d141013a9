//! What the kernel-side probes decide. A probe sees one tracepoint record, asks
//! whether the event belongs to the target, and if so hands an event on.
//!
//! Most TCP state transitions and all retransmits fire outside the context of
//! the process that owns the socket, so the current process cannot be asked
//! there. A socket is learned to be the target's the first time it changes
//! state in the target's own context, and is matched by its kernel address from
//! then on, until it is closed.

use crate::event::{
    EventKind, NetEvent, NetEventKind, SyscallEvent, AF_INET6, TCP_CLOSE,
};
use crate::wire::{field, read_u16, read_u32, read_u64, ByteOrder};
use vstd::prelude::*;

verus! {

/// Where the syscall number stands in the `raw_syscalls` records, right after
/// the eight bytes common to all tracepoints.
pub const SYSCALL_NR_OFFSET: usize = 8;

/// What a probe returns when it could not do its work.
pub const PROBE_FAILED: u32 = 1;

/// An event belongs to the target if its process is listed, or its cgroup is.
pub fn matches_target(pid_listed: bool, cgroup_listed: bool) -> (yes: bool)
    ensures
        yes == (pid_listed || cgroup_listed),
{
    pid_listed || cgroup_listed
}

/// The `n` bytes at `at` lie inside the record.
pub open spec fn readable(s: Seq<u8>, at: int, n: int) -> bool {
    at + n <= s.len()
}

fn can_read(record: &[u8], at: usize, n: usize) -> (yes: bool)
    ensures
        yes == readable(record@, at as int, n as int),
{
    n <= record.len() && at <= record.len() - n
}

/// Decides on one end of a syscall: nothing for other processes, a failure
/// where the record is too short, and the event otherwise.
pub fn try_emit(
    record: &[u8],
    kind: EventKind,
    pid: u32,
    in_target: bool,
    now_ns: u64,
    order: ByteOrder,
) -> (decision: Result<Option<SyscallEvent>, u32>)
    ensures
        match decision {
            Ok(None) => !in_target,
            Err(code) => in_target && !readable(record@, SYSCALL_NR_OFFSET as int, 8) && code
                == PROBE_FAILED,
            Ok(Some(e)) => {
                &&& in_target
                &&& readable(record@, SYSCALL_NR_OFFSET as int, 8)
                &&& e.pid == pid
                &&& e.kind == kind
                &&& e._pad@ == seq![0u8, 0, 0]
                &&& e.syscall_nr == field(record@, SYSCALL_NR_OFFSET as int, 8, order)
                &&& e.timestamp_ns == now_ns
            },
        },
        decision matches Ok(Some(e)) ==> e.syscall_nr == field(record@, 8, 8, order),
        in_target && record@.len() >= 16 ==> decision matches Ok(Some(_)),
        in_target && record@.len() < 16 ==> decision == Err::<Option<SyscallEvent>, u32>(1),
{
    if !in_target {
        return Ok(None);
    }
    if !can_read(record, SYSCALL_NR_OFFSET, 8) {
        return Err(PROBE_FAILED);
    }
    let pad: [u8; 3] = [0, 0, 0];
    assert(pad@ =~= seq![0u8, 0, 0]);
    Ok(
        Some(
            SyscallEvent {
                pid,
                kind,
                _pad: pad,
                syscall_nr: read_u64(record, SYSCALL_NR_OFFSET, order),
                timestamp_ns: now_ns,
            },
        ),
    )
}

/// Where the fields of a socket tracepoint record stand.
#[derive(Clone, Copy, Debug)]
pub struct NetLayout {
    pub socket: usize,
    pub state: usize,
    pub sport: usize,
    pub dport: usize,
    pub family: usize,
    pub saddr: usize,
    pub daddr: usize,
    pub saddr_v6: usize,
    pub daddr_v6: usize,
}

/// The fields of `sock:inet_sock_set_state`.
pub open spec fn state_fields() -> NetLayout {
    NetLayout {
        socket: 8,
        state: 20,
        sport: 24,
        dport: 26,
        family: 28,
        saddr: 32,
        daddr: 36,
        saddr_v6: 40,
        daddr_v6: 56,
    }
}

/// The fields of `sock:inet_sock_set_state`.
#[verifier::when_used_as_spec(state_fields)]
pub fn state_layout() -> (at: NetLayout)
    ensures
        at == state_fields(),
{
    NetLayout {
        socket: 8,
        state: 20,
        sport: 24,
        dport: 26,
        family: 28,
        saddr: 32,
        daddr: 36,
        saddr_v6: 40,
        daddr_v6: 56,
    }
}

/// The fields of `tcp:tcp_retransmit_skb`.
pub open spec fn retransmit_fields() -> NetLayout {
    NetLayout {
        socket: 16,
        state: 24,
        sport: 28,
        dport: 30,
        family: 32,
        saddr: 34,
        daddr: 38,
        saddr_v6: 42,
        daddr_v6: 58,
    }
}

/// The fields of `tcp:tcp_retransmit_skb`.
#[verifier::when_used_as_spec(retransmit_fields)]
pub fn retransmit_layout() -> (at: NetLayout)
    ensures
        at == retransmit_fields(),
{
    NetLayout {
        socket: 16,
        state: 24,
        sport: 28,
        dport: 30,
        family: 32,
        saddr: 34,
        daddr: 38,
        saddr_v6: 42,
        daddr_v6: 58,
    }
}

/// All fields of an event lie inside the record.
pub open spec fn has_event(s: Seq<u8>, at: NetLayout, order: ByteOrder) -> bool {
    &&& readable(s, at.state as int, 4)
    &&& readable(s, at.sport as int, 2)
    &&& readable(s, at.dport as int, 2)
    &&& readable(s, at.family as int, 2)
    &&& if field(s, at.family as int, 2, order) == AF_INET6 {
        readable(s, at.saddr_v6 as int, 16) && readable(s, at.daddr_v6 as int, 16)
    } else {
        readable(s, at.saddr as int, 4) && readable(s, at.daddr as int, 4)
    }
}

/// An address as events hold it: sixteen bytes, or four and then zeros.
pub open spec fn is_address(a: Seq<u8>, s: Seq<u8>, v6: bool, at_v4: int, at_v6: int) -> bool {
    &&& a.len() == 16
    &&& if v6 {
        a == s.subrange(at_v6, at_v6 + 16)
    } else {
        a.take(4) == s.subrange(at_v4, at_v4 + 4) && forall|i: int| 4 <= i < 16 ==> a[i] == 0
    }
}

/// `e` is the event that the record tells of. The state is the low half of the
/// record's state field.
pub open spec fn is_event(
    e: NetEvent,
    s: Seq<u8>,
    at: NetLayout,
    kind: NetEventKind,
    now_ns: u64,
    order: ByteOrder,
) -> bool {
    let v6 = e.family == AF_INET6;
    &&& e.kind == kind
    &&& e.family == field(s, at.family as int, 2, order)
    &&& e.state == field(s, at.state as int, 4, order) % 0x1_0000
    &&& e.sport == field(s, at.sport as int, 2, order)
    &&& e.dport == field(s, at.dport as int, 2, order)
    &&& is_address(e.saddr@, s, v6, at.saddr as int, at.saddr_v6 as int)
    &&& is_address(e.daddr@, s, v6, at.daddr as int, at.daddr_v6 as int)
    &&& e.timestamp_ns == now_ns
}

fn copy_bytes(record: &[u8], at: usize, n: usize) -> (out: [u8; 16])
    requires
        n <= 16,
        at + n <= record.len(),
    ensures
        out@.len() == 16,
        out@.take(n as int) == record@.subrange(at as int, at + n),
        forall|i: int| n <= i < 16 ==> out@[i] == 0,
{
    let mut out: [u8; 16] = [0;16];
    let mut i: usize = 0;
    while i < n
        invariant
            i <= n <= 16,
            at + n <= record.len(),
            forall|j: int| 0 <= j < i ==> out@[j] == record@[at + j],
            forall|j: int| i <= j < 16 ==> out@[j] == 0,
        decreases n - i,
    {
        out[i] = record[at + i];
        i += 1;
    }
    assert(out@.take(n as int) =~= record@.subrange(at as int, at + n));
    out
}

fn read_event(
    record: &[u8],
    at: NetLayout,
    kind: NetEventKind,
    now_ns: u64,
    order: ByteOrder,
) -> (event: Option<NetEvent>)
    ensures
        match event {
            Some(e) => has_event(record@, at, order) && is_event(
                e,
                record@,
                at,
                kind,
                now_ns,
                order,
            ),
            None => !has_event(record@, at, order),
        },
{
    if !can_read(record, at.state, 4) || !can_read(record, at.sport, 2) || !can_read(
        record,
        at.dport,
        2,
    ) || !can_read(record, at.family, 2) {
        return None;
    }
    let family: u16 = read_u16(record, at.family, order);
    let (saddr, daddr) = if family == AF_INET6 {
        if !can_read(record, at.saddr_v6, 16) || !can_read(record, at.daddr_v6, 16) {
            return None;
        }
        (copy_bytes(record, at.saddr_v6, 16), copy_bytes(record, at.daddr_v6, 16))
    } else {
        if !can_read(record, at.saddr, 4) || !can_read(record, at.daddr, 4) {
            return None;
        }
        (copy_bytes(record, at.saddr, 4), copy_bytes(record, at.daddr, 4))
    };
    assert(saddr@.take(16) =~= saddr@);
    assert(daddr@.take(16) =~= daddr@);
    Some(
        NetEvent {
            kind,
            family,
            state: (read_u32(record, at.state, order) % 0x1_0000) as u16,
            sport: read_u16(record, at.sport, order),
            dport: read_u16(record, at.dport, order),
            saddr,
            daddr,
            timestamp_ns: now_ns,
        },
    )
}

/// Reads the kernel address of the socket that a record is about.
pub fn socket_of(record: &[u8], at: NetLayout, order: ByteOrder) -> (socket: Result<u64, u32>)
    ensures
        match socket {
            Ok(a) => readable(record@, at.socket as int, 8) && a == field(
                record@,
                at.socket as int,
                8,
                order,
            ),
            Err(code) => !readable(record@, at.socket as int, 8) && code == PROBE_FAILED,
        },
        at.socket + 8 <= record@.len() <==> socket is Ok,
{
    if can_read(record, at.socket, 8) {
        Ok(read_u64(record, at.socket, order))
    } else {
        Err(PROBE_FAILED)
    }
}

/// What a socket probe decided: whether to start tracking the socket, and the
/// event to hand on, if any.
#[derive(Clone, Copy, Debug)]
pub struct NetDecision {
    pub track: bool,
    pub event: Result<Option<NetEvent>, u32>,
}

/// The decision on a state change. A socket that is neither known nor changing
/// state in the target's context is left alone; a new one of the target's is to
/// be tracked, whether or not the rest of the record can be read.
pub open spec fn is_state_decision(
    decision: NetDecision,
    record: Seq<u8>,
    already_tracked: bool,
    in_target: bool,
    now_ns: u64,
    order: ByteOrder,
) -> bool {
    let seen = readable(record, state_layout().socket as int, 8);
    let ours = already_tracked || in_target;
    &&& decision.track == (!already_tracked && in_target && seen)
    &&& match decision.event {
        Ok(None) => seen && !ours,
        Ok(Some(e)) => {
            &&& seen && ours && has_event(record, state_layout(), order)
            &&& is_event(e, record, state_layout(), NetEventKind::StateChange, now_ns, order)
        },
        Err(code) => code == PROBE_FAILED && (!seen || (ours && !has_event(
            record,
            state_layout(),
            order,
        ))),
    }
}

/// Decides on a state change of a socket.
pub fn try_net_state(
    record: &[u8],
    already_tracked: bool,
    in_target: bool,
    now_ns: u64,
    order: ByteOrder,
) -> (decision: NetDecision)
    ensures
        is_state_decision(decision, record@, already_tracked, in_target, now_ns, order),
{
    if !can_read(record, state_layout().socket, 8) {
        return NetDecision { track: false, event: Err(PROBE_FAILED) };
    }
    if !already_tracked && !in_target {
        return NetDecision { track: false, event: Ok(None) };
    }
    let event = match read_event(record, state_layout(), NetEventKind::StateChange, now_ns, order) {
        Some(e) => Ok(Some(e)),
        None => Err(PROBE_FAILED),
    };
    NetDecision { track: !already_tracked, event }
}

/// Decides on a retransmit. Only tracked sockets are looked at: the process
/// that happens to run is not the one that owns the socket.
pub fn try_net_retransmit(
    record: &[u8],
    already_tracked: bool,
    now_ns: u64,
    order: ByteOrder,
) -> (event: Result<Option<NetEvent>, u32>)
    ensures
        match event {
            Ok(None) => readable(record@, retransmit_layout().socket as int, 8) && !already_tracked,
            Ok(Some(e)) => {
                &&& readable(record@, retransmit_layout().socket as int, 8)
                &&& already_tracked
                &&& has_event(record@, retransmit_layout(), order)
                &&& is_event(e, record@, retransmit_layout(), NetEventKind::Retransmit, now_ns, order)
            },
            Err(code) => {
                &&& code == PROBE_FAILED
                &&& !readable(record@, retransmit_layout().socket as int, 8) || (already_tracked
                    && !has_event(record@, retransmit_layout(), order))
            },
        },
        record@.len() < 24 ==> event == Err::<Option<NetEvent>, u32>(1),
        record@.len() >= 24 && !already_tracked ==> event == Ok::<Option<NetEvent>, u32>(None),
        record@.len() >= 74 && already_tracked ==> event matches Ok(Some(_)),
        record@.len() >= 24 && record@.len() < 42 && already_tracked ==> event == Err::<
            Option<NetEvent>,
            u32,
        >(1),
        event matches Ok(Some(e)) ==> e.family == 10 ==> e.saddr@ == record@.subrange(42, 58)
            && e.daddr@ == record@.subrange(58, 74),
{
    if !can_read(record, retransmit_layout().socket, 8) {
        return Err(PROBE_FAILED);
    }
    if !already_tracked {
        return Ok(None);
    }
    match read_event(record, retransmit_layout(), NetEventKind::Retransmit, now_ns, order) {
        Some(e) => Ok(Some(e)),
        None => Err(PROBE_FAILED),
    }
}

/// Whether a socket is to be forgotten once its state change was handed on.
pub fn forgets(event: &NetEvent) -> (yes: bool)
    ensures
        yes == (event.state == TCP_CLOSE),
        yes == (event.state == 7),
{
    event.state == TCP_CLOSE
}

/// The decision hands on the closing of its socket.
pub open spec fn is_closing(decision: NetDecision) -> bool {
    decision.event matches Ok(Some(e)) && e.state == TCP_CLOSE
}

/// The sockets known after a state change: a socket to track is added where
/// there is room for it, and one whose closing was handed on is dropped.
pub open spec fn known_after(
    known: Set<u64>,
    socket: u64,
    decision: NetDecision,
    room: bool,
    delivered: bool,
) -> Set<u64> {
    let learned = if decision.track && room {
        known.insert(socket)
    } else {
        known
    };
    if delivered && is_closing(decision) {
        learned.remove(socket)
    } else {
        learned
    }
}

/// A state change of somebody else's socket, outside the target's context, is
/// neither handed on nor does it make the socket known.
pub proof fn other_sockets_stay_silent(
    known: Set<u64>,
    socket: u64,
    decision: NetDecision,
    record: Seq<u8>,
    room: bool,
    delivered: bool,
    now_ns: u64,
    order: ByteOrder,
)
    requires
        !known.contains(socket),
        is_state_decision(decision, record, known.contains(socket), false, now_ns, order),
    ensures
        !(decision.event matches Ok(Some(_))),
        known_after(known, socket, decision, room, delivered) == known,
{
}

/// A state change in the target's context makes the socket known, if there is
/// room, unless it is the closing of the socket.
pub proof fn own_sockets_become_known(
    known: Set<u64>,
    socket: u64,
    decision: NetDecision,
    record: Seq<u8>,
    delivered: bool,
    now_ns: u64,
    order: ByteOrder,
)
    requires
        readable(record, state_layout().socket as int, 8),
        is_state_decision(decision, record, known.contains(socket), true, now_ns, order),
        !is_closing(decision),
    ensures
        known_after(known, socket, decision, true, delivered) == known.insert(socket),
{
    assert(known_after(known, socket, decision, true, delivered) =~= known.insert(socket));
}

/// The state changes of a known socket are handed on from any context, and it
/// stays known until its closing was handed on. Other sockets are not touched.
pub proof fn closed_sockets_are_forgotten(
    known: Set<u64>,
    socket: u64,
    other: u64,
    decision: NetDecision,
    record: Seq<u8>,
    in_target: bool,
    room: bool,
    delivered: bool,
    now_ns: u64,
    order: ByteOrder,
)
    requires
        known.contains(socket),
        other != socket,
        is_state_decision(decision, record, known.contains(socket), in_target, now_ns, order),
    ensures
        readable(record, state_layout().socket as int, 8) && has_event(
            record,
            state_layout(),
            order,
        ) ==> decision.event matches Ok(Some(_)),
        known_after(known, socket, decision, room, delivered).contains(socket) <==> !(delivered
            && is_closing(decision)),
        delivered && (decision.event matches Ok(Some(e)) && e.state == 7) ==> !known_after(
            known,
            socket,
            decision,
            room,
            delivered,
        ).contains(socket),
        decision.event matches Ok(Some(e)) ==> e.state != 7 ==> known_after(
            known,
            socket,
            decision,
            room,
            delivered,
        ).contains(socket),
        known_after(known, socket, decision, room, delivered).contains(other) <==> known.contains(
            other,
        ),
{
}

/// What is read of a socket record whose fields stand at the given places: the
/// low half of the state, the ports, the family, and the addresses, which are
/// sixteen bytes for the family numbered 10 and four followed by zeros for any
/// other. The record must reach to the end of the last of them.
proof fn lemma_socket_record(
    e: NetEvent,
    s: Seq<u8>,
    at: NetLayout,
    kind: NetEventKind,
    now_ns: u64,
    order: ByteOrder,
)
    requires
        is_event(e, s, at, kind, now_ns, order),
    ensures
        e.kind == kind,
        e.timestamp_ns == now_ns,
        e.family == field(s, at.family as int, 2, order),
        e.sport == field(s, at.sport as int, 2, order),
        e.dport == field(s, at.dport as int, 2, order),
        e.state == field(s, at.state as int, 4, order) % 0x1_0000,
        e.family == 10 ==> e.saddr@ == s.subrange(at.saddr_v6 as int, at.saddr_v6 + 16)
            && e.daddr@ == s.subrange(at.daddr_v6 as int, at.daddr_v6 + 16),
        e.family != 10 ==> {
            &&& e.saddr@.take(4) == s.subrange(at.saddr as int, at.saddr + 4)
            &&& e.daddr@.take(4) == s.subrange(at.daddr as int, at.daddr + 4)
            &&& forall|i: int| 4 <= i < 16 ==> e.saddr@[i] == 0
            &&& forall|i: int| 4 <= i < 16 ==> e.daddr@[i] == 0
        },
{
}

/// In a record of a state change the socket stands at 8, the new state at 20,
/// the ports at 24 and 26, the family at 28, IPv4 addresses at 32 and 36, and
/// IPv6 addresses at 40 and 56.
pub proof fn state_changes_are_read_in_place(
    e: NetEvent,
    s: Seq<u8>,
    kind: NetEventKind,
    now_ns: u64,
    order: ByteOrder,
)
    ensures
        state_fields().socket == 8,
        is_event(e, s, state_fields(), kind, now_ns, order) ==> {
            &&& e.kind == kind && e.timestamp_ns == now_ns
            &&& e.state == field(s, 20, 4, order) % 0x1_0000
            &&& e.sport == field(s, 24, 2, order)
            &&& e.dport == field(s, 26, 2, order)
            &&& e.family == field(s, 28, 2, order)
            &&& e.family == 10 ==> e.saddr@ == s.subrange(40, 56) && e.daddr@ == s.subrange(56, 72)
            &&& e.family != 10 ==> e.saddr@.take(4) == s.subrange(32, 36) && e.daddr@.take(4)
                == s.subrange(36, 40)
            &&& e.family != 10 ==> forall|i: int|
                4 <= i < 16 ==> #[trigger] e.saddr@[i] == 0 && e.daddr@[i] == 0
        },
        has_event(s, state_fields(), order) <==> s.len() >= 30 && if field(s, 28, 2, order) == 10 {
            s.len() >= 72
        } else {
            s.len() >= 40
        },
{
    if is_event(e, s, state_fields(), kind, now_ns, order) {
        lemma_socket_record(e, s, state_fields(), kind, now_ns, order);
    }
}

/// In a record of a retransmit the socket stands at 16, the state at 24, the
/// ports at 28 and 30, the family at 32, IPv4 addresses at 34 and 38, and IPv6
/// addresses at 42 and 58.
pub proof fn retransmits_are_read_in_place(
    e: NetEvent,
    s: Seq<u8>,
    kind: NetEventKind,
    now_ns: u64,
    order: ByteOrder,
)
    ensures
        retransmit_fields().socket == 16,
        is_event(e, s, retransmit_fields(), kind, now_ns, order) ==> {
            &&& e.kind == kind && e.timestamp_ns == now_ns
            &&& e.state == field(s, 24, 4, order) % 0x1_0000
            &&& e.sport == field(s, 28, 2, order)
            &&& e.dport == field(s, 30, 2, order)
            &&& e.family == field(s, 32, 2, order)
            &&& e.family == 10 ==> e.saddr@ == s.subrange(42, 58) && e.daddr@ == s.subrange(58, 74)
            &&& e.family != 10 ==> e.saddr@.take(4) == s.subrange(34, 38) && e.daddr@.take(4)
                == s.subrange(38, 42)
            &&& e.family != 10 ==> forall|i: int|
                4 <= i < 16 ==> #[trigger] e.saddr@[i] == 0 && e.daddr@[i] == 0
        },
        has_event(s, retransmit_fields(), order) <==> s.len() >= 34 && if field(s, 32, 2, order)
            == 10 {
            s.len() >= 74
        } else {
            s.len() >= 42
        },
{
    if is_event(e, s, retransmit_fields(), kind, now_ns, order) {
        lemma_socket_record(e, s, retransmit_fields(), kind, now_ns, order);
    }
}

/// A state change and a retransmit of one socket are about the same connection:
/// records that hold the same ports, family and addresses, each in its own
/// place, give events that agree in them.
pub proof fn both_records_name_the_same_connection(
    a: NetEvent,
    s: Seq<u8>,
    b: NetEvent,
    t: Seq<u8>,
    order: ByteOrder,
)
    requires
        is_event(a, s, state_fields(), a.kind, a.timestamp_ns, order),
        is_event(b, t, retransmit_fields(), b.kind, b.timestamp_ns, order),
        s.len() >= 72,
        t.len() >= 74,
        s.subrange(24, 30) == t.subrange(28, 34),
        s.subrange(32, 72) == t.subrange(34, 74),
    ensures
        a.family == b.family && a.sport == b.sport && a.dport == b.dport,
        a.saddr == b.saddr && a.daddr == b.daddr,
{
    state_changes_are_read_in_place(a, s, a.kind, a.timestamp_ns, order);
    retransmits_are_read_in_place(b, t, b.kind, b.timestamp_ns, order);
    let (x, y) = (s.subrange(24, 30), t.subrange(28, 34));
    assert(s.subrange(24, 26) =~= x.subrange(0, 2) && t.subrange(28, 30) =~= y.subrange(0, 2));
    assert(s.subrange(26, 28) =~= x.subrange(2, 4) && t.subrange(30, 32) =~= y.subrange(2, 4));
    assert(s.subrange(28, 30) =~= x.subrange(4, 6) && t.subrange(32, 34) =~= y.subrange(4, 6));
    let (p, q) = (s.subrange(32, 72), t.subrange(34, 74));
    assert(s.subrange(32, 36) =~= p.subrange(0, 4) && t.subrange(34, 38) =~= q.subrange(0, 4));
    assert(s.subrange(36, 40) =~= p.subrange(4, 8) && t.subrange(38, 42) =~= q.subrange(4, 8));
    assert(s.subrange(40, 56) =~= p.subrange(8, 24) && t.subrange(42, 58) =~= q.subrange(8, 24));
    assert(s.subrange(56, 72) =~= p.subrange(24, 40) && t.subrange(58, 74) =~= q.subrange(24, 40));
    assert forall|i: int| 0 <= i < 16 implies a.saddr@[i] == b.saddr@[i] && a.daddr@[i]
        == b.daddr@[i] by {
        if a.family != 10 && i < 4 {
            assert(a.saddr@.take(4)[i] == b.saddr@.take(4)[i]);
            assert(a.daddr@.take(4)[i] == b.daddr@.take(4)[i]);
        }
    }
    assert(a.saddr =~= b.saddr);
    assert(a.daddr =~= b.daddr);
}

/// A state change is handed on exactly if the socket is known or the change
/// happens in the target's context, and the record is long enough; a socket of
/// the target's that is not known is to be tracked once the record names it.
pub proof fn state_changes_of_the_target_are_handed_on(
    decision: NetDecision,
    s: Seq<u8>,
    known: bool,
    in_target: bool,
    now_ns: u64,
    order: ByteOrder,
)
    requires
        is_state_decision(decision, s, known, in_target, now_ns, order),
    ensures
        decision.track <==> !known && in_target && s.len() >= 16,
        s.len() < 16 ==> decision.event == Err::<Option<NetEvent>, u32>(1),
        s.len() >= 16 && !known && !in_target ==> decision.event == Ok::<Option<NetEvent>, u32>(
            None,
        ),
        s.len() >= 72 && (known || in_target) ==> decision.event matches Ok(Some(_)),
        s.len() >= 16 && s.len() < 40 && (known || in_target) ==> decision.event == Err::<
            Option<NetEvent>,
            u32,
        >(1),
        decision.event matches Ok(Some(e)) ==> is_event(
            e,
            s,
            state_fields(),
            NetEventKind::StateChange,
            now_ns,
            order,
        ),
{
}

} // verus!
