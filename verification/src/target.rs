//! What is traced: a process, a container or a pod; and whether it may be.

use crate::container::ContainerTarget;
use crate::failure::Failure;
use crate::mem_stats::MemoryTarget;
use crate::text::{decimal, push_decimal};
use vstd::prelude::*;
use vstd::string::*;
use vstd::utf8::{decode_utf8, encode_utf8, is_ascii_chars, is_char_boundary};

verus! {

/// The one thing that is traced.
#[derive(Debug)]
pub enum Target {
    Pid(u32),
    Container(ContainerTarget),
    Pod { name: String, inner: ContainerTarget },
}

/// What the probes let through: the events of one process, or those of every
/// process in one cgroup.
#[derive(Clone, Copy, Debug, PartialEq, Eq, Structural)]
pub enum Filter {
    Pid(u32),
    Cgroup(u64),
}

/// How many bytes of a container's identifier are shown.
pub open spec fn short_len(id: Seq<char>) -> int {
    if encode_utf8(id).len() < 12 {
        encode_utf8(id).len() as int
    } else {
        12
    }
}

/// The beginning of a container's identifier: its first twelve bytes, or all of
/// it.
pub open spec fn short_id(id: Seq<char>) -> Seq<char> {
    decode_utf8(encode_utf8(id).take(short_len(id)))
}

/// The target can be named: the identifier of a container is not cut inside a
/// character.
pub open spec fn has_label(t: Target) -> bool {
    match t {
        Target::Container(c) => is_char_boundary(encode_utf8(c.full_id@), short_len(c.full_id@)),
        _ => true,
    }
}

/// What the target is called.
pub open spec fn label_text(t: Target) -> Seq<char> {
    match t {
        Target::Pid(pid) => "PID "@ + decimal(pid as nat),
        Target::Container(c) => "container "@ + short_id(c.full_id@) + " (cgroup "@ + decimal(
            c.cgroup_id as nat,
        ) + ")"@,
        Target::Pod { name, inner } => "pod "@ + name@ + " (cgroup "@ + decimal(
            inner.cgroup_id as nat,
        ) + ")"@,
    }
}

fn short_bytes(id: &str) -> (n: usize)
    ensures
        n == short_len(id@),
{
    let len: usize = id.as_bytes().len();
    if len < 12 {
        len
    } else {
        12
    }
}

impl Target {
    /// Whether the target can be named.
    pub fn labelled(&self) -> (yes: bool)
        ensures
            yes == has_label(*self),
    {
        match self {
            Target::Container(c) => {
                let id: &str = c.full_id.as_str();
                id.is_char_boundary(short_bytes(id))
            },
            _ => true,
        }
    }

    /// What the target is called.
    pub fn label(&self) -> (text: String)
        requires
            has_label(*self),
        ensures
            text@ == label_text(*self),
    {
        match self {
            Target::Pid(pid) => {
                let mut out: String = "PID ".to_owned();
                push_decimal(&mut out, *pid as u128);
                out
            },
            Target::Container(c) => {
                let id: &str = c.full_id.as_str();
                let (head, _) = id.split_at(short_bytes(id));
                proof {
                    vstd::utf8::encode_utf8_decode_utf8(head@);
                    assert(encode_utf8(id@).subrange(0, short_len(id@)) =~= encode_utf8(id@).take(
                        short_len(id@),
                    ));
                }
                let mut out: String = "container ".to_owned();
                out.append(head);
                out.append(" (cgroup ");
                push_decimal(&mut out, c.cgroup_id as u128);
                out.append(")");
                out
            },
            Target::Pod { name, inner } => {
                let mut out: String = "pod ".to_owned();
                out.append(name.as_str());
                out.append(" (cgroup ");
                push_decimal(&mut out, inner.cgroup_id as u128);
                out.append(")");
                out
            },
        }
    }

    /// Whose memory to look at: for a process its own, not that of whatever
    /// else happens to share its cgroup.
    pub fn memory_target(&self) -> (memory: MemoryTarget)
        ensures
            match *self {
                Target::Pid(pid) => memory == MemoryTarget::Pid(pid),
                Target::Container(c) => memory matches MemoryTarget::Cgroup(path) && path@
                    == c.cgroup_path@,
                Target::Pod { inner, .. } => memory matches MemoryTarget::Cgroup(path) && path@
                    == inner.cgroup_path@,
            },
    {
        match self {
            Target::Pid(pid) => MemoryTarget::Pid(*pid),
            Target::Container(c) => MemoryTarget::Cgroup(c.cgroup_path.clone()),
            Target::Pod { inner, .. } => MemoryTarget::Cgroup(inner.cgroup_path.clone()),
        }
    }

    /// What the probes are to let through.
    pub fn filter(&self) -> (filter: Filter)
        ensures
            filter == filter_of(*self),
    {
        match self {
            Target::Pid(pid) => Filter::Pid(*pid),
            Target::Container(c) => Filter::Cgroup(c.cgroup_id),
            Target::Pod { inner, .. } => Filter::Cgroup(inner.cgroup_id),
        }
    }
}

/// What the probes let through for a target.
pub open spec fn filter_of(t: Target) -> Filter {
    match t {
        Target::Pid(pid) => Filter::Pid(pid),
        Target::Container(c) => Filter::Cgroup(c.cgroup_id),
        Target::Pod { inner, .. } => Filter::Cgroup(inner.cgroup_id),
    }
}

/// The processes that a filter lists by number.
pub open spec fn listed_pids(f: Filter) -> Set<u32> {
    match f {
        Filter::Pid(pid) => set![pid],
        Filter::Cgroup(_) => Set::empty(),
    }
}

/// The cgroups that a filter lists.
pub open spec fn listed_cgroups(f: Filter) -> Set<u64> {
    match f {
        Filter::Pid(_) => Set::empty(),
        Filter::Cgroup(id) => set![id],
    }
}

/// A process belongs to the target.
pub open spec fn belongs(t: Target, pid: u32, cgroup_id: u64) -> bool {
    match t {
        Target::Pid(p) => pid == p,
        Target::Container(c) => cgroup_id == c.cgroup_id,
        Target::Pod { inner, .. } => cgroup_id == inner.cgroup_id,
    }
}

/// With the target's filter in place, the probes let through the events of the
/// target's processes, and of no others.
pub proof fn only_the_target_is_traced(t: Target, pid: u32, cgroup_id: u64)
    ensures
        ({
            let f = filter_of(t);
            (listed_pids(f).contains(pid) || listed_cgroups(f).contains(cgroup_id)) <==> belongs(
                t,
                pid,
                cgroup_id,
            )
        }),
{
}

/// The identifiers that container runtimes give are ASCII: they can always be
/// shown, by their first twelve characters.
pub proof fn ascii_identifiers_are_shown(id: Seq<char>)
    requires
        is_ascii_chars(id),
    ensures
        is_char_boundary(encode_utf8(id), short_len(id)),
        short_id(id) == id.take(
            if id.len() < 12 {
                id.len() as int
            } else {
                12
            },
        ),
{
    vstd::utf8::is_ascii_chars_encode_utf8(id);
    let n = short_len(id);
    let head = id.take(n);
    assert(is_ascii_chars(head));
    vstd::utf8::is_ascii_chars_encode_utf8(head);
    assert(encode_utf8(head) =~= encode_utf8(id).take(n));
    vstd::utf8::encode_utf8_decode_utf8(head);
    vstd::utf8::encode_utf8_valid_utf8(id);
    vstd::utf8::is_char_boundary_start_end_of_seq(encode_utf8(id));
    if n < id.len() {
        vstd::utf8::is_char_boundary_iff_is_leading_byte(encode_utf8(id), n);
        vstd::utf8::is_char_boundary_iff_not_is_continuation_byte(encode_utf8(id), n);
        vstd::utf8::utf8_byte_ranges_bitwise(encode_utf8(id)[n]);
    }
}

/// The directory that a live process has.
pub fn proc_path(pid: u32) -> (path: String)
    ensures
        path@ == "/proc/"@ + decimal(pid as nat),
{
    let mut out: String = "/proc/".to_owned();
    push_decimal(&mut out, pid as u128);
    out
}

/// Refuses a process that is not there; `found` says whether it has its
/// directory.
pub fn check_target_exists(pid: u32, found: bool) -> (checked: Result<(), Failure<String>>)
    ensures
        match checked {
            Ok(_) => found,
            Err(f) => !found && f == (Failure::<String>::NoSuchProcess { pid }),
        },
{
    if found {
        Ok(())
    } else {
        Err(Failure::NoSuchProcess { pid })
    }
}

/// Who may load probes: root, and whoever has both capabilities. Not being able
/// to tell is not having one.
pub fn check_privileges(
    euid: u32,
    cap_bpf: Option<bool>,
    cap_perfmon: Option<bool>,
) -> (checked: Result<(), Failure<String>>)
    ensures
        match checked {
            Ok(_) => euid == 0 || (cap_bpf == Some(true) && cap_perfmon == Some(true)),
            Err(f) => {
                &&& euid != 0 && !(cap_bpf == Some(true) && cap_perfmon == Some(true))
                &&& f == Failure::<String>::NotPrivileged
            },
        },
{
    if euid == 0 {
        return Ok(());
    }
    match (cap_bpf, cap_perfmon) {
        (Some(true), Some(true)) => Ok(()),
        _ => Err(Failure::NotPrivileged),
    }
}

/// A target is called by its process number, or by its name and the number of
/// its cgroup; of a container's identifier the first twelve characters are
/// enough, or all of a shorter one.
pub proof fn targets_are_called_by_name(t: Target)
    ensures
        t matches Target::Pid(pid) ==> label_text(t) == "PID "@ + decimal(pid as nat),
        t matches Target::Pod { name, inner } ==> label_text(t) == "pod "@ + name@ + " (cgroup "@
            + decimal(inner.cgroup_id as nat) + ")"@,
        t matches Target::Container(c) ==> is_ascii_chars(c.full_id@) ==> {
            let shown = if c.full_id@.len() < 12 {
                c.full_id@
            } else {
                c.full_id@.take(12)
            };
            &&& has_label(t)
            &&& label_text(t) == "container "@ + shown + " (cgroup "@ + decimal(c.cgroup_id as nat)
                + ")"@
        },
        !(t is Container) ==> has_label(t),
{
    if let Target::Container(c) = t {
        if is_ascii_chars(c.full_id@) {
            ascii_identifiers_are_shown(c.full_id@);
            assert(c.full_id@.take(c.full_id@.len() as int) =~= c.full_id@);
        }
    }
}

/// A process is filtered by its number, and a container or a pod by the number
/// of its cgroup.
pub proof fn filters_follow_from_the_target(t: Target, pid: u32, cgroup_id: u64)
    ensures
        t matches Target::Pid(p) ==> filter_of(t) == Filter::Pid(p),
        t matches Target::Container(c) ==> filter_of(t) == Filter::Cgroup(c.cgroup_id),
        t matches Target::Pod { inner, .. } ==> filter_of(t) == Filter::Cgroup(inner.cgroup_id),
        t matches Target::Pid(p) ==> (belongs(t, pid, cgroup_id) <==> pid == p),
        t matches Target::Container(c) ==> (belongs(t, pid, cgroup_id) <==> cgroup_id
            == c.cgroup_id),
        t matches Target::Pod { inner, .. } ==> (belongs(t, pid, cgroup_id) <==> cgroup_id
            == inner.cgroup_id),
{
}

} // verus!
