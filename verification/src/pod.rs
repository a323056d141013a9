//! From a pod to a container, by way of `kubectl` for the node and the
//! container, and `docker` or `crictl` for a process of it.
//!
//! A pod on another node cannot be reached: the probes see their own node's
//! kernel only. What to run instead is said.

use crate::container::Output;
use crate::failure::{Failure, Tool};
use crate::file_table::{lossy_text, utf8_lossy};
use crate::resolve::Resolution;
use crate::scan::{
    eq_ignore_ascii_case, is_white, joined_parts_are_split, number_value, parse_number,
    same_but_case, split_first, split_once, splits_are_at_the_first_separator, trim, trimmed,
    trimming_finds_the_core, written_numbers_are_read,
};
use crate::text::{decimal, is_digit_char, numbers_are_digits, same_text};
use vstd::prelude::*;
use vstd::string::*;

verus! {

/// Starts to resolve a pod.
pub fn resolve(pod: &str, namespace: &str) -> (r: Resolution<String>)
    ensures
        r@ == (Resolution::Pod { pod: pod@, namespace: namespace@ }),
{
    Resolution::Pod { pod: pod.to_owned(), namespace: namespace.to_owned() }
}

/// What `kubectl get pod` says, read as the pod's node and its container: the
/// two parts of its trimmed output around the first bar.
pub open spec fn pod_read(pod: Seq<char>, namespace: Seq<char>, out: Seq<char>) -> Result<
    (Seq<char>, Seq<char>),
    Failure<Seq<char>>,
> {
    match split_first(trimmed(out), "|"@) {
        None => Err(Failure::UnexpectedPod { stdout: out }),
        Some(parts) => if parts.1.len() == 0 {
            Err(Failure::NoContainerYet { pod, namespace })
        } else {
            Ok((parts.0, parts.1))
        },
    }
}

/// What comes of running `kubectl get pod`, or of not being able to.
pub open spec fn pod_result(pod: Seq<char>, namespace: Seq<char>, output: Option<Output>) -> Result<
    (Seq<char>, Seq<char>),
    Failure<Seq<char>>,
> {
    match output {
        None => Err(Failure::CannotRun { tool: Tool::Kubectl }),
        Some(o) => if o.success {
            pod_read(pod, namespace, utf8_lossy(o.stdout@))
        } else {
            Err(Failure::NoSuchPod { pod, namespace, stderr: trimmed(utf8_lossy(o.stderr@)) })
        },
    }
}

/// The text of a result, as characters.
pub open spec fn two_texts(r: Result<(String, String), Failure<String>>) -> Result<
    (Seq<char>, Seq<char>),
    Failure<Seq<char>>,
> {
    match r {
        Ok(p) => Ok((p.0@, p.1@)),
        Err(f) => Err(f@),
    }
}

/// Reads what `kubectl get pod` printed.
pub fn read_pod(pod: &str, namespace: &str, stdout: &str) -> (found: Result<
    (String, String),
    Failure<String>,
>)
    ensures
        two_texts(found) == pod_read(pod@, namespace@, stdout@),
{
    match split_once(trim(stdout), "|") {
        None => Err(Failure::UnexpectedPod { stdout: stdout.to_owned() }),
        Some((node, reference)) => if reference.unicode_len() == 0 {
            Err(Failure::NoContainerYet { pod: pod.to_owned(), namespace: namespace.to_owned() })
        } else {
            Ok((node.to_owned(), reference.to_owned()))
        },
    }
}

/// Judges a run of `kubectl get pod`.
pub fn judge_pod(pod: &str, namespace: &str, output: &Option<Output>) -> (found: Result<
    (String, String),
    Failure<String>,
>)
    ensures
        two_texts(found) == pod_result(pod@, namespace@, *output),
{
    match output {
        None => Err(Failure::CannotRun { tool: Tool::Kubectl }),
        Some(o) => if o.success {
            read_pod(pod, namespace, lossy_text(o.stdout.as_slice()).as_str())
        } else {
            let stderr = lossy_text(o.stderr.as_slice());
            Err(
                Failure::NoSuchPod {
                    pod: pod.to_owned(),
                    namespace: namespace.to_owned(),
                    stderr: trim(stderr.as_str()).to_owned(),
                },
            )
        },
    }
}

/// A pod can be traced on its own node only. Names of nodes are compared
/// without regard to case.
pub open spec fn node_result(node: Seq<char>, hostname: Seq<char>) -> Result<
    (),
    Failure<Seq<char>>,
> {
    if same_but_case(trimmed(hostname), node) {
        Ok(())
    } else {
        Err(Failure::OtherNode { node, hostname: trimmed(hostname) })
    }
}

/// Checks that a pod is scheduled on this node; one scheduled elsewhere would
/// silently trace nothing without this check.
pub fn check_same_node(node: &str, hostname: &str) -> (same: Result<(), Failure<String>>)
    ensures
        match same {
            Ok(_) => node_result(node@, hostname@) is Ok,
            Err(f) => node_result(node@, hostname@) == Err::<(), Failure<Seq<char>>>(f@),
        },
{
    let host = trim(hostname);
    if eq_ignore_ascii_case(host, node) {
        Ok(())
    } else {
        Err(Failure::OtherNode { node: node.to_owned(), hostname: host.to_owned() })
    }
}

/// Which runtime a container belongs to.
#[derive(Clone, Copy, Debug, PartialEq, Eq, Structural)]
pub enum Runtime {
    Docker,
    Containerd,
}

/// A container's identifier, as Kubernetes gives it, is a runtime and the
/// runtime's own identifier.
pub open spec fn reference_result(reference: Seq<char>) -> Result<
    (Runtime, Seq<char>),
    Failure<Seq<char>>,
> {
    match split_first(reference, "://"@) {
        None => Err(Failure::BadReference { reference }),
        Some(parts) => if parts.0 == "docker"@ {
            Ok((Runtime::Docker, parts.1))
        } else if parts.0 == "containerd"@ {
            Ok((Runtime::Containerd, parts.1))
        } else {
            Err(Failure::UnsupportedRuntime { runtime: parts.0 })
        },
    }
}

/// Takes a container's identifier apart.
pub fn read_reference(reference: &str) -> (found: Result<(Runtime, String), Failure<String>>)
    ensures
        match found {
            Ok(p) => reference_result(reference@) == Ok::<(Runtime, Seq<char>), Failure<Seq<char>>>(
                (p.0, p.1@),
            ),
            Err(f) => reference_result(reference@) == Err::<
                (Runtime, Seq<char>),
                Failure<Seq<char>>,
            >(f@),
        },
{
    match split_once(reference, "://") {
        None => Err(Failure::BadReference { reference: reference.to_owned() }),
        Some((runtime, id)) => if same_text(runtime, "docker") {
            Ok((Runtime::Docker, id.to_owned()))
        } else if same_text(runtime, "containerd") {
            Ok((Runtime::Containerd, id.to_owned()))
        } else {
            Err(Failure::UnsupportedRuntime { runtime: runtime.to_owned() })
        },
    }
}

/// What `crictl inspect` says, read as a process number.
pub open spec fn crictl_read(out: Seq<char>) -> Result<u32, Failure<Seq<char>>> {
    match number_value(trimmed(out), u32::MAX as nat) {
        Err(error) => Err(Failure::BadCrictlPid { text: out, error }),
        Ok(pid) => Ok(pid as u32),
    }
}

/// What comes of running `crictl inspect`, or of not being able to.
pub open spec fn crictl_result(id: Seq<char>, output: Option<Output>) -> Result<
    u32,
    Failure<Seq<char>>,
> {
    match output {
        None => Err(Failure::CannotRun { tool: Tool::Crictl }),
        Some(o) => if o.success {
            crictl_read(utf8_lossy(o.stdout@))
        } else {
            Err(
                Failure::NoSuchContainerdContainer {
                    id,
                    stderr: trimmed(utf8_lossy(o.stderr@)),
                },
            )
        },
    }
}

/// The text of a result, as characters.
pub open spec fn only_pid(r: Result<u32, Failure<String>>) -> Result<u32, Failure<Seq<char>>> {
    match r {
        Ok(pid) => Ok(pid),
        Err(f) => Err(f@),
    }
}

/// Reads what `crictl inspect` printed.
pub fn read_crictl(stdout: &str) -> (pid: Result<u32, Failure<String>>)
    ensures
        only_pid(pid) == crictl_read(stdout@),
{
    match parse_number(trim(stdout), u32::MAX as u64) {
        Err(error) => Err(Failure::BadCrictlPid { text: stdout.to_owned(), error }),
        Ok(pid) => Ok(pid as u32),
    }
}

/// Judges a run of `crictl inspect`.
pub fn judge_crictl(id: &str, output: &Option<Output>) -> (pid: Result<u32, Failure<String>>)
    ensures
        only_pid(pid) == crictl_result(id@, *output),
{
    match output {
        None => Err(Failure::CannotRun { tool: Tool::Crictl }),
        Some(o) => if o.success {
            read_crictl(lossy_text(o.stdout.as_slice()).as_str())
        } else {
            let stderr = lossy_text(o.stderr.as_slice());
            Err(
                Failure::NoSuchContainerdContainer {
                    id: id.to_owned(),
                    stderr: trim(stderr.as_str()).to_owned(),
                },
            )
        },
    }
}

/// What Kubernetes prints of a pod is its node, a bar and its container, and
/// white space after that: they are read as they are.
pub proof fn pods_are_read(
    pod: Seq<char>,
    namespace: Seq<char>,
    node: Seq<char>,
    reference: Seq<char>,
    blank: Seq<char>,
)
    requires
        node.len() > 0 && !is_white(node[0]),
        forall|k: int| 0 <= k < node.len() ==> #[trigger] node[k] != '|',
        reference.len() > 0 && !is_white(reference.last()),
        forall|k: int| 0 <= k < blank.len() ==> is_white(#[trigger] blank[k]),
    ensures
        pod_read(pod, namespace, node + seq!['|'] + reference + blank) == Ok::<
            (Seq<char>, Seq<char>),
            Failure<Seq<char>>,
        >((node, reference)),
        pod_read(pod, namespace, node + seq!['|'] + blank) == Err::<
            (Seq<char>, Seq<char>),
            Failure<Seq<char>>,
        >(Failure::NoContainerYet { pod, namespace }),
{
    reveal_strlit("|");
    assert("|"@ =~= seq!['|']);
    let none = Seq::<char>::empty();
    let core = node + seq!['|'] + reference;
    assert(core[0] == node[0] && core.last() == reference.last());
    trimming_finds_the_core(none, core, blank);
    assert(none + core + blank =~= core + blank);
    joined_parts_are_split(node, '|', reference);
    let bare = node + seq!['|'];
    assert(bare[0] == node[0] && bare.last() == '|');
    trimming_finds_the_core(none, bare, blank);
    assert(none + bare + blank =~= bare + blank);
    joined_parts_are_split(node, '|', none);
    assert(node + seq!['|'] + none =~= bare);
}

/// An answer without a bar is refused; a tool that could not be run, and one
/// that failed, are told apart, and of the latter its own words are kept.
pub proof fn other_pod_answers_are_refused(
    pod: Seq<char>,
    namespace: Seq<char>,
    out: Seq<char>,
    o: Output,
)
    ensures
        (forall|k: int| 0 <= k < trimmed(out).len() ==> #[trigger] trimmed(out)[k] != '|')
            ==> pod_read(pod, namespace, out) == Err::<(Seq<char>, Seq<char>), Failure<Seq<char>>>(
            Failure::UnexpectedPod { stdout: out },
        ),
        pod_result(pod, namespace, None) == Err::<(Seq<char>, Seq<char>), Failure<Seq<char>>>(
            Failure::CannotRun { tool: Tool::Kubectl },
        ),
        !o.success ==> pod_result(pod, namespace, Some(o)) == Err::<
            (Seq<char>, Seq<char>),
            Failure<Seq<char>>,
        >(Failure::NoSuchPod { pod, namespace, stderr: trimmed(utf8_lossy(o.stderr@)) }),
        o.success ==> pod_result(pod, namespace, Some(o)) == pod_read(
            pod,
            namespace,
            utf8_lossy(o.stdout@),
        ),
{
    reveal_strlit("|");
    assert("|"@ =~= seq!['|']);
    splits_are_at_the_first_separator(trimmed(out), seq!['|']);
    if split_first(trimmed(out), seq!['|']) is Some {
        let p = split_first(trimmed(out), seq!['|'])->0;
        assert((p.0 + seq!['|'] + p.1)[p.0.len() as int] == '|');
    }
}

/// A pod is accepted on the node of the same name, in any case of its ASCII
/// letters and with any white space around the host's name, and on no other.
pub proof fn pods_are_accepted_on_their_node(node: Seq<char>, hostname: Seq<char>)
    ensures
        node_result(node, hostname) is Ok <==> same_but_case(trimmed(hostname), node),
        node_result(node, hostname) matches Err(f) ==> f == (Failure::OtherNode {
            node,
            hostname: trimmed(hostname),
        }),
{
}

/// A container's identifier names its runtime in front of `://`: Docker and
/// containerd are known, and what follows is passed on whole.
pub proof fn references_name_their_runtime(id: Seq<char>, reference: Seq<char>)
    ensures
        reference_result("docker"@ + "://"@ + id) == Ok::<
            (Runtime, Seq<char>),
            Failure<Seq<char>>,
        >((Runtime::Docker, id)),
        reference_result("containerd"@ + "://"@ + id) == Ok::<
            (Runtime, Seq<char>),
            Failure<Seq<char>>,
        >((Runtime::Containerd, id)),
        split_first(reference, "://"@) is None ==> reference_result(reference) == Err::<
            (Runtime, Seq<char>),
            Failure<Seq<char>>,
        >(Failure::BadReference { reference }),
        split_first(reference, "://"@) matches Some(p) ==> p.0 != "docker"@ && p.0
            != "containerd"@ ==> reference_result(reference) == Err::<
            (Runtime, Seq<char>),
            Failure<Seq<char>>,
        >(Failure::UnsupportedRuntime { runtime: p.0 }),
{
    reveal_strlit("docker");
    reveal_strlit("containerd");
    reveal_strlit("://");
    lemma_scheme("docker"@, id);
    lemma_scheme("containerd"@, id);
    assert("docker"@.len() == 6 && "containerd"@.len() == 10);
}

proof fn lemma_scheme(scheme: Seq<char>, id: Seq<char>)
    requires
        forall|k: int| 0 <= k < scheme.len() ==> #[trigger] scheme[k] != ':',
    ensures
        split_first(scheme + "://"@ + id, "://"@) == Some((scheme, id)),
{
    reveal_strlit("://");
    let sep = "://"@;
    let s = scheme + sep + id;
    let n = scheme.len() as int;
    splits_are_at_the_first_separator(s, sep);
    assert(s.subrange(n, n + sep.len()) =~= sep);
    assert(split_first(s, sep) is Some);
    let p = split_first(s, sep)->0;
    let t = p.0 + sep + p.1;
    assert(t[p.0.len() as int] == sep[0]);
    assert(sep[0] == ':');
    if p.0.len() < n {
        assert(s[p.0.len() as int] == scheme[p.0.len() as int]);
    }
    if p.0.len() > n {
        assert(s.subrange(n, n + sep.len()) != sep);
    }
    assert(p.0 =~= t.take(n) && scheme =~= s.take(n));
    assert(p.1 =~= t.skip(n + 3) && id =~= s.skip(n + 3));
}

/// What containerd prints of a container is a process number, with white space
/// around it; anything else is refused, and so is a tool that fails.
pub proof fn containerd_answers_are_read(
    pid: u32,
    before: Seq<char>,
    after: Seq<char>,
    id: Seq<char>,
    o: Output,
)
    requires
        forall|k: int| 0 <= k < before.len() ==> is_white(#[trigger] before[k]),
        forall|k: int| 0 <= k < after.len() ==> is_white(#[trigger] after[k]),
    ensures
        crictl_read(before + decimal(pid as nat) + after) == Ok::<u32, Failure<Seq<char>>>(pid),
        crictl_result(id, None) == Err::<u32, Failure<Seq<char>>>(
            Failure::CannotRun { tool: Tool::Crictl },
        ),
        !o.success ==> crictl_result(id, Some(o)) == Err::<u32, Failure<Seq<char>>>(
            Failure::NoSuchContainerdContainer { id, stderr: trimmed(utf8_lossy(o.stderr@)) },
        ),
        o.success ==> crictl_result(id, Some(o)) == crictl_read(utf8_lossy(o.stdout@)),
        number_value(trimmed(id), u32::MAX as nat) matches Err(error) ==> crictl_read(id) == Err::<
            u32,
            Failure<Seq<char>>,
        >(Failure::BadCrictlPid { text: id, error }),
{
    let d = decimal(pid as nat);
    numbers_are_digits(pid as nat, 10);
    assert(is_digit_char(d[0]) && is_digit_char(d[d.len() - 1]));
    trimming_finds_the_core(before, d, after);
    written_numbers_are_read(pid as nat, u32::MAX as nat);
}

/// What is said of the answers about a pod holds of what was read, each part in
/// its place, and of the failure.
pub proof fn answers_are_what_was_read(
    r: Result<(String, String), Failure<String>>,
    pid: Result<u32, Failure<String>>,
)
    ensures
        r matches Ok(p) ==> two_texts(r) matches Ok(q) && q.0 == p.0@ && q.1 == p.1@,
        r matches Err(f) ==> two_texts(r) matches Err(g) && g == f@,
        pid matches Ok(n) ==> only_pid(pid) matches Ok(m) && m == n,
        pid matches Err(f) ==> only_pid(pid) matches Err(g) && g == f@,
{
}

} // verus!
