//! Everything that can keep a trace from starting, and how it is said.

use crate::scan::NumberError;
use crate::text::{decimal, push_decimal};
use vstd::prelude::*;
use vstd::string::*;

verus! {

/// A command-line tool that is asked about containers.
#[derive(Clone, Copy, Debug, PartialEq, Eq, Structural)]
pub enum Tool {
    /// `docker inspect`.
    Docker,
    /// `kubectl get pod`.
    Kubectl,
    /// `crictl inspect`.
    Crictl,
}

/// Why the target cannot be traced. `T` is text.
#[derive(Debug)]
pub enum Failure<T> {
    /// The process is not there.
    NoSuchProcess { pid: u32 },
    /// The user may not load probes.
    NotPrivileged,
    /// The host has no unified cgroup hierarchy.
    NoUnifiedHierarchy,
    /// A tool could not be started.
    CannotRun { tool: Tool },
    /// Docker does not know the container.
    NoSuchContainer { name: T, stderr: T },
    /// Docker answered something else than asked.
    UnexpectedInspect { stdout: T },
    /// Docker's answer has no process number where one belongs.
    BadInspectPid { text: T, error: NumberError },
    /// The container is stopped.
    NotRunning { name: T },
    /// The cgroup of the process cannot be read.
    CgroupUnreadable { pid: u32 },
    /// The process is in no unified cgroup.
    NoUnifiedEntry { pid: u32 },
    /// The cgroup's directory cannot be looked at.
    CannotStat { path: T },
    /// Kubernetes does not know the pod.
    NoSuchPod { pod: T, namespace: T, stderr: T },
    /// Kubernetes answered something else than asked.
    UnexpectedPod { stdout: T },
    /// No container of the pod has been started.
    NoContainerYet { pod: T, namespace: T },
    /// The pod runs under another kernel.
    OtherNode { node: T, hostname: T },
    /// The container's identifier is not of the known form.
    BadReference { reference: T },
    /// The pod's container runtime is not supported.
    UnsupportedRuntime { runtime: T },
    /// Containerd does not know the container.
    NoSuchContainerdContainer { id: T, stderr: T },
    /// Containerd's answer is not a process number.
    BadCrictlPid { text: T, error: NumberError },
}

impl View for Failure<String> {
    type V = Failure<Seq<char>>;

    open spec fn view(&self) -> Failure<Seq<char>> {
        match *self {
            Failure::NoSuchProcess { pid } => Failure::NoSuchProcess { pid },
            Failure::NotPrivileged => Failure::NotPrivileged,
            Failure::NoUnifiedHierarchy => Failure::NoUnifiedHierarchy,
            Failure::CannotRun { tool } => Failure::CannotRun { tool },
            Failure::NoSuchContainer { name, stderr } => Failure::NoSuchContainer {
                name: name@,
                stderr: stderr@,
            },
            Failure::UnexpectedInspect { stdout } => Failure::UnexpectedInspect { stdout: stdout@ },
            Failure::BadInspectPid { text, error } => Failure::BadInspectPid { text: text@, error },
            Failure::NotRunning { name } => Failure::NotRunning { name: name@ },
            Failure::CgroupUnreadable { pid } => Failure::CgroupUnreadable { pid },
            Failure::NoUnifiedEntry { pid } => Failure::NoUnifiedEntry { pid },
            Failure::CannotStat { path } => Failure::CannotStat { path: path@ },
            Failure::NoSuchPod { pod, namespace, stderr } => Failure::NoSuchPod {
                pod: pod@,
                namespace: namespace@,
                stderr: stderr@,
            },
            Failure::UnexpectedPod { stdout } => Failure::UnexpectedPod { stdout: stdout@ },
            Failure::NoContainerYet { pod, namespace } => Failure::NoContainerYet {
                pod: pod@,
                namespace: namespace@,
            },
            Failure::OtherNode { node, hostname } => Failure::OtherNode {
                node: node@,
                hostname: hostname@,
            },
            Failure::BadReference { reference } => Failure::BadReference { reference: reference@ },
            Failure::UnsupportedRuntime { runtime } => Failure::UnsupportedRuntime {
                runtime: runtime@,
            },
            Failure::NoSuchContainerdContainer { id, stderr } => {
                Failure::NoSuchContainerdContainer { id: id@, stderr: stderr@ }
            },
            Failure::BadCrictlPid { text, error } => Failure::BadCrictlPid { text: text@, error },
        }
    }
}

/// Text as `str`'s `Debug` writes it: in quotes, with escapes.
pub uninterp spec fn quoted(text: Seq<char>) -> Seq<char>;

/// `<str as Debug>::fmt`, through `format!`: text in quotes, with escapes.
/// Claimed is only that the outcome depends on the text alone; the rules for
/// escapes are not restated.
#[verifier::external_body]
fn quote(text: &str) -> (shown: String)
    ensures
        shown@ == quoted(text@),
{
    format!("{text:?}")
}

/// What is said of a failure.
pub open spec fn message_text(f: Failure<Seq<char>>) -> Seq<char> {
    match f {
        Failure::NoSuchProcess { pid } => "no such process: PID "@ + decimal(pid as nat)
            + " (checked /proc/"@ + decimal(pid as nat) + ")"@,
        Failure::NotPrivileged =>
            "peekbeam needs root, or CAP_BPF+CAP_PERFMON.\nRun with sudo, or grant the capabilities to the binary:\n  sudo setcap cap_bpf,cap_perfmon+ep <path-to-peekbeam>"@,
        Failure::NoUnifiedHierarchy =>
            "--container needs the unified cgroup v2 hierarchy (no cgroup.controllers under /sys/fs/cgroup); cgroup v1 hosts aren't supported yet"@,
        Failure::CannotRun { tool } => match tool {
            Tool::Docker => "running `docker inspect` (is Docker installed and on PATH?)"@,
            Tool::Kubectl => "running `kubectl get pod` (is kubectl installed and configured?)"@,
            Tool::Crictl => "running `crictl inspect` (is crictl installed and configured?)"@,
        },
        Failure::NoSuchContainer { name, stderr } => "no such container: `"@ + name
            + "` (docker inspect: "@ + stderr + ")"@,
        Failure::UnexpectedInspect { stdout } => "unexpected `docker inspect` output: "@ + quoted(
            stdout,
        ),
        Failure::BadInspectPid { text, .. } => "parsing container PID from docker inspect: "@
            + quoted(text),
        Failure::NotRunning { name } => "container `"@ + name
            + "` is not running (docker reports PID 0)"@,
        Failure::CgroupUnreadable { pid } => "reading /proc/"@ + decimal(pid as nat) + "/cgroup"@,
        Failure::NoUnifiedEntry { pid } => "no unified (cgroup v2) entry in /proc/"@ + decimal(
            pid as nat,
        )
            + "/cgroup; this container may be running under cgroup v1, which isn't supported yet"@,
        Failure::CannotStat { path } => "statting cgroup path "@ + path,
        Failure::NoSuchPod { pod, namespace, stderr } => "no such pod: `"@ + pod
            + "` in namespace `"@ + namespace + "` (kubectl: "@ + stderr + ")"@,
        Failure::UnexpectedPod { stdout } => "unexpected `kubectl get pod` output: "@ + quoted(
            stdout,
        ),
        Failure::NoContainerYet { pod, namespace } => "pod `"@ + pod
            + "` has no running container yet (check `kubectl get pod "@ + pod + " -n "@ + namespace
            + "`)"@,
        Failure::OtherNode { node, hostname } => "this pod is scheduled on node `"@ + node
            + "`, but peekbeam is running on `"@ + hostname
            + "`.\npeekbeam only sees its own node's kernel (readme.md §3.1) — it can't reach across nodes.\nRun it on that node instead:\n  kubectl debug node/"@
            + node
            + " -it --image=<peekbeam-image> -- peekbeam --container <id>\n(Usage Mode 2 — needs a peekbeam container image, not built yet), or SSH directly to `"@
            + node + "` (Usage Mode 1)."@,
        Failure::BadReference { reference } => "unrecognized containerID format from kubectl: "@
            + quoted(reference),
        Failure::UnsupportedRuntime { runtime } => "unsupported container runtime `"@ + runtime
            + "` reported by kubectl (only docker and containerd are supported)"@,
        Failure::NoSuchContainerdContainer { id, stderr } => "no such containerd container: `"@ + id
            + "` (crictl: "@ + stderr + ")"@,
        Failure::BadCrictlPid { text, .. } => "parsing container PID from crictl inspect: "@
            + quoted(text),
    }
}

fn start(text: &str) -> (out: String)
    ensures
        out@ == text@,
{
    text.to_owned()
}

impl Failure<String> {
    /// Says what is wrong, and where there is something to be done, what.
    pub fn message(&self) -> (text: String)
        ensures
            text@ == message_text(self@),
    {
        let ghost f = self@;
        let mut out: String;
        match self {
            Failure::NoSuchProcess { pid } => {
                out = start("no such process: PID ");
                push_decimal(&mut out, *pid as u128);
                out.append(" (checked /proc/");
                push_decimal(&mut out, *pid as u128);
                out.append(")");
            },
            Failure::NotPrivileged => {
                out =
                start(
                    "peekbeam needs root, or CAP_BPF+CAP_PERFMON.\nRun with sudo, or grant the capabilities to the binary:\n  sudo setcap cap_bpf,cap_perfmon+ep <path-to-peekbeam>",
                );
            },
            Failure::NoUnifiedHierarchy => {
                out =
                start(
                    "--container needs the unified cgroup v2 hierarchy (no cgroup.controllers under /sys/fs/cgroup); cgroup v1 hosts aren't supported yet",
                );
            },
            Failure::CannotRun { tool } => {
                out =
                start(
                    match tool {
                        Tool::Docker =>
                            "running `docker inspect` (is Docker installed and on PATH?)",
                        Tool::Kubectl =>
                            "running `kubectl get pod` (is kubectl installed and configured?)",
                        Tool::Crictl =>
                            "running `crictl inspect` (is crictl installed and configured?)",
                    },
                );
            },
            Failure::NoSuchContainer { name, stderr } => {
                out = start("no such container: `");
                out.append(name.as_str());
                out.append("` (docker inspect: ");
                out.append(stderr.as_str());
                out.append(")");
            },
            Failure::UnexpectedInspect { stdout } => {
                out = start("unexpected `docker inspect` output: ");
                out.append(quote(stdout.as_str()).as_str());
            },
            Failure::BadInspectPid { text, .. } => {
                out = start("parsing container PID from docker inspect: ");
                out.append(quote(text.as_str()).as_str());
            },
            Failure::NotRunning { name } => {
                out = start("container `");
                out.append(name.as_str());
                out.append("` is not running (docker reports PID 0)");
            },
            Failure::CgroupUnreadable { pid } => {
                out = start("reading /proc/");
                push_decimal(&mut out, *pid as u128);
                out.append("/cgroup");
            },
            Failure::NoUnifiedEntry { pid } => {
                out = start("no unified (cgroup v2) entry in /proc/");
                push_decimal(&mut out, *pid as u128);
                out.append(
                    "/cgroup; this container may be running under cgroup v1, which isn't supported yet",
                );
            },
            Failure::CannotStat { path } => {
                out = start("statting cgroup path ");
                out.append(path.as_str());
            },
            Failure::NoSuchPod { pod, namespace, stderr } => {
                out = start("no such pod: `");
                out.append(pod.as_str());
                out.append("` in namespace `");
                out.append(namespace.as_str());
                out.append("` (kubectl: ");
                out.append(stderr.as_str());
                out.append(")");
            },
            Failure::UnexpectedPod { stdout } => {
                out = start("unexpected `kubectl get pod` output: ");
                out.append(quote(stdout.as_str()).as_str());
            },
            Failure::NoContainerYet { pod, namespace } => {
                out = start("pod `");
                out.append(pod.as_str());
                out.append("` has no running container yet (check `kubectl get pod ");
                out.append(pod.as_str());
                out.append(" -n ");
                out.append(namespace.as_str());
                out.append("`)");
            },
            Failure::OtherNode { node, hostname } => {
                out = start("this pod is scheduled on node `");
                out.append(node.as_str());
                out.append("`, but peekbeam is running on `");
                out.append(hostname.as_str());
                out.append(
                    "`.\npeekbeam only sees its own node's kernel (readme.md §3.1) — it can't reach across nodes.\nRun it on that node instead:\n  kubectl debug node/",
                );
                out.append(node.as_str());
                out.append(
                    " -it --image=<peekbeam-image> -- peekbeam --container <id>\n(Usage Mode 2 — needs a peekbeam container image, not built yet), or SSH directly to `",
                );
                out.append(node.as_str());
                out.append("` (Usage Mode 1).");
            },
            Failure::BadReference { reference } => {
                out = start("unrecognized containerID format from kubectl: ");
                out.append(quote(reference.as_str()).as_str());
            },
            Failure::UnsupportedRuntime { runtime } => {
                out = start("unsupported container runtime `");
                out.append(runtime.as_str());
                out.append("` reported by kubectl (only docker and containerd are supported)");
            },
            Failure::NoSuchContainerdContainer { id, stderr } => {
                out = start("no such containerd container: `");
                out.append(id.as_str());
                out.append("` (crictl: ");
                out.append(stderr.as_str());
                out.append(")");
            },
            Failure::BadCrictlPid { text, .. } => {
                out = start("parsing container PID from crictl inspect: ");
                out.append(quote(text.as_str()).as_str());
            },
        }
        assert(out@ =~= message_text(f));
        out
    }
}

/// Every failure is said in words.
pub proof fn failures_are_never_silent(f: Failure<Seq<char>>)
    ensures
        message_text(f).len() > 0,
{
    reveal_strlit("no such process: PID ");
    reveal_strlit(
        "peekbeam needs root, or CAP_BPF+CAP_PERFMON.\nRun with sudo, or grant the capabilities to the binary:\n  sudo setcap cap_bpf,cap_perfmon+ep <path-to-peekbeam>",
    );
    reveal_strlit(
        "--container needs the unified cgroup v2 hierarchy (no cgroup.controllers under /sys/fs/cgroup); cgroup v1 hosts aren't supported yet",
    );
    reveal_strlit("running `docker inspect` (is Docker installed and on PATH?)");
    reveal_strlit("running `kubectl get pod` (is kubectl installed and configured?)");
    reveal_strlit("running `crictl inspect` (is crictl installed and configured?)");
    reveal_strlit("no such container: `");
    reveal_strlit("unexpected `docker inspect` output: ");
    reveal_strlit("parsing container PID from docker inspect: ");
    reveal_strlit("container `");
    reveal_strlit("reading /proc/");
    reveal_strlit("no unified (cgroup v2) entry in /proc/");
    reveal_strlit("statting cgroup path ");
    reveal_strlit("no such pod: `");
    reveal_strlit("unexpected `kubectl get pod` output: ");
    reveal_strlit("pod `");
    reveal_strlit("this pod is scheduled on node `");
    reveal_strlit("unrecognized containerID format from kubectl: ");
    reveal_strlit("unsupported container runtime `");
    reveal_strlit("no such containerd container: `");
    reveal_strlit("parsing container PID from crictl inspect: ");
}

/// What a failure is about is named in what is said of it, and where more than
/// one thing is named, each in its place.
pub proof fn failures_name_what_they_are_about(f: Failure<Seq<char>>)
    ensures
        f matches Failure::NoSuchProcess { pid } ==> ("no such process: PID "@ + decimal(
            pid as nat,
        )).is_prefix_of(message_text(f)),
        f matches Failure::NoSuchContainer { name, stderr } ==> ("no such container: `"@ + name
            + "`"@).is_prefix_of(message_text(f)) && (stderr + ")"@).is_suffix_of(message_text(f)),
        f matches Failure::UnexpectedInspect { stdout } ==> quoted(stdout).is_suffix_of(
            message_text(f),
        ),
        f matches Failure::BadInspectPid { text, .. } ==> quoted(text).is_suffix_of(
            message_text(f),
        ),
        f matches Failure::NotRunning { name } ==> ("container `"@ + name
            + "` is not running"@).is_prefix_of(message_text(f)),
        f matches Failure::CgroupUnreadable { pid } ==> message_text(f) == "reading /proc/"@
            + decimal(pid as nat) + "/cgroup"@,
        f matches Failure::NoUnifiedEntry { pid } ==> (
        "no unified (cgroup v2) entry in /proc/"@ + decimal(pid as nat)
            + "/cgroup;"@).is_prefix_of(message_text(f)),
        f matches Failure::CannotStat { path } ==> path.is_suffix_of(message_text(f)),
        f matches Failure::NoSuchPod { pod, namespace, stderr } ==> ("no such pod: `"@ + pod
            + "` in namespace `"@ + namespace + "`"@).is_prefix_of(message_text(f)) && (stderr
            + ")"@).is_suffix_of(message_text(f)),
        f matches Failure::UnexpectedPod { stdout } ==> quoted(stdout).is_suffix_of(
            message_text(f),
        ),
        f matches Failure::NoContainerYet { pod, namespace } ==> ("pod `"@ + pod
            + "` has no running container yet"@).is_prefix_of(message_text(f)) && (
        "`kubectl get pod "@ + pod + " -n "@ + namespace + "`)"@).is_suffix_of(message_text(f)),
        f matches Failure::OtherNode { node, hostname } ==> (
        "this pod is scheduled on node `"@ + node + "`, but peekbeam is running on `"@ + hostname
            + "`."@).is_prefix_of(message_text(f)) && ("SSH directly to `"@ + node
            + "` (Usage Mode 1)."@).is_suffix_of(message_text(f)),
        f matches Failure::BadReference { reference } ==> quoted(reference).is_suffix_of(
            message_text(f),
        ),
        f matches Failure::UnsupportedRuntime { runtime } ==> (
        "unsupported container runtime `"@ + runtime + "`"@).is_prefix_of(message_text(f)),
        f matches Failure::NoSuchContainerdContainer { id, stderr } ==> (
        "no such containerd container: `"@ + id + "`"@).is_prefix_of(message_text(f)) && (stderr
            + ")"@).is_suffix_of(message_text(f)),
        f matches Failure::BadCrictlPid { text, .. } ==> quoted(text).is_suffix_of(message_text(f)),
{
    reveal_strlit("`");
    reveal_strlit("`.");
    reveal_strlit("/cgroup;");
    reveal_strlit("` (docker inspect: ");
    reveal_strlit("` (crictl: ");
    reveal_strlit("` (kubectl: ");
    reveal_strlit("` is not running");
    reveal_strlit("` is not running (docker reports PID 0)");
    reveal_strlit(
        "/cgroup; this container may be running under cgroup v1, which isn't supported yet",
    );
    reveal_strlit("` has no running container yet");
    reveal_strlit("` has no running container yet (check `kubectl get pod ");
    reveal_strlit("`kubectl get pod ");
    reveal_strlit(
        "`.\npeekbeam only sees its own node's kernel (readme.md §3.1) — it can't reach across nodes.\nRun it on that node instead:\n  kubectl debug node/",
    );
    reveal_strlit("SSH directly to `");
    reveal_strlit(
        " -it --image=<peekbeam-image> -- peekbeam --container <id>\n(Usage Mode 2 — needs a peekbeam container image, not built yet), or SSH directly to `",
    );
    reveal_strlit("` reported by kubectl (only docker and containerd are supported)");
}

/// What is said of a failure holds of what it carries.
pub proof fn failures_are_what_they_carry(f: Failure<String>)
    ensures
        f matches Failure::NoSuchProcess { pid } ==> f@ matches Failure::NoSuchProcess {
            pid: shown,
        } && shown == pid,
        f is NotPrivileged ==> f@ is NotPrivileged,
        f is NoUnifiedHierarchy ==> f@ is NoUnifiedHierarchy,
        f matches Failure::CannotRun { tool } ==> f@ matches Failure::CannotRun {
            tool: shown,
        } && shown == tool,
        f matches Failure::NoSuchContainer { name, stderr } ==> f@ == (Failure::NoSuchContainer {
            name: name@,
            stderr: stderr@,
        }),
        f matches Failure::UnexpectedInspect { stdout } ==> f@ == (Failure::UnexpectedInspect {
            stdout: stdout@,
        }),
        f matches Failure::BadInspectPid { text, error } ==> f@ == (Failure::BadInspectPid {
            text: text@,
            error,
        }),
        f matches Failure::NotRunning { name } ==> f@ == (Failure::NotRunning { name: name@ }),
        f matches Failure::CgroupUnreadable { pid } ==> f@ matches Failure::CgroupUnreadable {
            pid: shown,
        } && shown == pid,
        f matches Failure::NoUnifiedEntry { pid } ==> f@ matches Failure::NoUnifiedEntry {
            pid: shown,
        } && shown == pid,
        f matches Failure::CannotStat { path } ==> f@ == (Failure::CannotStat { path: path@ }),
        f matches Failure::NoSuchPod { pod, namespace, stderr } ==> f@ == (Failure::NoSuchPod {
            pod: pod@,
            namespace: namespace@,
            stderr: stderr@,
        }),
        f matches Failure::UnexpectedPod { stdout } ==> f@ == (Failure::UnexpectedPod {
            stdout: stdout@,
        }),
        f matches Failure::NoContainerYet { pod, namespace } ==> f@ == (Failure::NoContainerYet {
            pod: pod@,
            namespace: namespace@,
        }),
        f matches Failure::OtherNode { node, hostname } ==> f@ == (Failure::OtherNode {
            node: node@,
            hostname: hostname@,
        }),
        f matches Failure::BadReference { reference } ==> f@ == (Failure::BadReference {
            reference: reference@,
        }),
        f matches Failure::UnsupportedRuntime { runtime } ==> f@ == (Failure::UnsupportedRuntime {
            runtime: runtime@,
        }),
        f matches Failure::NoSuchContainerdContainer { id, stderr } ==> f@ == (
        Failure::NoSuchContainerdContainer { id: id@, stderr: stderr@ }),
        f matches Failure::BadCrictlPid { text, error } ==> f@ == (Failure::BadCrictlPid {
            text: text@,
            error,
        }),
{
}

} // verus!
