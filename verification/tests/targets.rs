//! Finding the target, and what can go wrong.

use peekbeam::container::{self, cgroup_dir, read_inspect, resolve_cgroup_path, ContainerTarget, Output};
use peekbeam::failure::{Failure, Tool};
use peekbeam::mem_stats::MemoryTarget;
use peekbeam::pod::{self, check_same_node, read_crictl, read_pod, read_reference, Runtime};
use peekbeam::resolve::{Answer, Request, Resolution, Step};
use peekbeam::scan::NumberError;
use peekbeam::target::{check_privileges, check_target_exists, proc_path, Filter, Target};

fn ran(success: bool, stdout: &str, stderr: &str) -> Answer {
    Answer::Output(Some(Output {
        success,
        stdout: stdout.as_bytes().to_vec(),
        stderr: stderr.as_bytes().to_vec(),
    }))
}

fn contents(text: &str) -> Answer {
    Answer::Contents(Some(text.to_string()))
}

/// Plays the system: every answer is given to the question it belongs to.
fn drive(start: Resolution<String>, answers: Vec<(&str, Answer)>) -> Result<ContainerTarget, String> {
    let mut at = start;
    for (question, answer) in answers {
        assert_eq!(format!("{:?}", at.request()), question);
        match at.step(answer) {
            Step::Next(next) => at = next,
            Step::Done(target) => return Ok(target),
            Step::Failed(failure) => return Err(failure.message()),
        }
    }
    panic!("more is asked: {:?}", at.request());
}

const CONTROLLERS: &str = "Exists(\"/sys/fs/cgroup/cgroup.controllers\")";

#[test]
fn a_container_is_found() {
    let target = drive(
        container::resolve("web"),
        vec![
            (CONTROLLERS, Answer::Exists(true)),
            ("Docker { id: \"web\" }", ran(true, "4242|0123456789abcdef\n", "")),
            ("Read(\"/proc/4242/cgroup\")", contents("0::/system.slice/docker-0123.scope\n")),
            ("Inode(\"/sys/fs/cgroup/system.slice/docker-0123.scope\")", Answer::Inode(Some(991))),
        ],
    )
    .unwrap();
    assert_eq!(target.cgroup_id, 991);
    assert_eq!(target.full_id, "0123456789abcdef");
    assert_eq!(target.cgroup_path, "/system.slice/docker-0123.scope");
}

#[test]
fn a_pod_is_found_through_docker() {
    let target = drive(
        pod::resolve("app", "prod"),
        vec![
            ("Kubectl { pod: \"app\", namespace: \"prod\" }", ran(true, "Node-1|docker://abc\n", "")),
            ("Read(\"/proc/sys/kernel/hostname\")", contents("node-1\n")),
            (CONTROLLERS, Answer::Exists(true)),
            ("Docker { id: \"abc\" }", ran(true, "7|abcdef", "")),
            ("Read(\"/proc/7/cgroup\")", contents("12:pids:/x\n0::/kube\n")),
            ("Inode(\"/sys/fs/cgroup/kube\")", Answer::Inode(Some(5))),
        ],
    )
    .unwrap();
    assert_eq!((target.cgroup_id, target.full_id.as_str()), (5, "abcdef"));
}

#[test]
fn a_pod_is_found_through_containerd() {
    let target = drive(
        pod::resolve("app", "default"),
        vec![
            ("Kubectl { pod: \"app\", namespace: \"default\" }", ran(true, "n|containerd://abc", "")),
            ("Read(\"/proc/sys/kernel/hostname\")", contents("n")),
            ("Crictl { id: \"abc\" }", ran(true, "31\n", "")),
            ("Read(\"/proc/31/cgroup\")", contents("0::/kube")),
            ("Inode(\"/sys/fs/cgroup/kube\")", Answer::Inode(Some(6))),
        ],
    )
    .unwrap();
    assert_eq!((target.cgroup_id, target.full_id.as_str()), (6, "abc"));
}

#[test]
fn tools_are_run_with_their_arguments() {
    let docker = Request::Docker { id: "web".to_string() };
    assert_eq!(
        docker.command(),
        Some((Tool::Docker, vec!["inspect", "--format", "{{.State.Pid}}|{{.Id}}", "web"]))
    );
    let kubectl = Request::Kubectl { pod: "p".to_string(), namespace: "ns".to_string() };
    assert_eq!(
        kubectl.command(),
        Some((
            Tool::Kubectl,
            vec![
                "get",
                "pod",
                "p",
                "-n",
                "ns",
                "-o",
                "jsonpath={.spec.nodeName}|{.status.containerStatuses[0].containerID}"
            ]
        ))
    );
    let crictl = Request::Crictl { id: "c".to_string() };
    assert_eq!(
        crictl.command(),
        Some((
            Tool::Crictl,
            vec!["inspect", "--output", "go-template", "--template", "{{.info.pid}}", "c"]
        ))
    );
    assert_eq!(Request::Read("/x".to_string()).command(), None);
}

#[test]
fn hosts_without_the_unified_hierarchy_are_refused() {
    assert_eq!(
        drive(container::resolve("web"), vec![(CONTROLLERS, Answer::Exists(false))]).unwrap_err(),
        "--container needs the unified cgroup v2 hierarchy (no cgroup.controllers under /sys/fs/cgroup); cgroup v1 hosts aren't supported yet"
    );
}

fn inspect_with(answer: Answer) -> String {
    drive(
        container::resolve("web"),
        vec![(CONTROLLERS, Answer::Exists(true)), ("Docker { id: \"web\" }", answer)],
    )
    .unwrap_err()
}

#[test]
fn what_docker_says_is_judged() {
    assert_eq!(
        inspect_with(Answer::Output(None)),
        "running `docker inspect` (is Docker installed and on PATH?)"
    );
    assert_eq!(
        inspect_with(ran(false, "", "Error: No such object: web\n")),
        "no such container: `web` (docker inspect: Error: No such object: web)"
    );
    assert_eq!(inspect_with(ran(true, "nothing\n", "")), "unexpected `docker inspect` output: \"nothing\\n\"");
    assert_eq!(
        inspect_with(ran(true, "x|abc", "")),
        "parsing container PID from docker inspect: \"x\""
    );
    assert_eq!(inspect_with(ran(true, "0|abc", "")), "container `web` is not running (docker reports PID 0)");
}

#[test]
fn output_of_docker_is_read_around_the_bar() {
    assert_eq!(read_inspect("web", " 12| abc |d\n").unwrap(), (12, "abc |d".to_string()));
    assert!(matches!(
        read_inspect("web", "4294967296|x"),
        Err(Failure::BadInspectPid { error: NumberError::TooLarge, .. })
    ));
    assert!(matches!(
        read_inspect("web", "|x"),
        Err(Failure::BadInspectPid { error: NumberError::Empty, .. })
    ));
}

#[test]
fn output_that_is_no_text_is_shown_with_replacements() {
    let answer = Answer::Output(Some(Output { success: false, stdout: vec![], stderr: b"\xff!\n".to_vec() }));
    assert_eq!(inspect_with(answer), "no such container: `web` (docker inspect: \u{fffd}!)");
}

#[test]
fn the_unified_line_is_looked_for() {
    let some = |text: &str| Some(text.to_string());
    assert_eq!(resolve_cgroup_path(1, &some("0::/a\n")).unwrap(), "/a");
    assert_eq!(resolve_cgroup_path(1, &some("1:name=x:/b\n0::/a\n0::/c\n")).unwrap(), "/a");
    assert_eq!(resolve_cgroup_path(1, &some("0::")).unwrap(), "");
    assert_eq!(
        resolve_cgroup_path(9, &some("1:cpu:/x\n10::/y\n")).unwrap_err().message(),
        "no unified (cgroup v2) entry in /proc/9/cgroup; this container may be running under cgroup v1, which isn't supported yet"
    );
    assert_eq!(resolve_cgroup_path(9, &None).unwrap_err().message(), "reading /proc/9/cgroup");
    assert_eq!(cgroup_dir("/a"), "/sys/fs/cgroup/a");
}

#[test]
fn cgroups_that_cannot_be_looked_at_are_refused() {
    let failure = drive(
        container::resolve("web"),
        vec![
            (CONTROLLERS, Answer::Exists(true)),
            ("Docker { id: \"web\" }", ran(true, "1|a", "")),
            ("Read(\"/proc/1/cgroup\")", contents("0::/gone")),
            ("Inode(\"/sys/fs/cgroup/gone\")", Answer::Inode(None)),
        ],
    )
    .unwrap_err();
    assert_eq!(failure, "statting cgroup path /sys/fs/cgroup/gone");
}

fn pod_with(answer: Answer) -> String {
    drive(pod::resolve("app", "prod"), vec![("Kubectl { pod: \"app\", namespace: \"prod\" }", answer)])
        .unwrap_err()
}

#[test]
fn what_kubernetes_says_is_judged() {
    assert_eq!(
        pod_with(Answer::Output(None)),
        "running `kubectl get pod` (is kubectl installed and configured?)"
    );
    assert_eq!(
        pod_with(ran(false, "", " not found \n")),
        "no such pod: `app` in namespace `prod` (kubectl: not found)"
    );
    assert_eq!(pod_with(ran(true, "a\tb", "")), "unexpected `kubectl get pod` output: \"a\\tb\"");
    assert_eq!(
        pod_with(ran(true, "node-1|\n", "")),
        "pod `app` has no running container yet (check `kubectl get pod app -n prod`)"
    );
    assert_eq!(read_pod("p", "n", " a|b|c \n").unwrap(), ("a".to_string(), "b|c".to_string()));
}

#[test]
fn pods_on_other_nodes_are_refused() {
    assert!(check_same_node("Node-1", " node-1\n").is_ok());
    let text = check_same_node("far", "near\n").unwrap_err().message();
    assert_eq!(
        text,
        "this pod is scheduled on node `far`, but peekbeam is running on `near`.\n\
         peekbeam only sees its own node's kernel (readme.md §3.1) — it can't reach across nodes.\n\
         Run it on that node instead:\n\
         \x20 kubectl debug node/far -it --image=<peekbeam-image> -- peekbeam --container <id>\n\
         (Usage Mode 2 — needs a peekbeam container image, not built yet), or SSH directly to \
         `far` (Usage Mode 1)."
    );
    let failure = drive(
        pod::resolve("app", "prod"),
        vec![
            ("Kubectl { pod: \"app\", namespace: \"prod\" }", ran(true, "far|docker://abc", "")),
            ("Read(\"/proc/sys/kernel/hostname\")", Answer::Contents(None)),
        ],
    )
    .unwrap_err();
    assert!(failure.starts_with("this pod is scheduled on node `far`, but peekbeam is running on ``."));
}

#[test]
fn container_references_name_their_runtime() {
    assert_eq!(read_reference("docker://a://b").unwrap(), (Runtime::Docker, "a://b".to_string()));
    assert_eq!(read_reference("containerd://x").unwrap(), (Runtime::Containerd, "x".to_string()));
    assert_eq!(
        read_reference("docker:x").unwrap_err().message(),
        "unrecognized containerID format from kubectl: \"docker:x\""
    );
    assert_eq!(
        read_reference("cri-o://x").unwrap_err().message(),
        "unsupported container runtime `cri-o` reported by kubectl (only docker and containerd are supported)"
    );
}

#[test]
fn what_containerd_says_is_judged() {
    let ask = |answer| {
        drive(Resolution::Crictl { id: "c".to_string() }, vec![("Crictl { id: \"c\" }", answer)]).unwrap_err()
    };
    assert_eq!(
        ask(Answer::Output(None)),
        "running `crictl inspect` (is crictl installed and configured?)"
    );
    assert_eq!(ask(ran(false, "", "gone")), "no such containerd container: `c` (crictl: gone)");
    assert_eq!(ask(ran(true, "no\n", "")), "parsing container PID from crictl inspect: \"no\\n\"");
    assert_eq!(read_crictl(" 0 ").unwrap(), 0);
}

#[test]
fn processes_must_be_there() {
    assert_eq!(proc_path(17), "/proc/17");
    assert!(check_target_exists(17, true).is_ok());
    assert_eq!(
        check_target_exists(17, false).unwrap_err().message(),
        "no such process: PID 17 (checked /proc/17)"
    );
}

#[test]
fn privileges_are_root_or_both_capabilities() {
    assert!(check_privileges(0, None, None).is_ok());
    assert!(check_privileges(1000, Some(true), Some(true)).is_ok());
    for (bpf, perfmon) in [(Some(true), Some(false)), (Some(false), Some(true)), (None, Some(true)), (Some(true), None)] {
        assert_eq!(
            check_privileges(1000, bpf, perfmon).unwrap_err().message(),
            "peekbeam needs root, or CAP_BPF+CAP_PERFMON.\n\
             Run with sudo, or grant the capabilities to the binary:\n\
             \x20 sudo setcap cap_bpf,cap_perfmon+ep <path-to-peekbeam>"
        );
    }
}

fn container_of(id: &str) -> ContainerTarget {
    ContainerTarget { cgroup_id: 77, full_id: id.to_string(), cgroup_path: "/slice".to_string() }
}

#[test]
fn targets_are_named() {
    assert_eq!(Target::Pid(42).label(), "PID 42");
    let long = Target::Container(container_of("0123456789abcdef"));
    assert!(long.labelled());
    assert_eq!(long.label(), "container 0123456789ab (cgroup 77)");
    assert_eq!(Target::Container(container_of("web")).label(), "container web (cgroup 77)");
    let pod = Target::Pod { name: "app".to_string(), inner: container_of("x") };
    assert_eq!(pod.label(), "pod app (cgroup 77)");
}

#[test]
fn identifiers_are_not_cut_inside_a_character() {
    assert!(!Target::Container(container_of("0123456789aé")).labelled());
    assert!(Target::Container(container_of("0123456789é")).labelled());
    assert_eq!(
        Target::Container(container_of("0123456789éx")).label(),
        "container 0123456789é (cgroup 77)"
    );
}

#[test]
fn processes_and_cgroups_have_their_own_memory() {
    assert!(matches!(Target::Pid(4).memory_target(), MemoryTarget::Pid(4)));
    let container = Target::Container(container_of("x"));
    assert!(matches!(container.memory_target(), MemoryTarget::Cgroup(p) if p == "/slice"));
    let pod = Target::Pod { name: "p".to_string(), inner: container_of("x") };
    assert!(matches!(pod.memory_target(), MemoryTarget::Cgroup(p) if p == "/slice"));
}

#[test]
fn probes_filter_by_process_or_cgroup() {
    assert_eq!(Target::Pid(4).filter(), Filter::Pid(4));
    assert_eq!(Target::Container(container_of("x")).filter(), Filter::Cgroup(77));
    let pod = Target::Pod { name: "p".to_string(), inner: container_of("x") };
    assert_eq!(pod.filter(), Filter::Cgroup(77));
}
