//! Resolving a container or a pod, one question to the system at a time. A
//! resolution says what it wants to know, and goes on with the answer.

use crate::container::{
    cgroup_dir, cgroup_result, cgroups_stand_on_the_unified_line, docker_answers_are_read,
    failed_inspections_are_told_apart, inspect_result, judge_inspect, resolve_cgroup_path, text_in,
    ContainerTarget, ContainerView, Output, CGROUP_ROOT,
};
use crate::failure::{Failure, Tool};
use crate::file_table::utf8_lossy;
use crate::pod::{
    check_same_node, containerd_answers_are_read, crictl_result, judge_crictl, judge_pod,
    node_result, other_pod_answers_are_refused, pod_result, pods_are_accepted_on_their_node,
    pods_are_read, read_reference, reference_result, references_name_their_runtime, Runtime,
};
use crate::scan::{is_white, lines_of, same_but_case, texts, trimmed};
use crate::text::{decimal, push_decimal};
use vstd::prelude::*;
use vstd::string::*;

verus! {

/// How far a resolution has come. `T` is text.
#[derive(Debug)]
pub enum Resolution<T> {
    /// A container is looked for: does the host have the unified hierarchy?
    Unified { id: T },
    /// Docker is asked for the container.
    Inspect { id: T },
    /// A process of the container is known; its cgroup is looked up.
    Cgroup { pid: u32, full_id: T },
    /// The cgroup is known; its number is looked up.
    Inode { full_id: T, cgroup_path: T },
    /// Kubernetes is asked for a pod.
    Pod { pod: T, namespace: T },
    /// The pod's node and container are known; is it this node?
    Node { node: T, reference: T },
    /// Containerd is asked for the container.
    Crictl { id: T },
}

/// What a resolution wants to know. `T` is text.
#[derive(Debug)]
pub enum Request<T> {
    /// Whether a path exists.
    Exists(T),
    /// What `docker inspect` says of a container.
    Docker { id: T },
    /// What `kubectl get pod` says of a pod.
    Kubectl { pod: T, namespace: T },
    /// What `crictl inspect` says of a container.
    Crictl { id: T },
    /// The contents of a file.
    Read(T),
    /// The inode number of a directory.
    Inode(T),
}

/// What the system answers; nothing, where it could not.
#[derive(Debug)]
pub enum Answer {
    Exists(bool),
    Output(Option<Output>),
    Contents(Option<String>),
    Inode(Option<u64>),
}

/// Where an answer leads.
#[derive(Debug)]
pub enum Step {
    /// To another question.
    Next(Resolution<String>),
    /// To the container.
    Done(ContainerTarget),
    /// Nowhere.
    Failed(Failure<String>),
}

/// Where an answer leads, with text as characters.
pub enum StepView {
    Next(Resolution<Seq<char>>),
    Done(ContainerView),
    Failed(Failure<Seq<char>>),
}

impl View for Resolution<String> {
    type V = Resolution<Seq<char>>;

    open spec fn view(&self) -> Resolution<Seq<char>> {
        match *self {
            Resolution::Unified { id } => Resolution::Unified { id: id@ },
            Resolution::Inspect { id } => Resolution::Inspect { id: id@ },
            Resolution::Cgroup { pid, full_id } => Resolution::Cgroup { pid, full_id: full_id@ },
            Resolution::Inode { full_id, cgroup_path } => Resolution::Inode {
                full_id: full_id@,
                cgroup_path: cgroup_path@,
            },
            Resolution::Pod { pod, namespace } => Resolution::Pod {
                pod: pod@,
                namespace: namespace@,
            },
            Resolution::Node { node, reference } => Resolution::Node {
                node: node@,
                reference: reference@,
            },
            Resolution::Crictl { id } => Resolution::Crictl { id: id@ },
        }
    }
}

impl View for Request<String> {
    type V = Request<Seq<char>>;

    open spec fn view(&self) -> Request<Seq<char>> {
        match *self {
            Request::Exists(path) => Request::Exists(path@),
            Request::Docker { id } => Request::Docker { id: id@ },
            Request::Kubectl { pod, namespace } => Request::Kubectl {
                pod: pod@,
                namespace: namespace@,
            },
            Request::Crictl { id } => Request::Crictl { id: id@ },
            Request::Read(path) => Request::Read(path@),
            Request::Inode(path) => Request::Inode(path@),
        }
    }
}

impl View for Step {
    type V = StepView;

    open spec fn view(&self) -> StepView {
        match *self {
            Step::Next(r) => StepView::Next(r@),
            Step::Done(c) => StepView::Done(c@),
            Step::Failed(f) => StepView::Failed(f@),
        }
    }
}

/// What a resolution wants to know.
pub open spec fn question(r: Resolution<Seq<char>>) -> Request<Seq<char>> {
    match r {
        Resolution::Unified { .. } => Request::Exists("/sys/fs/cgroup/cgroup.controllers"@),
        Resolution::Inspect { id } => Request::Docker { id },
        Resolution::Cgroup { pid, .. } => Request::Read(
            "/proc/"@ + decimal(pid as nat) + "/cgroup"@,
        ),
        Resolution::Inode { cgroup_path, .. } => Request::Inode(CGROUP_ROOT@ + cgroup_path),
        Resolution::Pod { pod, namespace } => Request::Kubectl { pod, namespace },
        Resolution::Node { .. } => Request::Read("/proc/sys/kernel/hostname"@),
        Resolution::Crictl { id } => Request::Crictl { id },
    }
}

/// An answer is of the kind that was asked for.
pub open spec fn answers(a: Answer, q: Request<Seq<char>>) -> bool {
    match q {
        Request::Exists(_) => a is Exists,
        Request::Docker { .. } => a is Output,
        Request::Kubectl { .. } => a is Output,
        Request::Crictl { .. } => a is Output,
        Request::Read(_) => a is Contents,
        Request::Inode(_) => a is Inode,
    }
}

/// Where an answer leads a resolution.
pub open spec fn outcome(r: Resolution<Seq<char>>, a: Answer) -> StepView {
    match r {
        Resolution::Unified { id } => if a->Exists_0 {
            StepView::Next(Resolution::Inspect { id })
        } else {
            StepView::Failed(Failure::NoUnifiedHierarchy)
        },
        Resolution::Inspect { id } => match inspect_result(id, a->Output_0) {
            Ok(p) => StepView::Next(Resolution::Cgroup { pid: p.0, full_id: p.1 }),
            Err(f) => StepView::Failed(f),
        },
        Resolution::Cgroup { pid, full_id } => match cgroup_result(pid, text_in(a->Contents_0)) {
            Ok(cgroup_path) => StepView::Next(Resolution::Inode { full_id, cgroup_path }),
            Err(f) => StepView::Failed(f),
        },
        Resolution::Inode { full_id, cgroup_path } => match a->Inode_0 {
            Some(cgroup_id) => StepView::Done(ContainerView { cgroup_id, full_id, cgroup_path }),
            None => StepView::Failed(Failure::CannotStat { path: CGROUP_ROOT@ + cgroup_path }),
        },
        Resolution::Pod { pod, namespace } => match pod_result(pod, namespace, a->Output_0) {
            Ok(p) => StepView::Next(Resolution::Node { node: p.0, reference: p.1 }),
            Err(f) => StepView::Failed(f),
        },
        Resolution::Node { node, reference } => {
            // A host whose name cannot be read is nobody's node.
            let hostname = match text_in(a->Contents_0) {
                Some(name) => name,
                None => Seq::empty(),
            };
            match node_result(node, hostname) {
                Err(f) => StepView::Failed(f),
                Ok(_) => match reference_result(reference) {
                    Err(f) => StepView::Failed(f),
                    Ok(p) => match p.0 {
                        Runtime::Docker => StepView::Next(Resolution::Unified { id: p.1 }),
                        Runtime::Containerd => StepView::Next(Resolution::Crictl { id: p.1 }),
                    },
                },
            }
        },
        Resolution::Crictl { id } => match crictl_result(id, a->Output_0) {
            Ok(pid) => StepView::Next(Resolution::Cgroup { pid, full_id: id }),
            Err(f) => StepView::Failed(f),
        },
    }
}

impl Resolution<String> {
    /// What has to be known to go on.
    pub fn request(&self) -> (q: Request<String>)
        ensures
            q@ == question(self@),
    {
        match self {
            Resolution::Unified { .. } => Request::Exists(
                "/sys/fs/cgroup/cgroup.controllers".to_owned(),
            ),
            Resolution::Inspect { id } => Request::Docker { id: id.clone() },
            Resolution::Cgroup { pid, .. } => {
                let mut path: String = "/proc/".to_owned();
                push_decimal(&mut path, *pid as u128);
                path.append("/cgroup");
                Request::Read(path)
            },
            Resolution::Inode { cgroup_path, .. } => Request::Inode(
                cgroup_dir(cgroup_path.as_str()),
            ),
            Resolution::Pod { pod, namespace } => Request::Kubectl {
                pod: pod.clone(),
                namespace: namespace.clone(),
            },
            Resolution::Node { .. } => Request::Read("/proc/sys/kernel/hostname".to_owned()),
            Resolution::Crictl { id } => Request::Crictl { id: id.clone() },
        }
    }

    /// Goes on with the answer to what was asked.
    pub fn step(self, answer: Answer) -> (step: Step)
        requires
            answers(answer, question(self@)),
        ensures
            step@ == outcome(self@, answer),
    {
        match (self, answer) {
            (Resolution::Unified { id }, Answer::Exists(found)) => if found {
                Step::Next(Resolution::Inspect { id })
            } else {
                Step::Failed(Failure::NoUnifiedHierarchy)
            },
            (Resolution::Inspect { id }, Answer::Output(output)) => match judge_inspect(
                id.as_str(),
                &output,
            ) {
                Ok((pid, full_id)) => Step::Next(Resolution::Cgroup { pid, full_id }),
                Err(f) => Step::Failed(f),
            },
            (Resolution::Cgroup { pid, full_id }, Answer::Contents(contents)) => {
                match resolve_cgroup_path(pid, &contents) {
                    Ok(cgroup_path) => Step::Next(Resolution::Inode { full_id, cgroup_path }),
                    Err(f) => Step::Failed(f),
                }
            },
            (Resolution::Inode { full_id, cgroup_path }, Answer::Inode(inode)) => match inode {
                Some(cgroup_id) => Step::Done(ContainerTarget { cgroup_id, full_id, cgroup_path }),
                None => Step::Failed(
                    Failure::CannotStat { path: cgroup_dir(cgroup_path.as_str()) },
                ),
            },
            (Resolution::Pod { pod, namespace }, Answer::Output(output)) => match judge_pod(
                pod.as_str(),
                namespace.as_str(),
                &output,
            ) {
                Ok((node, reference)) => Step::Next(Resolution::Node { node, reference }),
                Err(f) => Step::Failed(f),
            },
            (Resolution::Node { node, reference }, Answer::Contents(contents)) => {
                let hostname: String = match contents {
                    Some(name) => name,
                    None => String::new(),
                };
                match check_same_node(node.as_str(), hostname.as_str()) {
                    Err(f) => Step::Failed(f),
                    Ok(_) => match read_reference(reference.as_str()) {
                        Err(f) => Step::Failed(f),
                        Ok((runtime, id)) => match runtime {
                            Runtime::Docker => Step::Next(Resolution::Unified { id }),
                            Runtime::Containerd => Step::Next(Resolution::Crictl { id }),
                        },
                    },
                }
            },
            (Resolution::Crictl { id }, Answer::Output(output)) => match judge_crictl(
                id.as_str(),
                &output,
            ) {
                Ok(pid) => Step::Next(Resolution::Cgroup { pid, full_id: id }),
                Err(f) => Step::Failed(f),
            },
            _ => {
                assert(false);
                Step::Failed(Failure::NoUnifiedHierarchy)
            },
        }
    }
}

/// The tool that a request is for, if it is for one.
pub open spec fn tool_of(q: Request<Seq<char>>) -> Option<Tool> {
    match q {
        Request::Docker { .. } => Some(Tool::Docker),
        Request::Kubectl { .. } => Some(Tool::Kubectl),
        Request::Crictl { .. } => Some(Tool::Crictl),
        _ => None,
    }
}

/// The arguments that a tool is run with.
pub open spec fn tool_arguments(q: Request<Seq<char>>) -> Seq<Seq<char>> {
    match q {
        Request::Docker { id } => seq![
            "inspect"@,
            "--format"@,
            "{{.State.Pid}}|{{.Id}}"@,
            id,
        ],
        Request::Kubectl { pod, namespace } => seq![
            "get"@,
            "pod"@,
            pod,
            "-n"@,
            namespace,
            "-o"@,
            "jsonpath={.spec.nodeName}|{.status.containerStatuses[0].containerID}"@,
        ],
        Request::Crictl { id } => seq![
            "inspect"@,
            "--output"@,
            "go-template"@,
            "--template"@,
            "{{.info.pid}}"@,
            id,
        ],
        _ => Seq::empty(),
    }
}

impl Request<String> {
    /// The tool to run, with its arguments, if a tool is what is asked for.
    pub fn command<'a>(&'a self) -> (run: Option<(Tool, Vec<&'a str>)>)
        ensures
            match run {
                Some(p) => tool_of(self@) == Some(p.0) && texts(p.1@) == tool_arguments(self@),
                None => tool_of(self@) is None,
            },
    {
        let ghost expected = tool_arguments(self@);
        match self {
            Request::Docker { id } => {
                let args: Vec<&'a str> = vec![
                    "inspect",
                    "--format",
                    "{{.State.Pid}}|{{.Id}}",
                    id.as_str(),
                ];
                assert(texts(args@) =~= expected);
                Some((Tool::Docker, args))
            },
            Request::Kubectl { pod, namespace } => {
                let args: Vec<&'a str> = vec![
                    "get",
                    "pod",
                    pod.as_str(),
                    "-n",
                    namespace.as_str(),
                    "-o",
                    "jsonpath={.spec.nodeName}|{.status.containerStatuses[0].containerID}",
                ];
                assert(texts(args@) =~= expected);
                Some((Tool::Kubectl, args))
            },
            Request::Crictl { id } => {
                let args: Vec<&'a str> = vec![
                    "inspect",
                    "--output",
                    "go-template",
                    "--template",
                    "{{.info.pid}}",
                    id.as_str(),
                ];
                assert(texts(args@) =~= expected);
                Some((Tool::Crictl, args))
            },
            _ => None,
        }
    }
}

/// How many questions a resolution can still ask.
pub open spec fn questions_left(r: Resolution<Seq<char>>) -> nat {
    match r {
        Resolution::Pod { .. } => 6,
        Resolution::Node { .. } => 5,
        Resolution::Unified { .. } => 4,
        Resolution::Inspect { .. } => 3,
        Resolution::Crictl { .. } => 3,
        Resolution::Cgroup { .. } => 2,
        Resolution::Inode { .. } => 1,
    }
}

/// Every answer brings a resolution closer to its end.
pub proof fn resolutions_end(r: Resolution<Seq<char>>, a: Answer)
    requires
        answers(a, question(r)),
    ensures
        outcome(r, a) matches StepView::Next(s) ==> questions_left(s) < questions_left(r),
{
}

/// Where the system has no answer, the resolution fails.
pub proof fn missing_answers_fail(r: Resolution<Seq<char>>, a: Answer)
    requires
        answers(a, question(r)),
        a == Answer::Exists(false) || a == Answer::Output(None) || a == Answer::Inode(None) || (a
            == Answer::Contents(None) && r is Cgroup),
    ensures
        outcome(r, a) is Failed,
{
}

/// A container is found only in a cgroup of its own process, and under the
/// number that the system gave for that cgroup's directory.
pub proof fn containers_are_found_by_their_cgroup(r: Resolution<Seq<char>>, a: Answer)
    requires
        answers(a, question(r)),
    ensures
        outcome(r, a) matches StepView::Done(c) ==> a == Answer::Inode(Some(c.cgroup_id))
            && question(r) == Request::<Seq<char>>::Inode(CGROUP_ROOT@ + c.cgroup_path),
{
}

/// A pod that is scheduled on another node is refused.
pub proof fn pods_elsewhere_are_refused(
    node: Seq<char>,
    reference: Seq<char>,
    hostname: String,
)
    requires
        node_result(node, hostname@) is Err,
    ensures
        outcome(
            Resolution::Node { node, reference },
            Answer::Contents(Some(hostname)),
        ) matches StepView::Failed(Failure::OtherNode { .. }),
{
}

/// Where a list of answers leads a resolution; what comes after its end is not
/// looked at.
pub open spec fn run(r: Resolution<Seq<char>>, replies: Seq<Answer>) -> StepView
    decreases replies.len(),
{
    if replies.len() == 0 {
        StepView::Next(r)
    } else {
        match outcome(r, replies[0]) {
            StepView::Next(s) => run(s, replies.skip(1)),
            end => end,
        }
    }
}

/// A container whose process is known: it is traced by the number of that
/// process's cgroup.
pub open spec fn process_found(
    pid: u32,
    full_id: Seq<char>,
    cgroup: Option<String>,
    inode: Option<u64>,
) -> StepView {
    match cgroup_result(pid, text_in(cgroup)) {
        Err(f) => StepView::Failed(f),
        Ok(cgroup_path) => match inode {
            None => StepView::Failed(Failure::CannotStat { path: CGROUP_ROOT@ + cgroup_path }),
            Some(cgroup_id) => StepView::Done(ContainerView { cgroup_id, full_id, cgroup_path }),
        },
    }
}

/// A container of Docker's, by what Docker says of it.
pub open spec fn container_found(
    id: Seq<char>,
    unified: bool,
    inspect: Option<Output>,
    cgroup: Option<String>,
    inode: Option<u64>,
) -> StepView {
    if !unified {
        StepView::Failed(Failure::NoUnifiedHierarchy)
    } else {
        match inspect_result(id, inspect) {
            Err(f) => StepView::Failed(f),
            Ok(p) => process_found(p.0, p.1, cgroup, inode),
        }
    }
}

/// A container is resolved by four answers, to what they say.
pub proof fn containers_are_resolved(
    id: Seq<char>,
    unified: bool,
    inspect: Option<Output>,
    cgroup: Option<String>,
    inode: Option<u64>,
)
    ensures
        run(
            Resolution::Unified { id },
            seq![
                Answer::Exists(unified),
                Answer::Output(inspect),
                Answer::Contents(cgroup),
                Answer::Inode(inode),
            ],
        ) == container_found(id, unified, inspect, cgroup, inode),
{
    let all = seq![
        Answer::Exists(unified),
        Answer::Output(inspect),
        Answer::Contents(cgroup),
        Answer::Inode(inode),
    ];
    assert(all.skip(1) =~= seq![
        Answer::Output(inspect),
        Answer::Contents(cgroup),
        Answer::Inode(inode),
    ]);
    assert(all.skip(1).skip(1) =~= seq![Answer::Contents(cgroup), Answer::Inode(inode)]);
    assert(all.skip(1).skip(1).skip(1) =~= seq![Answer::Inode(inode)]);
    reveal_with_fuel(run, 5);
}

/// A pod that Kubernetes knows, on this node and run by Docker, is resolved as
/// its container is.
pub proof fn docker_pods_are_resolved(
    pod: Seq<char>,
    namespace: Seq<char>,
    get: Option<Output>,
    hostname: String,
    rest: Seq<Answer>,
)
    requires
        pod_result(pod, namespace, get) is Ok,
        node_result(pod_result(pod, namespace, get)->Ok_0.0, hostname@) is Ok,
        reference_result(pod_result(pod, namespace, get)->Ok_0.1) matches Ok(p) && p.0
            == Runtime::Docker,
    ensures
        run(
            Resolution::Pod { pod, namespace },
            seq![Answer::Output(get), Answer::Contents(Some(hostname))] + rest,
        ) == run(
            Resolution::Unified {
                id: reference_result(pod_result(pod, namespace, get)->Ok_0.1)->Ok_0.1,
            },
            rest,
        ),
{
    let all = seq![Answer::Output(get), Answer::Contents(Some(hostname))] + rest;
    assert(all.skip(1).skip(1) =~= rest);
    reveal_with_fuel(run, 3);
}

/// A pod that Kubernetes knows, on this node and run by containerd, is resolved
/// by the process that containerd names.
pub proof fn containerd_pods_are_resolved(
    pod: Seq<char>,
    namespace: Seq<char>,
    get: Option<Output>,
    hostname: String,
    inspect: Option<Output>,
    cgroup: Option<String>,
    inode: Option<u64>,
)
    requires
        pod_result(pod, namespace, get) is Ok,
        node_result(pod_result(pod, namespace, get)->Ok_0.0, hostname@) is Ok,
        reference_result(pod_result(pod, namespace, get)->Ok_0.1) matches Ok(p) && p.0
            == Runtime::Containerd,
    ensures
        ({
            let id = reference_result(pod_result(pod, namespace, get)->Ok_0.1)->Ok_0.1;
            run(
                Resolution::Pod { pod, namespace },
                seq![
                    Answer::Output(get),
                    Answer::Contents(Some(hostname)),
                    Answer::Output(inspect),
                    Answer::Contents(cgroup),
                    Answer::Inode(inode),
                ],
            ) == (match crictl_result(id, inspect) {
                Err(f) => StepView::Failed(f),
                Ok(pid) => process_found(pid, id, cgroup, inode),
            })
        }),
{
    let all = seq![
        Answer::Output(get),
        Answer::Contents(Some(hostname)),
        Answer::Output(inspect),
        Answer::Contents(cgroup),
        Answer::Inode(inode),
    ];
    let two = all.skip(1).skip(1);
    assert(two =~= seq![Answer::Output(inspect), Answer::Contents(cgroup), Answer::Inode(inode)]);
    assert(two.skip(1) =~= seq![Answer::Contents(cgroup), Answer::Inode(inode)]);
    assert(two.skip(1).skip(1) =~= seq![Answer::Inode(inode)]);
    reveal_with_fuel(run, 6);
}

/// What a resolution wants to know at each point: where the system keeps it, or
/// whom to ask.
pub proof fn questions_are_about_what_is_known(r: Resolution<Seq<char>>)
    ensures
        r is Unified ==> question(r) == Request::<Seq<char>>::Exists(
            "/sys/fs/cgroup/cgroup.controllers"@,
        ),
        r matches Resolution::Inspect { id } ==> question(r) == (Request::Docker { id }),
        r matches Resolution::Cgroup { pid, .. } ==> question(r) == Request::<Seq<char>>::Read(
            "/proc/"@ + decimal(pid as nat) + "/cgroup"@,
        ),
        r matches Resolution::Inode { cgroup_path, .. } ==> question(r) == Request::<
            Seq<char>,
        >::Inode("/sys/fs/cgroup"@ + cgroup_path),
        r matches Resolution::Pod { pod, namespace } ==> question(r) == (Request::Kubectl {
            pod,
            namespace,
        }),
        r is Node ==> question(r) == Request::<Seq<char>>::Read("/proc/sys/kernel/hostname"@),
        r matches Resolution::Crictl { id } ==> question(r) == (Request::Crictl { id }),
{
}

/// Each tool is asked about the container or the pod that was named, and for the
/// process and the identifier, the node and the container, or the process.
pub proof fn tools_are_asked_about_what_was_named(q: Request<Seq<char>>)
    ensures
        q matches Request::Docker { id } ==> {
            &&& tool_of(q) == Some(Tool::Docker)
            &&& tool_arguments(q).len() == 4
            &&& tool_arguments(q)[0] == "inspect"@
            &&& tool_arguments(q)[1] == "--format"@
            &&& tool_arguments(q)[2] == "{{.State.Pid}}|{{.Id}}"@
            &&& tool_arguments(q)[3] == id
        },
        q matches Request::Kubectl { pod, namespace } ==> {
            &&& tool_of(q) == Some(Tool::Kubectl)
            &&& tool_arguments(q).len() == 7
            &&& tool_arguments(q)[0] == "get"@
            &&& tool_arguments(q)[1] == "pod"@
            &&& tool_arguments(q)[2] == pod
            &&& tool_arguments(q)[3] == "-n"@
            &&& tool_arguments(q)[4] == namespace
            &&& tool_arguments(q)[5] == "-o"@
            &&& tool_arguments(q)[6]
                == "jsonpath={.spec.nodeName}|{.status.containerStatuses[0].containerID}"@
        },
        q matches Request::Crictl { id } ==> {
            &&& tool_of(q) == Some(Tool::Crictl)
            &&& tool_arguments(q).len() == 6
            &&& tool_arguments(q)[0] == "inspect"@
            &&& tool_arguments(q)[1] == "--output"@
            &&& tool_arguments(q)[2] == "go-template"@
            &&& tool_arguments(q)[3] == "--template"@
            &&& tool_arguments(q)[4] == "{{.info.pid}}"@
            &&& tool_arguments(q)[5] == id
        },
        tool_of(q) is Some <==> q is Docker || q is Kubectl || q is Crictl,
{
}

/// A running container is found: Docker prints its process and its identifier,
/// the process's cgroup stands behind `0::`, and the number of that cgroup's
/// directory is what is traced.
pub proof fn running_containers_are_found(
    name: Seq<char>,
    inspect: Output,
    pid: u32,
    full_id: Seq<char>,
    blank: Seq<char>,
    cgroup: String,
    line: int,
    cgroup_path: Seq<char>,
    cgroup_id: u64,
)
    requires
        inspect.success,
        pid > 0,
        full_id.len() > 0,
        !is_white(full_id[0]) && !is_white(full_id.last()),
        forall|k: int| 0 <= k < blank.len() ==> is_white(#[trigger] blank[k]),
        0 <= line < lines_of(cgroup@).len(),
        lines_of(cgroup@)[line] == seq!['0', ':', ':'] + cgroup_path,
        forall|j: int|
            0 <= j < line ==> (#[trigger] lines_of(cgroup@)[j]).len() < 3 || lines_of(
                cgroup@,
            )[j].take(3) != seq!['0', ':', ':'],
    ensures
        utf8_lossy(inspect.stdout@) == decimal(pid as nat) + seq!['|'] + full_id + blank ==> run(
            Resolution::Unified { id: name },
            seq![
                Answer::Exists(true),
                Answer::Output(Some(inspect)),
                Answer::Contents(Some(cgroup)),
                Answer::Inode(Some(cgroup_id)),
            ],
        ) == StepView::Done(ContainerView { cgroup_id, full_id, cgroup_path }),
{
    docker_answers_are_read(name, pid, full_id, blank);
    failed_inspections_are_told_apart(name, inspect);
    cgroups_stand_on_the_unified_line(pid, cgroup@, line, cgroup_path);
    containers_are_resolved(name, true, Some(inspect), Some(cgroup), Some(cgroup_id));
}

/// A pod of this node is found through its container: Docker is asked about the
/// identifier behind `docker://`, and of a pod run by containerd the process that
/// `crictl` prints is looked up under the identifier behind `containerd://`.
pub proof fn pods_of_this_node_are_found(
    pod: Seq<char>,
    namespace: Seq<char>,
    get: Output,
    node: Seq<char>,
    id: Seq<char>,
    hostname: String,
    inspect: Output,
    pid: u32,
    cgroup: String,
    line: int,
    cgroup_path: Seq<char>,
    cgroup_id: u64,
    rest: Seq<Answer>,
)
    requires
        get.success,
        node.len() > 0 && !is_white(node[0]),
        forall|k: int| 0 <= k < node.len() ==> #[trigger] node[k] != '|',
        id.len() > 0 && !is_white(id.last()),
        same_but_case(trimmed(hostname@), node),
        inspect.success,
        0 <= line < lines_of(cgroup@).len(),
        lines_of(cgroup@)[line] == seq!['0', ':', ':'] + cgroup_path,
        forall|j: int|
            0 <= j < line ==> (#[trigger] lines_of(cgroup@)[j]).len() < 3 || lines_of(
                cgroup@,
            )[j].take(3) != seq!['0', ':', ':'],
    ensures
        utf8_lossy(get.stdout@) == node + seq!['|'] + ("docker"@ + "://"@ + id) ==> run(
            Resolution::Pod { pod, namespace },
            seq![Answer::Output(Some(get)), Answer::Contents(Some(hostname))] + rest,
        ) == run(Resolution::Unified { id }, rest),
        utf8_lossy(get.stdout@) == node + seq!['|'] + ("containerd"@ + "://"@ + id)
            && utf8_lossy(inspect.stdout@) == decimal(pid as nat) ==> run(
            Resolution::Pod { pod, namespace },
            seq![
                Answer::Output(Some(get)),
                Answer::Contents(Some(hostname)),
                Answer::Output(Some(inspect)),
                Answer::Contents(Some(cgroup)),
                Answer::Inode(Some(cgroup_id)),
            ],
        ) == StepView::Done(ContainerView { cgroup_id, full_id: id, cgroup_path }),
{
    let none = Seq::<char>::empty();
    let by_docker = "docker"@ + "://"@ + id;
    let by_containerd = "containerd"@ + "://"@ + id;
    assert(by_docker.last() == id.last() && by_containerd.last() == id.last());
    pods_are_read(pod, namespace, node, by_docker, none);
    pods_are_read(pod, namespace, node, by_containerd, none);
    assert(node + seq!['|'] + by_docker + none =~= node + seq!['|'] + by_docker);
    assert(node + seq!['|'] + by_containerd + none =~= node + seq!['|'] + by_containerd);
    other_pod_answers_are_refused(pod, namespace, none, get);
    pods_are_accepted_on_their_node(node, hostname@);
    references_name_their_runtime(id, none);
    if utf8_lossy(get.stdout@) == node + seq!['|'] + by_docker {
        docker_pods_are_resolved(pod, namespace, Some(get), hostname, rest);
    }
    if utf8_lossy(get.stdout@) == node + seq!['|'] + by_containerd {
        containerd_answers_are_read(pid, none, none, id, inspect);
        assert(none + decimal(pid as nat) + none =~= decimal(pid as nat));
        cgroups_stand_on_the_unified_line(pid, cgroup@, line, cgroup_path);
        containerd_pods_are_resolved(
            pod,
            namespace,
            Some(get),
            hostname,
            Some(inspect),
            Some(cgroup),
            Some(cgroup_id),
        );
    }
}

/// What is said of a resolution, of its questions and of where it leads holds of
/// what they carry.
pub proof fn resolutions_are_what_they_carry(
    r: Resolution<String>,
    q: Request<String>,
    step: Step,
)
    ensures
        r matches Resolution::Unified { id } ==> r@ == (Resolution::Unified { id: id@ }),
        r matches Resolution::Inspect { id } ==> r@ == (Resolution::Inspect { id: id@ }),
        r matches Resolution::Cgroup { pid, full_id } ==> r@ == (Resolution::Cgroup {
            pid,
            full_id: full_id@,
        }),
        r matches Resolution::Inode { full_id, cgroup_path } ==> r@ == (Resolution::Inode {
            full_id: full_id@,
            cgroup_path: cgroup_path@,
        }),
        r matches Resolution::Pod { pod, namespace } ==> r@ == (Resolution::Pod {
            pod: pod@,
            namespace: namespace@,
        }),
        r matches Resolution::Node { node, reference } ==> r@ == (Resolution::Node {
            node: node@,
            reference: reference@,
        }),
        r matches Resolution::Crictl { id } ==> r@ == (Resolution::Crictl { id: id@ }),
        q matches Request::Exists(path) ==> q@ == Request::<Seq<char>>::Exists(path@),
        q matches Request::Docker { id } ==> q@ == (Request::Docker { id: id@ }),
        q matches Request::Kubectl { pod, namespace } ==> q@ == (Request::Kubectl {
            pod: pod@,
            namespace: namespace@,
        }),
        q matches Request::Crictl { id } ==> q@ == (Request::Crictl { id: id@ }),
        q matches Request::Read(path) ==> q@ == Request::<Seq<char>>::Read(path@),
        q matches Request::Inode(path) ==> q@ == Request::<Seq<char>>::Inode(path@),
        step matches Step::Next(next) ==> step@ == StepView::Next(next@),
        step matches Step::Done(found) ==> step@ == StepView::Done(found@),
        step matches Step::Failed(why) ==> step@ == StepView::Failed(why@),
{
}

} // verus!
