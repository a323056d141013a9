//! From a container's name to its cgroup: the runtime is asked for a process of
//! the container, and that process for its own cgroup, rather than guessing the
//! runtime's cgroup path convention.
//!
//! This needs the unified cgroup v2 hierarchy, the only one that the probes can
//! see.

use crate::failure::{Failure, Tool};
use crate::file_table::{lossy_text, utf8_lossy};
use crate::resolve::Resolution;
use crate::scan::{
    is_white, joined_parts_are_split, lines, lines_of, number_value, parse_number, split_first,
    split_once, splits_are_at_the_first_separator, texts, trim, trimmed, trimming_finds_the_core,
    written_numbers_are_read,
};
use crate::text::{decimal, is_digit_char, numbers_are_digits};
use vstd::prelude::*;
use vstd::string::*;

verus! {

/// Where the cgroup hierarchy is mounted.
pub const CGROUP_ROOT: &'static str = "/sys/fs/cgroup";

/// A container that can be traced: its cgroup's number and path, and its full
/// identifier.
#[derive(Debug)]
pub struct ContainerTarget {
    pub cgroup_id: u64,
    pub full_id: String,
    pub cgroup_path: String,
}

/// A container, with its text as characters.
pub struct ContainerView {
    pub cgroup_id: u64,
    pub full_id: Seq<char>,
    pub cgroup_path: Seq<char>,
}

impl View for ContainerTarget {
    type V = ContainerView;

    open spec fn view(&self) -> ContainerView {
        ContainerView {
            cgroup_id: self.cgroup_id,
            full_id: self.full_id@,
            cgroup_path: self.cgroup_path@,
        }
    }
}

/// What a tool left behind.
#[derive(Debug)]
pub struct Output {
    pub success: bool,
    pub stdout: Vec<u8>,
    pub stderr: Vec<u8>,
}

/// Starts to resolve a container, by its identifier or name.
pub fn resolve(id_or_name: &str) -> (r: Resolution<String>)
    ensures
        r@ == (Resolution::Unified { id: id_or_name@ }),
{
    Resolution::Unified { id: id_or_name.to_owned() }
}

/// What `docker inspect` says, read as a process number and the container's
/// identifier: the two parts of its trimmed output around the first bar.
pub open spec fn inspected(name: Seq<char>, out: Seq<char>) -> Result<
    (u32, Seq<char>),
    Failure<Seq<char>>,
> {
    match split_first(trimmed(out), "|"@) {
        None => Err(Failure::UnexpectedInspect { stdout: out }),
        Some(parts) => match number_value(parts.0, u32::MAX as nat) {
            Err(error) => Err(Failure::BadInspectPid { text: parts.0, error }),
            Ok(pid) => if pid == 0 {
                Err(Failure::NotRunning { name })
            } else {
                Ok((pid as u32, trimmed(parts.1)))
            },
        },
    }
}

/// What comes of running `docker inspect`, or of not being able to.
pub open spec fn inspect_result(name: Seq<char>, output: Option<Output>) -> Result<
    (u32, Seq<char>),
    Failure<Seq<char>>,
> {
    match output {
        None => Err(Failure::CannotRun { tool: Tool::Docker }),
        Some(o) => if o.success {
            inspected(name, utf8_lossy(o.stdout@))
        } else {
            Err(Failure::NoSuchContainer { name, stderr: trimmed(utf8_lossy(o.stderr@)) })
        },
    }
}

/// The text of a result, as characters.
pub open spec fn pid_and_id(r: Result<(u32, String), Failure<String>>) -> Result<
    (u32, Seq<char>),
    Failure<Seq<char>>,
> {
    match r {
        Ok(p) => Ok((p.0, p.1@)),
        Err(f) => Err(f@),
    }
}

/// Reads what `docker inspect` printed for a container.
pub fn read_inspect(name: &str, stdout: &str) -> (found: Result<(u32, String), Failure<String>>)
    ensures
        pid_and_id(found) == inspected(name@, stdout@),
{
    match split_once(trim(stdout), "|") {
        None => Err(Failure::UnexpectedInspect { stdout: stdout.to_owned() }),
        Some((pid_text, id)) => match parse_number(pid_text, u32::MAX as u64) {
            Err(error) => Err(Failure::BadInspectPid { text: pid_text.to_owned(), error }),
            Ok(pid) => if pid == 0 {
                Err(Failure::NotRunning { name: name.to_owned() })
            } else {
                Ok((pid as u32, trim(id).to_owned()))
            },
        },
    }
}

/// Judges a run of `docker inspect`.
pub fn judge_inspect(name: &str, output: &Option<Output>) -> (found: Result<
    (u32, String),
    Failure<String>,
>)
    ensures
        pid_and_id(found) == inspect_result(name@, *output),
{
    match output {
        None => Err(Failure::CannotRun { tool: Tool::Docker }),
        Some(o) => if o.success {
            read_inspect(name, lossy_text(o.stdout.as_slice()).as_str())
        } else {
            let stderr = lossy_text(o.stderr.as_slice());
            Err(
                Failure::NoSuchContainer {
                    name: name.to_owned(),
                    stderr: trim(stderr.as_str()).to_owned(),
                },
            )
        },
    }
}

/// The mark of a line of the unified hierarchy, and what follows it.
pub open spec fn unified_path(line: Seq<char>) -> Option<Seq<char>> {
    if line.len() >= 3 && line.take(3) == "0::"@ {
        Some(line.skip(3))
    } else {
        None
    }
}

/// The path on the first line of the unified hierarchy.
pub open spec fn first_unified(list: Seq<Seq<char>>) -> Option<Seq<char>>
    decreases list.len(),
{
    if list.len() == 0 {
        None
    } else {
        match unified_path(list[0]) {
            Some(path) => Some(path),
            None => first_unified(list.skip(1)),
        }
    }
}

/// The contents of a file that could be read, as characters.
pub open spec fn text_in(contents: Option<String>) -> Option<Seq<char>> {
    match contents {
        Some(text) => Some(text@),
        None => None,
    }
}

/// The cgroup path in a process's `cgroup` file.
pub open spec fn cgroup_result(pid: u32, contents: Option<Seq<char>>) -> Result<
    Seq<char>,
    Failure<Seq<char>>,
> {
    match contents {
        None => Err(Failure::CgroupUnreadable { pid }),
        Some(text) => match first_unified(lines_of(text)) {
            Some(path) => Ok(path),
            None => Err(Failure::NoUnifiedEntry { pid }),
        },
    }
}

/// Finds the unified (v2) cgroup path in the contents of `/proc/<pid>/cgroup`,
/// e.g. `/system.slice/docker-<id>.scope`. Hosts on cgroup v2 have a single
/// `0::<path>` line, those on v1 several others instead.
pub fn resolve_cgroup_path(pid: u32, contents: &Option<String>) -> (path: Result<
    String,
    Failure<String>,
>)
    ensures
        match path {
            Ok(p) => cgroup_result(pid, text_in(*contents)) == Ok::<Seq<char>, Failure<Seq<char>>>(
                p@,
            ),
            Err(f) => cgroup_result(pid, text_in(*contents)) == Err::<Seq<char>, Failure<Seq<char>>>(
                f@,
            ),
        },
{
    let text = match contents {
        None => {
            return Err(Failure::CgroupUnreadable { pid });
        },
        Some(text) => text,
    };
    let list = lines(text.as_str());
    let ghost all = texts(list@);
    let mut i: usize = 0;
    assert(all.skip(0) =~= all);
    while i < list.len()
        invariant
            i <= list@.len(),
            *contents == Some(*text),
            all == texts(list@),
            all == lines_of(text@),
            first_unified(all) == first_unified(all.skip(i as int)),
        decreases list@.len() - i,
    {
        let line: &str = list[i];
        assert(all.skip(i as int)[0] == line@);
        assert(all.skip(i as int).skip(1) =~= all.skip(i + 1));
        match strip_mark(line) {
            Some(path) => {
                return Ok(path.to_owned());
            },
            None => {},
        }
        i += 1;
    }
    Err(Failure::NoUnifiedEntry { pid })
}

fn strip_mark<'a>(line: &'a str) -> (path: Option<&'a str>)
    ensures
        match path {
            Some(p) => unified_path(line@) == Some(p@),
            None => unified_path(line@) is None,
        },
{
    let n: usize = line.unicode_len();
    proof {
        reveal_strlit("0::");
    }
    if n >= 3 && line.get_char(0) == '0' && line.get_char(1) == ':' && line.get_char(2) == ':' {
        let path = line.substring_char(3, n);
        assert(line@.take(3) =~= "0::"@);
        assert(path@ =~= line@.skip(3));
        Some(path)
    } else {
        assert(n >= 3 && line@.take(3) == "0::"@ ==> line@[0] == line@.take(3)[0] && line@[1]
            == line@.take(3)[1] && line@[2] == line@.take(3)[2]);
        None
    }
}

/// The directory of a cgroup.
pub fn cgroup_dir(cgroup_path: &str) -> (dir: String)
    ensures
        dir@ == CGROUP_ROOT@ + cgroup_path@,
{
    CGROUP_ROOT.to_owned().concat(cgroup_path)
}

/// What Docker prints of a running container is a process number, a bar and the
/// identifier, and white space after that: they are read as they are. The number
/// zero means that the container is not running.
pub proof fn docker_answers_are_read(name: Seq<char>, pid: u32, id: Seq<char>, blank: Seq<char>)
    requires
        id.len() > 0,
        !is_white(id[0]) && !is_white(id.last()),
        forall|k: int| 0 <= k < blank.len() ==> is_white(#[trigger] blank[k]),
    ensures
        pid > 0 ==> inspected(name, decimal(pid as nat) + seq!['|'] + id + blank) == Ok::<
            (u32, Seq<char>),
            Failure<Seq<char>>,
        >((pid, id)),
        pid == 0 ==> inspected(name, decimal(pid as nat) + seq!['|'] + id + blank) == Err::<
            (u32, Seq<char>),
            Failure<Seq<char>>,
        >(Failure::NotRunning { name }),
{
    let d = decimal(pid as nat);
    numbers_are_digits(pid as nat, 10);
    let core = d + seq!['|'] + id;
    let none = Seq::<char>::empty();
    assert(is_digit_char(d[0]));
    assert(core[0] == d[0] && core.last() == id.last());
    trimming_finds_the_core(none, core, blank);
    assert(none + core + blank =~= core + blank);
    assert forall|k: int| 0 <= k < d.len() implies #[trigger] d[k] != '|' by {
        assert(is_digit_char(d[k]));
    }
    reveal_strlit("|");
    assert("|"@ =~= seq!['|']);
    joined_parts_are_split(d, '|', id);
    written_numbers_are_read(pid as nat, u32::MAX as nat);
    trimming_finds_the_core(none, id, none);
    assert(none + id + none =~= id);
}

/// Anything else that Docker prints is refused: text without a bar, and text
/// with something other than a process number in front of it.
pub proof fn other_docker_answers_are_refused(name: Seq<char>, out: Seq<char>)
    ensures
        (forall|k: int| 0 <= k < trimmed(out).len() ==> #[trigger] trimmed(out)[k] != '|')
            ==> inspected(name, out) == Err::<(u32, Seq<char>), Failure<Seq<char>>>(
            Failure::UnexpectedInspect { stdout: out },
        ),
        split_first(trimmed(out), seq!['|']) matches Some(p) ==> number_value(
            p.0,
            u32::MAX as nat,
        ) matches Err(error) ==> inspected(name, out) == Err::<
            (u32, Seq<char>),
            Failure<Seq<char>>,
        >(Failure::BadInspectPid { text: p.0, error }),
{
    reveal_strlit("|");
    assert("|"@ =~= seq!['|']);
    splits_are_at_the_first_separator(trimmed(out), seq!['|']);
    if split_first(trimmed(out), seq!['|']) is Some {
        let p = split_first(trimmed(out), seq!['|'])->0;
        assert((p.0 + seq!['|'] + p.1)[p.0.len() as int] == '|');
    }
}

/// A tool that could not be run, and one that failed, are told apart; of the
/// latter its own words are kept.
pub proof fn failed_inspections_are_told_apart(name: Seq<char>, o: Output)
    ensures
        inspect_result(name, None) == Err::<(u32, Seq<char>), Failure<Seq<char>>>(
            Failure::CannotRun { tool: Tool::Docker },
        ),
        !o.success ==> inspect_result(name, Some(o)) == Err::<(u32, Seq<char>), Failure<Seq<char>>>(
            Failure::NoSuchContainer { name, stderr: trimmed(utf8_lossy(o.stderr@)) },
        ),
        o.success ==> inspect_result(name, Some(o)) == inspected(name, utf8_lossy(o.stdout@)),
{
}

/// The path of a process's cgroup stands behind `0::` on the first line that
/// begins so.
pub proof fn cgroups_stand_on_the_unified_line(
    pid: u32,
    text: Seq<char>,
    i: int,
    path: Seq<char>,
)
    requires
        0 <= i < lines_of(text).len(),
        lines_of(text)[i] == seq!['0', ':', ':'] + path,
        forall|j: int|
            0 <= j < i ==> (#[trigger] lines_of(text)[j]).len() < 3 || lines_of(text)[j].take(3)
                != seq!['0', ':', ':'],
    ensures
        cgroup_result(pid, Some(text)) == Ok::<Seq<char>, Failure<Seq<char>>>(path),
{
    reveal_strlit("0::");
    assert("0::"@ =~= seq!['0', ':', ':']);
    let list = lines_of(text);
    assert(list[i].take(3) =~= seq!['0', ':', ':']);
    assert(list[i].skip(3) =~= path);
    lemma_first_unified(list, i);
}

proof fn lemma_first_unified(list: Seq<Seq<char>>, i: int)
    requires
        0 <= i < list.len(),
        unified_path(list[i]) is Some,
        forall|j: int| 0 <= j < i ==> unified_path(#[trigger] list[j]) is None,
    ensures
        first_unified(list) == unified_path(list[i]),
    decreases i,
{
    if i > 0 {
        assert(unified_path(list[0]) is None);
        let rest = list.skip(1);
        assert forall|j: int| 0 <= j < i - 1 implies unified_path(#[trigger] rest[j]) is None by {
            assert(unified_path(list[j + 1]) is None);
        }
        lemma_first_unified(rest, i - 1);
    }
}

/// Without such a line, or without the file, there is no cgroup to trace.
pub proof fn other_processes_have_no_unified_cgroup(pid: u32, text: Seq<char>)
    ensures
        cgroup_result(pid, None) == Err::<Seq<char>, Failure<Seq<char>>>(
            Failure::CgroupUnreadable { pid },
        ),
        (forall|j: int|
            0 <= j < lines_of(text).len() ==> (#[trigger] lines_of(text)[j]).len() < 3 || lines_of(
                text,
            )[j].take(3) != seq!['0', ':', ':']) ==> cgroup_result(pid, Some(text)) == Err::<
            Seq<char>,
            Failure<Seq<char>>,
        >(Failure::NoUnifiedEntry { pid }),
{
    reveal_strlit("0::");
    assert("0::"@ =~= seq!['0', ':', ':']);
    let list = lines_of(text);
    if forall|j: int|
        0 <= j < list.len() ==> (#[trigger] list[j]).len() < 3 || list[j].take(3) != seq![
            '0',
            ':',
            ':',
        ] {
        lemma_none_unified(list);
    }
}

proof fn lemma_none_unified(list: Seq<Seq<char>>)
    requires
        forall|j: int| 0 <= j < list.len() ==> unified_path(#[trigger] list[j]) is None,
    ensures
        first_unified(list) is None,
    decreases list.len(),
{
    if list.len() > 0 {
        let rest = list.skip(1);
        assert forall|j: int| 0 <= j < rest.len() implies unified_path(
            #[trigger] rest[j],
        ) is None by {
            assert(unified_path(list[j + 1]) is None);
        }
        lemma_none_unified(rest);
    }
}

/// What is said of a container holds of what was found.
pub proof fn containers_are_what_they_are(c: ContainerTarget)
    ensures
        c@.cgroup_id == c.cgroup_id,
        c@.full_id == c.full_id@,
        c@.cgroup_path == c.cgroup_path@,
{
}

/// What is said of Docker's answer holds of the process and the identifier that
/// were read, and of the failure; and what is said of a file of its contents.
pub proof fn inspections_are_what_was_read(
    r: Result<(u32, String), Failure<String>>,
    contents: Option<String>,
)
    ensures
        r matches Ok(p) ==> pid_and_id(r) matches Ok(q) && q.0 == p.0 && q.1 == p.1@,
        r matches Err(f) ==> pid_and_id(r) matches Err(g) && g == f@,
        contents matches Some(text) ==> text_in(contents) == Some(text@),
        contents is None ==> text_in(contents) is None,
{
}

} // verus!
