//! Memory of the target: the cgroup memory controller's files where there is
//! one, and the process files otherwise.

use crate::round::{
    div_half_even, double_of, doubles_are_near, half_even, half_even_is_nearest, push_tenths,
    round_to_double, tenths,
};
use crate::scan::{
    found_in_range, is_white, lines, lines_of, number_value, parse_number, split_first, split_once,
    splits_are_at_the_first_separator, texts, trim, trimmed, words, words_of,
    words_stand_between_white_space, written_numbers_are_read, NumberError,
};
use crate::text::{decimal, is_digit_char, numbers_are_digits, push_decimal, same_text};
use vstd::prelude::*;
use vstd::string::*;

verus! {

/// What the cgroup memory controller reports.
#[derive(Clone, Copy, Debug, Default, PartialEq, Eq, Structural)]
pub struct MemStats {
    pub current_bytes: u64,
    pub anon_bytes: u64,
    pub file_bytes: u64,
    pub active_anon_bytes: u64,
    pub inactive_anon_bytes: u64,
}

/// Whose memory is looked at.
#[derive(Clone, Debug)]
pub enum MemoryTarget {
    /// One process.
    Pid(u32),
    /// Everything in a cgroup, given by its path below the cgroup root.
    Cgroup(String),
}

/// What is known of the target's memory.
#[derive(Clone, Copy, Debug)]
pub enum MemReport {
    /// Read from the cgroup memory controller.
    Cgroup {
        current_bytes: u64,
        anon_bytes: u64,
        file_bytes: u64,
        active_anon_bytes: u64,
        inactive_anon_bytes: u64,
    },
    /// Read from the status files of processes.
    Process {
        rss_bytes: u64,
        anon_bytes: u64,
        file_bytes: u64,
        shmem_bytes: u64,
        num_processes: usize,
    },
}

/// Page faults since the processes started.
#[derive(Clone, Copy, Debug, PartialEq, Eq, Structural)]
pub struct FaultCounts {
    pub min_flt: u64,
    pub maj_flt: u64,
}

/// The number on a line of two or more words whose first is `key`.
pub open spec fn line_value(line: Seq<char>, key: Seq<char>, max: nat) -> Option<nat> {
    let w = words_of(line);
    if w.len() >= 2 && w[0] == key {
        match number_value(w[1], max) {
            Ok(n) => Some(n),
            Err(_) => None,
        }
    } else {
        None
    }
}

/// The number that the last line for `key` gives; zero if there is none. Lines
/// without a number are passed over.
pub open spec fn key_value(list: Seq<Seq<char>>, key: Seq<char>, max: nat) -> nat
    decreases list.len(),
{
    if list.len() == 0 {
        0
    } else {
        match line_value(list.last(), key, max) {
            Some(n) => n,
            None => key_value(list.drop_last(), key, max),
        }
    }
}

/// The number of a key in a whole file.
pub open spec fn file_value(file: Seq<char>, key: Seq<char>, max: nat) -> nat {
    key_value(lines_of(file), key, max)
}

fn find_value(list: &Vec<&str>, key: &str, max: u64) -> (n: u64)
    ensures
        n == key_value(texts(list@), key@, max as nat),
        n <= max,
{
    let mut i: usize = list.len();
    assert(texts(list@).take(i as int) =~= texts(list@));
    while i > 0
        invariant
            i <= list@.len(),
            key_value(texts(list@), key@, max as nat) == key_value(
                texts(list@).take(i as int),
                key@,
                max as nat,
            ),
        decreases i,
    {
        let ghost head = texts(list@).take(i as int);
        assert(head.last() == list@[i - 1]@);
        assert(head.drop_last() =~= texts(list@).take(i - 1));
        let w = words(list[i - 1]);
        assert(texts(w@) == words_of(list@[i - 1]@));
        if w.len() >= 2 {
            assert(texts(w@)[0] == w@[0]@ && texts(w@)[1] == w@[1]@);
            if same_text(w[0], key) {
                match parse_number(w[1], max) {
                    Ok(n) => {
                        return n;
                    },
                    Err(_) => {},
                }
            }
        }
        i -= 1;
    }
    0
}

/// The figures in a controller's `memory.current` and `memory.stat`.
pub open spec fn is_controller_report(m: MemStats, current: nat, stat: Seq<char>) -> bool {
    &&& m.current_bytes == current
    &&& m.anon_bytes == file_value(stat, "anon"@, u64::MAX as nat)
    &&& m.file_bytes == file_value(stat, "file"@, u64::MAX as nat)
    &&& m.active_anon_bytes == file_value(stat, "active_anon"@, u64::MAX as nat)
    &&& m.inactive_anon_bytes == file_value(stat, "inactive_anon"@, u64::MAX as nat)
}

/// Reads the contents of `memory.current` and `memory.stat`. The first must be
/// a number; in the second, what cannot be read is passed over.
pub fn read(current: &str, stat: &str) -> (report: Result<MemStats, NumberError>)
    ensures
        match number_value(trimmed(current@), u64::MAX as nat) {
            Ok(n) => report matches Ok(m) && is_controller_report(m, n, stat@),
            Err(e) => report matches Err(f) && f == e,
        },
{
    let current_bytes: u64 = match parse_number(trim(current), u64::MAX) {
        Ok(n) => n,
        Err(e) => {
            return Err(e);
        },
    };
    let list = lines(stat);
    Ok(
        MemStats {
            current_bytes,
            anon_bytes: find_value(&list, "anon", u64::MAX),
            file_bytes: find_value(&list, "file", u64::MAX),
            active_anon_bytes: find_value(&list, "active_anon", u64::MAX),
            inactive_anon_bytes: find_value(&list, "inactive_anon", u64::MAX),
        },
    )
}

/// The report of a cgroup with a memory controller.
pub fn controller_report(stats: MemStats) -> (report: MemReport)
    ensures
        report == (MemReport::Cgroup {
            current_bytes: stats.current_bytes,
            anon_bytes: stats.anon_bytes,
            file_bytes: stats.file_bytes,
            active_anon_bytes: stats.active_anon_bytes,
            inactive_anon_bytes: stats.inactive_anon_bytes,
        }),
{
    MemReport::Cgroup {
        current_bytes: stats.current_bytes,
        anon_bytes: stats.anon_bytes,
        file_bytes: stats.file_bytes,
        active_anon_bytes: stats.active_anon_bytes,
        inactive_anon_bytes: stats.inactive_anon_bytes,
    }
}

/// The resident memory of one process.
#[derive(Clone, Copy, Debug, PartialEq, Eq, Structural)]
pub struct ProcessMemory {
    pub rss_bytes: u64,
    pub anon_bytes: u64,
    pub file_bytes: u64,
    pub shmem_bytes: u64,
}

/// A figure of a status file, which counts in kibibytes.
pub open spec fn status_bytes(status: Seq<char>, key: Seq<char>) -> nat {
    1024 * file_value(status, key, (u64::MAX / 1024) as nat)
}

/// Reads the contents of a process's `status` file.
pub fn read_status(status: &str) -> (memory: ProcessMemory)
    ensures
        memory.rss_bytes == status_bytes(status@, "VmRSS:"@),
        memory.anon_bytes == status_bytes(status@, "RssAnon:"@),
        memory.file_bytes == status_bytes(status@, "RssFile:"@),
        memory.shmem_bytes == status_bytes(status@, "RssShmem:"@),
{
    let list = lines(status);
    let max: u64 = u64::MAX / 1024;
    ProcessMemory {
        rss_bytes: 1024 * find_value(&list, "VmRSS:", max),
        anon_bytes: 1024 * find_value(&list, "RssAnon:", max),
        file_bytes: 1024 * find_value(&list, "RssFile:", max),
        shmem_bytes: 1024 * find_value(&list, "RssShmem:", max),
    }
}

/// A sum that stops at the largest number there is room for.
pub open spec fn capped_sum(values: Seq<u64>) -> nat
    decreases values.len(),
{
    if values.len() == 0 {
        0
    } else {
        let sum = capped_sum(values.drop_last()) + values.last() as nat;
        if sum > u64::MAX {
            u64::MAX as nat
        } else {
            sum
        }
    }
}

fn capped_add(a: u64, b: u64) -> (sum: u64)
    ensures
        sum == (if a + b > u64::MAX {
            u64::MAX as int
        } else {
            a + b
        }),
{
    if a > u64::MAX - b {
        u64::MAX
    } else {
        a + b
    }
}

/// The report on processes: the sum of each figure. There is none without a
/// process.
pub open spec fn is_process_report(report: Option<MemReport>, list: Seq<ProcessMemory>) -> bool {
    match report {
        Some(MemReport::Process {
            rss_bytes,
            anon_bytes,
            file_bytes,
            shmem_bytes,
            num_processes,
        }) => {
            &&& list.len() > 0
            &&& rss_bytes == capped_sum(list.map_values(|m: ProcessMemory| m.rss_bytes))
            &&& anon_bytes == capped_sum(list.map_values(|m: ProcessMemory| m.anon_bytes))
            &&& file_bytes == capped_sum(list.map_values(|m: ProcessMemory| m.file_bytes))
            &&& shmem_bytes == capped_sum(list.map_values(|m: ProcessMemory| m.shmem_bytes))
            &&& num_processes == list.len()
        },
        Some(MemReport::Cgroup { .. }) => false,
        None => list.len() == 0,
    }
}

/// Adds the memory of processes up.
pub fn process_report(list: &Vec<ProcessMemory>) -> (report: Option<MemReport>)
    ensures
        is_process_report(report, list@),
{
    if list.len() == 0 {
        return None;
    }
    let ghost rss = list@.map_values(|m: ProcessMemory| m.rss_bytes);
    let ghost anon = list@.map_values(|m: ProcessMemory| m.anon_bytes);
    let ghost file = list@.map_values(|m: ProcessMemory| m.file_bytes);
    let ghost shmem = list@.map_values(|m: ProcessMemory| m.shmem_bytes);
    let mut sum = ProcessMemory { rss_bytes: 0, anon_bytes: 0, file_bytes: 0, shmem_bytes: 0 };
    let mut i: usize = 0;
    while i < list.len()
        invariant
            i <= list@.len(),
            rss == list@.map_values(|m: ProcessMemory| m.rss_bytes),
            anon == list@.map_values(|m: ProcessMemory| m.anon_bytes),
            file == list@.map_values(|m: ProcessMemory| m.file_bytes),
            shmem == list@.map_values(|m: ProcessMemory| m.shmem_bytes),
            sum.rss_bytes == capped_sum(rss.take(i as int)),
            sum.anon_bytes == capped_sum(anon.take(i as int)),
            sum.file_bytes == capped_sum(file.take(i as int)),
            sum.shmem_bytes == capped_sum(shmem.take(i as int)),
        decreases list@.len() - i,
    {
        let m: ProcessMemory = list[i];
        proof {
            assert(rss.take(i + 1).drop_last() =~= rss.take(i as int));
            assert(anon.take(i + 1).drop_last() =~= anon.take(i as int));
            assert(file.take(i + 1).drop_last() =~= file.take(i as int));
            assert(shmem.take(i + 1).drop_last() =~= shmem.take(i as int));
        }
        sum = ProcessMemory {
            rss_bytes: capped_add(sum.rss_bytes, m.rss_bytes),
            anon_bytes: capped_add(sum.anon_bytes, m.anon_bytes),
            file_bytes: capped_add(sum.file_bytes, m.file_bytes),
            shmem_bytes: capped_add(sum.shmem_bytes, m.shmem_bytes),
        };
        i += 1;
    }
    proof {
        assert(rss.take(i as int) =~= rss);
        assert(anon.take(i as int) =~= anon);
        assert(file.take(i as int) =~= file);
        assert(shmem.take(i as int) =~= shmem);
    }
    Some(
        MemReport::Process {
            rss_bytes: sum.rss_bytes,
            anon_bytes: sum.anon_bytes,
            file_bytes: sum.file_bytes,
            shmem_bytes: sum.shmem_bytes,
            num_processes: list.len(),
        },
    )
}

/// Chooses where the figures come from: the cgroup memory controller where there
/// is one, and the processes otherwise.
pub fn choose_report(controller: Option<MemStats>, list: &Vec<ProcessMemory>) -> (report: Option<
    MemReport,
>)
    ensures
        match controller {
            Some(stats) => report == Some(
                MemReport::Cgroup {
                    current_bytes: stats.current_bytes,
                    anon_bytes: stats.anon_bytes,
                    file_bytes: stats.file_bytes,
                    active_anon_bytes: stats.active_anon_bytes,
                    inactive_anon_bytes: stats.inactive_anon_bytes,
                },
            ),
            None => is_process_report(report, list@),
        },
{
    match controller {
        Some(stats) => Some(controller_report(stats)),
        None => process_report(list),
    }
}

/// The process numbers in a list of lines; other lines are passed over.
pub open spec fn pids_of(list: Seq<Seq<char>>) -> Seq<u32>
    decreases list.len(),
{
    if list.len() == 0 {
        Seq::empty()
    } else {
        let rest = pids_of(list.drop_last());
        match number_value(trimmed(list.last()), u32::MAX as nat) {
            Ok(pid) => rest.push(pid as u32),
            Err(_) => rest,
        }
    }
}

/// Reads the processes listed in the contents of a `cgroup.procs` file.
pub fn read_pids(procs: &str) -> (pids: Vec<u32>)
    ensures
        pids@ == pids_of(lines_of(procs@)),
{
    let list = lines(procs);
    let ghost all = texts(list@);
    let mut pids: Vec<u32> = Vec::new();
    let mut i: usize = 0;
    assert(pids@ =~= pids_of(all.take(0)));
    while i < list.len()
        invariant
            i <= list@.len(),
            all == texts(list@),
            pids@ == pids_of(all.take(i as int)),
        decreases list@.len() - i,
    {
        assert(all.take(i + 1).drop_last() =~= all.take(i as int));
        assert(all.take(i + 1).last() == list@[i as int]@);
        match parse_number(trim(list[i]), u32::MAX as u64) {
            Ok(pid) => pids.push(pid as u32),
            Err(_) => {},
        }
        i += 1;
    }
    assert(all.take(all.len() as int) =~= all);
    pids
}

/// What stands behind the last closing bracket; the whole text if there is
/// none.
pub open spec fn after_brackets(s: Seq<char>) -> Seq<char>
    decreases s.len(),
{
    match split_first(s, seq![')']) {
        Some(parts) if parts.1.len() < s.len() => after_brackets(parts.1),
        _ => s,
    }
}

fn skip_brackets<'a>(text: &'a str) -> (rest: &'a str)
    ensures
        rest@ == after_brackets(text@),
{
    let mut rest: &'a str = text;
    proof {
        reveal_strlit(")");
        assert(")"@ =~= seq![')']);
    }
    loop
        invariant
            ")"@ == seq![')'],
            after_brackets(rest@) == after_brackets(text@),
        decreases rest@.len(),
    {
        let ghost whole = rest@;
        match split_once(rest, ")") {
            Some((_, tail)) => {
                proof {
                    found_in_range(whole, seq![')'], 0);
                }
                rest = tail;
            },
            None => {
                return rest;
            },
        }
    }
}

/// Reads the fault counts of a process's `stat` file: the tenth and the twelfth
/// field, of which the second, the program's name, stands in brackets and may
/// hold anything.
pub fn read_faults(stat: &str) -> (faults: Option<FaultCounts>)
    ensures
        ({
            let w = words_of(after_brackets(stat@));
            match faults {
                Some(f) => {
                    &&& w.len() >= 10
                    &&& number_value(w[7], u64::MAX as nat) == Ok::<nat, NumberError>(
                        f.min_flt as nat,
                    )
                    &&& number_value(w[9], u64::MAX as nat) == Ok::<nat, NumberError>(
                        f.maj_flt as nat,
                    )
                },
                None => w.len() < 10 || number_value(w[7], u64::MAX as nat) is Err || number_value(
                    w[9],
                    u64::MAX as nat,
                ) is Err,
            }
        }),
{
    let w = words(skip_brackets(stat));
    if w.len() < 10 {
        assert(texts(w@).len() == w@.len());
        return None;
    }
    assert(texts(w@)[7] == w@[7]@ && texts(w@)[9] == w@[9]@);
    match (parse_number(w[7], u64::MAX), parse_number(w[9], u64::MAX)) {
        (Ok(min_flt), Ok(maj_flt)) => Some(FaultCounts { min_flt, maj_flt }),
        _ => None,
    }
}

/// Adds the faults of processes up. There is no count without a process.
pub fn sum_faults(list: &Vec<FaultCounts>) -> (sum: Option<FaultCounts>)
    ensures
        match sum {
            Some(f) => {
                &&& list@.len() > 0
                &&& f.min_flt == capped_sum(list@.map_values(|f: FaultCounts| f.min_flt))
                &&& f.maj_flt == capped_sum(list@.map_values(|f: FaultCounts| f.maj_flt))
            },
            None => list@.len() == 0,
        },
{
    if list.len() == 0 {
        return None;
    }
    let ghost min = list@.map_values(|f: FaultCounts| f.min_flt);
    let ghost maj = list@.map_values(|f: FaultCounts| f.maj_flt);
    let mut sum = FaultCounts { min_flt: 0, maj_flt: 0 };
    let mut i: usize = 0;
    while i < list.len()
        invariant
            i <= list@.len(),
            min == list@.map_values(|f: FaultCounts| f.min_flt),
            maj == list@.map_values(|f: FaultCounts| f.maj_flt),
            sum.min_flt == capped_sum(min.take(i as int)),
            sum.maj_flt == capped_sum(maj.take(i as int)),
        decreases list@.len() - i,
    {
        proof {
            assert(min.take(i + 1).drop_last() =~= min.take(i as int));
            assert(maj.take(i + 1).drop_last() =~= maj.take(i as int));
        }
        sum = FaultCounts {
            min_flt: capped_add(sum.min_flt, list[i].min_flt),
            maj_flt: capped_add(sum.maj_flt, list[i].maj_flt),
        };
        i += 1;
    }
    proof {
        assert(min.take(i as int) =~= min);
        assert(maj.take(i as int) =~= maj);
    }
    Some(sum)
}

/// How many times a size is divided by 1024 before it is shown.
pub open spec fn unit_index(value: nat) -> nat {
    if value < 1024 {
        0
    } else if value < 1024 * 1024 {
        1
    } else if value < 1024 * 1024 * 1024 {
        2
    } else if value < 1024 * 1024 * 1024 * 1024 {
        3
    } else {
        4
    }
}

/// The size of a unit in bytes.
pub open spec fn unit_size(unit: nat) -> nat {
    if unit == 0 {
        1
    } else if unit == 1 {
        1024
    } else if unit == 2 {
        1024 * 1024
    } else if unit == 3 {
        1024 * 1024 * 1024
    } else {
        1024 * 1024 * 1024 * 1024
    }
}

/// The name of a unit.
pub open spec fn unit_name(unit: nat) -> Seq<char> {
    if unit == 0 {
        "B"@
    } else if unit == 1 {
        "KiB"@
    } else if unit == 2 {
        "MiB"@
    } else if unit == 3 {
        "GiB"@
    } else {
        "TiB"@
    }
}

/// A size as shown: bytes as they are, larger units with one decimal.
pub open spec fn size_text(bytes: nat) -> Seq<char> {
    let value = double_of(bytes);
    let unit = unit_index(value);
    if unit == 0 {
        decimal(bytes) + " "@ + unit_name(unit)
    } else {
        tenths(half_even(10 * value, unit_size(unit))) + " "@ + unit_name(unit)
    }
}

/// Appends a size.
pub fn push_bytes_text(out: &mut String, bytes: u64)
    ensures
        final(out)@ == old(out)@ + size_text(bytes as nat),
{
    let ghost before = out@;
    let value: u128 = round_to_double(bytes as u128, 1);
    if value < 1024 {
        push_decimal(out, bytes as u128);
        out.append(" ");
        out.append("B");
        assert(out@ =~= before + size_text(bytes as nat));
        return ;
    }
    let (size, name): (u128, &str) = if value < 1024 * 1024 {
        (1024, "KiB")
    } else if value < 1024 * 1024 * 1024 {
        (1024 * 1024, "MiB")
    } else if value < 1024 * 1024 * 1024 * 1024 {
        (1024 * 1024 * 1024, "GiB")
    } else {
        (1024 * 1024 * 1024 * 1024, "TiB")
    };
    push_tenths(out, div_half_even(10 * value, size));
    out.append(" ");
    out.append(name);
    assert(out@ =~= before + size_text(bytes as nat));
}

/// Shows a size in the largest unit that leaves it at one or more.
pub fn format_bytes(bytes: u64) -> (text: String)
    ensures
        text@ == size_text(bytes as nat),
{
    let mut out = String::new();
    push_bytes_text(&mut out, bytes);
    assert(Seq::<char>::empty() + size_text(bytes as nat) =~= size_text(bytes as nat));
    out
}

/// Sizes below eight pebibytes lose nothing before they are rounded for display.
pub proof fn usual_sizes_are_held_exactly(bytes: nat)
    requires
        bytes < 0x20_0000_0000_0000,
    ensures
        double_of(bytes) == bytes,
{
}

/// A size in a larger unit is shown to the nearest tenth of the unit: twenty
/// times its distance from what is shown is at most a unit.
pub proof fn shown_size_is_nearest(bytes: nat)
    requires
        1024 <= bytes < 0x20_0000_0000_0000,
    ensures
        ({
            let unit = unit_index(bytes);
            let shown = half_even(10 * bytes, unit_size(unit));
            &&& size_text(bytes) == tenths(shown) + " "@ + unit_name(unit)
            &&& 20 * bytes <= 2 * unit_size(unit) * shown + unit_size(unit)
            &&& 2 * unit_size(unit) * shown <= 20 * bytes + unit_size(unit)
        }),
{
    usual_sizes_are_held_exactly(bytes);
    half_even_is_nearest(10 * bytes, unit_size(unit_index(bytes)));
}

/// The unit is the largest that leaves the size at one or more, up to the
/// largest there is.
pub proof fn unit_leaves_at_least_one(value: nat)
    ensures
        unit_index(value) > 0 ==> value >= unit_size(unit_index(value)),
        unit_index(value) < 4 ==> value < 1024 * unit_size(unit_index(value)),
{
}

/// A size is shown in bytes as it is, or to the nearest tenth of its unit, at a
/// tie to the even one. What is shown is returned, in tenths.
pub proof fn sizes_are_shown_in_their_unit(bytes: nat) -> (t: nat)
    requires
        bytes < 0x20_0000_0000_0000,
    ensures
        bytes < 1024 ==> size_text(bytes) == decimal(bytes) + " "@ + "B"@,
        1024 <= bytes < 1_048_576 ==> {
            &&& size_text(bytes) == decimal(t / 10) + "."@ + decimal(t % 10) + " "@ + "KiB"@
            &&& 10 * bytes <= 1024 * t + 512
            &&& 1024 * t <= 10 * bytes + 512
        },
        1_048_576 <= bytes < 1_073_741_824 ==> {
            &&& size_text(bytes) == decimal(t / 10) + "."@ + decimal(t % 10) + " "@ + "MiB"@
            &&& 10 * bytes <= 1_048_576 * t + 524_288
            &&& 1_048_576 * t <= 10 * bytes + 524_288
        },
        1_073_741_824 <= bytes < 1_099_511_627_776 ==> {
            &&& size_text(bytes) == decimal(t / 10) + "."@ + decimal(t % 10) + " "@ + "GiB"@
            &&& 10 * bytes <= 1_073_741_824 * t + 536_870_912
            &&& 1_073_741_824 * t <= 10 * bytes + 536_870_912
        },
        1_099_511_627_776 <= bytes ==> {
            &&& size_text(bytes) == decimal(t / 10) + "."@ + decimal(t % 10) + " "@ + "TiB"@
            &&& 10 * bytes <= 1_099_511_627_776 * t + 549_755_813_888
            &&& 1_099_511_627_776 * t <= 10 * bytes + 549_755_813_888
        },
{
    doubles_are_near(bytes);
    let size = unit_size(unit_index(bytes));
    half_even_is_nearest(10 * bytes, size);
    if bytes >= 1_099_511_627_776 {
        half_even_is_nearest(10 * bytes, 1_099_511_627_776);
        assert(size == 1_099_511_627_776);
    }
    half_even(10 * bytes, size)
}

/// Sizes too large for a double are shown in the largest unit, to the nearest
/// tenth of what a double holds of them.
pub proof fn huge_sizes_are_shown_in_the_largest_unit(bytes: u64) -> (t: nat)
    requires
        bytes >= 0x20_0000_0000_0000,
    ensures
        size_text(bytes as nat) == decimal(t / 10) + "."@ + decimal(t % 10) + " "@ + "TiB"@,
        10 * bytes <= 1_099_511_627_776 * t + 549_755_813_888 + 20_480,
        1_099_511_627_776 * t <= 10 * bytes + 549_755_813_888 + 20_480,
{
    doubles_are_near(bytes as nat);
    let value = double_of(bytes as nat);
    assert(value >= 0x1f_ffff_ffff_ffff);
    half_even_is_nearest(10 * value, 1_099_511_627_776);
    half_even(10 * value, 1_099_511_627_776)
}

/// The line is about the key.
pub open spec fn is_about(line: Seq<char>, key: Seq<char>) -> bool {
    words_of(line).len() > 0 && words_of(line)[0] == key
}

proof fn lemma_last_line(list: Seq<Seq<char>>, i: int, key: Seq<char>, n: nat, max: nat)
    requires
        0 <= i < list.len(),
        words_of(list[i]).len() >= 2,
        words_of(list[i])[0] == key,
        words_of(list[i])[1] == decimal(n),
        n <= max,
        forall|j: int| i < j < list.len() ==> !is_about(#[trigger] list[j], key),
    ensures
        key_value(list, key, max) == n,
    decreases list.len(),
{
    written_numbers_are_read(n, max);
    if i < list.len() - 1 {
        assert(!is_about(list[list.len() - 1], key));
        let head = list.drop_last();
        assert forall|j: int| i < j < head.len() implies !is_about(#[trigger] head[j], key) by {
            assert(!is_about(list[j], key));
        }
        lemma_last_line(head, i, key, n, max);
    }
}

proof fn lemma_no_line(list: Seq<Seq<char>>, key: Seq<char>, max: nat)
    requires
        forall|j: int| 0 <= j < list.len() ==> !is_about(#[trigger] list[j], key),
    ensures
        key_value(list, key, max) == 0,
    decreases list.len(),
{
    if list.len() > 0 {
        assert(!is_about(list[list.len() - 1], key));
        let head = list.drop_last();
        assert forall|j: int| 0 <= j < head.len() implies !is_about(#[trigger] head[j], key) by {
            assert(!is_about(list[j], key));
        }
        lemma_no_line(head, key, max);
    }
}

/// The last line of `stat` for the key is the line `i`, and gives the number `n`
/// in decimal, behind a space.
pub open spec fn gives(stat: Seq<char>, i: int, key: Seq<char>, n: nat) -> bool {
    let list = lines_of(stat);
    &&& 0 <= i < list.len()
    &&& list[i] == key + seq![' '] + decimal(n)
    &&& forall|j: int| i < j < list.len() ==> !is_about(#[trigger] list[j], key)
}

proof fn lemma_figure(stat: Seq<char>, i: int, key: Seq<char>, n: nat, max: nat)
    requires
        gives(stat, i, key, n),
        key.len() > 0,
        forall|k: int| 0 <= k < key.len() ==> !is_white(#[trigger] key[k]),
        n <= max,
    ensures
        file_value(stat, key, max) == n,
{
    numbers_are_digits(n, 10);
    let d = decimal(n);
    assert forall|k: int| 0 <= k < d.len() implies !is_white(#[trigger] d[k]) by {
        assert(is_digit_char(d[k]));
    }
    words_stand_between_white_space(key, ' ', d);
    words_stand_between_white_space(d, ' ', d);
    let w = words_of(lines_of(stat)[i]);
    assert(w =~= seq![key, d]);
    lemma_last_line(lines_of(stat), i, key, n, max);
}

/// Every figure that a number of 64 bits holds is read from its line of
/// `memory.stat`, each into the field of its name.
pub proof fn controller_figures_are_read(m: MemStats, current: nat, stat: Seq<char>, i: int, n: u64)
    requires
        is_controller_report(m, current, stat),
    ensures
        m.current_bytes == current,
        gives(stat, i, "anon"@, n as nat) ==> m.anon_bytes == n,
        gives(stat, i, "file"@, n as nat) ==> m.file_bytes == n,
        gives(stat, i, "active_anon"@, n as nat) ==> m.active_anon_bytes == n,
        gives(stat, i, "inactive_anon"@, n as nat) ==> m.inactive_anon_bytes == n,
{
    reveal_strlit("anon");
    reveal_strlit("file");
    reveal_strlit("active_anon");
    reveal_strlit("inactive_anon");
    if gives(stat, i, "anon"@, n as nat) {
        lemma_figure(stat, i, "anon"@, n as nat, u64::MAX as nat);
    }
    if gives(stat, i, "file"@, n as nat) {
        lemma_figure(stat, i, "file"@, n as nat, u64::MAX as nat);
    }
    if gives(stat, i, "active_anon"@, n as nat) {
        lemma_figure(stat, i, "active_anon"@, n as nat, u64::MAX as nat);
    }
    if gives(stat, i, "inactive_anon"@, n as nat) {
        lemma_figure(stat, i, "inactive_anon"@, n as nat, u64::MAX as nat);
    }
}

/// What `memory.stat` says nothing about counts as zero.
pub proof fn missing_figures_are_zero(m: MemStats, current: nat, stat: Seq<char>)
    requires
        is_controller_report(m, current, stat),
    ensures
        (forall|j: int|
            0 <= j < lines_of(stat).len() ==> !is_about(#[trigger] lines_of(stat)[j], "anon"@))
            ==> m.anon_bytes == 0,
        (forall|j: int|
            0 <= j < lines_of(stat).len() ==> !is_about(#[trigger] lines_of(stat)[j], "file"@))
            ==> m.file_bytes == 0,
        (forall|j: int|
            0 <= j < lines_of(stat).len() ==> !is_about(
                #[trigger] lines_of(stat)[j],
                "active_anon"@,
            )) ==> m.active_anon_bytes == 0,
        (forall|j: int|
            0 <= j < lines_of(stat).len() ==> !is_about(
                #[trigger] lines_of(stat)[j],
                "inactive_anon"@,
            )) ==> m.inactive_anon_bytes == 0,
{
    let list = lines_of(stat);
    let max = u64::MAX as nat;
    if forall|j: int| 0 <= j < list.len() ==> !is_about(#[trigger] list[j], "anon"@) {
        lemma_no_line(list, "anon"@, max);
    }
    if forall|j: int| 0 <= j < list.len() ==> !is_about(#[trigger] list[j], "file"@) {
        lemma_no_line(list, "file"@, max);
    }
    if forall|j: int| 0 <= j < list.len() ==> !is_about(#[trigger] list[j], "active_anon"@) {
        lemma_no_line(list, "active_anon"@, max);
    }
    if forall|j: int| 0 <= j < list.len() ==> !is_about(#[trigger] list[j], "inactive_anon"@) {
        lemma_no_line(list, "inactive_anon"@, max);
    }
}

/// A figure of a status file counts in kibibytes: a number behind its key means
/// 1024 times as many bytes.
pub proof fn status_figures_are_kibibytes(status: Seq<char>, i: int, key: Seq<char>, n: nat)
    requires
        0 <= i < lines_of(status).len(),
        words_of(lines_of(status)[i]).len() >= 2,
        words_of(lines_of(status)[i])[0] == key,
        words_of(lines_of(status)[i])[1] == decimal(n),
        1024 * n <= u64::MAX,
        forall|j: int|
            i < j < lines_of(status).len() ==> !is_about(#[trigger] lines_of(status)[j], key),
    ensures
        status_bytes(status, key) == 1024 * n,
{
    lemma_last_line(lines_of(status), i, key, n, (u64::MAX / 1024) as nat);
}

/// A sum grows by each value added, up to the largest number there is room for.
pub proof fn sums_grow_by_each_value(values: Seq<u64>, v: u64)
    ensures
        capped_sum(Seq::empty()) == 0,
        capped_sum(values) + v <= u64::MAX ==> capped_sum(values.push(v)) == capped_sum(values) + v,
        capped_sum(values) + v > u64::MAX ==> capped_sum(values.push(v)) == u64::MAX,
{
    assert(values.push(v).drop_last() =~= values);
}

/// The program's name ends at the last bracket, whatever it holds.
pub proof fn names_end_at_the_last_bracket(name: Seq<char>, rest: Seq<char>)
    requires
        forall|k: int| 0 <= k < rest.len() ==> #[trigger] rest[k] != ')',
    ensures
        after_brackets(rest) == rest,
        after_brackets(name + seq![')'] + rest) == rest,
    decreases name.len(),
{
    let sep = seq![')'];
    splits_are_at_the_first_separator(rest, sep);
    assert(split_first(rest, sep) is None) by {
        if split_first(rest, sep) is Some {
            let p = split_first(rest, sep)->0;
            assert((p.0 + sep + p.1)[p.0.len() as int] == ')');
        }
    }
    let s = name + sep + rest;
    splits_are_at_the_first_separator(s, sep);
    let n = name.len() as int;
    assert(s.subrange(n, n + sep.len()) =~= sep);
    assert(split_first(s, sep) is Some);
    let p = split_first(s, sep)->0;
    let t = p.0 + sep + p.1;
    assert(t == s);
    if p.0.len() > n {
        assert(s.subrange(n, n + sep.len()) != sep);
    }
    assert(p.0.len() <= n);
    assert(p.1.len() < s.len());
    assert(after_brackets(s) == after_brackets(p.1));
    assert(t[p.0.len() as int] == ')');
    if p.0.len() == n {
        assert(p.1 =~= t.skip(n + 1));
        assert(rest =~= s.skip(n + 1));
    } else {
        let shorter = name.skip(p.0.len() as int + 1);
        assert(p.1 =~= t.skip(p.0.len() as int + 1));
        assert(shorter + sep + rest =~= s.skip(p.0.len() as int + 1));
        names_end_at_the_last_bracket(shorter, rest);
    }
}

/// A line that holds a process number lists that process; other lines list
/// none.
pub proof fn processes_are_listed_by_line(list: Seq<Seq<char>>, pid: u32, line: Seq<char>)
    ensures
        trimmed(line) == decimal(pid as nat) ==> pids_of(list.push(line)) == pids_of(list).push(pid),
        number_value(trimmed(line), u32::MAX as nat) is Err ==> pids_of(list.push(line)) == pids_of(
            list,
        ),
        pids_of(Seq::empty()) == Seq::<u32>::empty(),
{
    assert(list.push(line).drop_last() =~= list);
    written_numbers_are_read(pid as nat, u32::MAX as nat);
}

/// A report on processes gives the number of them, and of each figure the sum.
pub proof fn process_figures_are_sums(report: MemReport, list: Seq<ProcessMemory>)
    requires
        is_process_report(Some(report), list),
    ensures
        list.len() > 0,
        report is Process,
        report->num_processes == list.len(),
        report->rss_bytes == capped_sum(list.map_values(|m: ProcessMemory| m.rss_bytes)),
        report->Process_anon_bytes == capped_sum(list.map_values(|m: ProcessMemory| m.anon_bytes)),
        report->Process_file_bytes == capped_sum(list.map_values(|m: ProcessMemory| m.file_bytes)),
        report->shmem_bytes == capped_sum(list.map_values(|m: ProcessMemory| m.shmem_bytes)),
{
}

/// There is a report on processes as soon as there is one process, and none
/// where there is none.
pub proof fn processes_make_a_report(report: Option<MemReport>, list: Seq<ProcessMemory>)
    requires
        is_process_report(report, list),
    ensures
        report is Some <==> list.len() > 0,
{
}

} // verus!
