//! Syscall number -> name -> plain-language category and one-line annotation:
//! the default view is to be readable without knowing the syscall table by
//! heart.

use crate::text::same_text;
use vstd::prelude::*;

verus! {

/// What is shown of a syscall.
#[derive(Clone, Copy, Debug)]
pub struct SyscallInfo {
    pub name: &'static str,
    pub category: &'static str,
    pub annotation: &'static str,
}

/// The name that `syscalls::Sysno` has for a number, on the architecture that
/// the crate is built for.
pub uninterp spec fn sysno_name(nr: usize) -> Option<Seq<char>>;

/// `syscalls::Sysno::new` and `Sysno::name`: the name of a syscall number, if
/// the table of the architecture built for has the number. Claimed is only
/// that the answer depends on the number alone; the table itself is not
/// restated.
#[verifier::external_body]
fn syscall_name(nr: usize) -> (name: Option<&'static str>)
    ensures
        match name {
            Some(text) => sysno_name(nr) == Some(text@),
            None => sysno_name(nr) is None,
        },
{
    match syscalls::Sysno::new(nr) {
        Some(sysno) => Some(sysno.name()),
        None => None,
    }
}

/// The category and the annotation of a syscall name.
pub open spec fn classification(name: Seq<char>) -> (Seq<char>, Seq<char>) {
    if name == "read"@ || name == "pread64"@ || name == "readv"@ || name == "preadv"@
        || name == "preadv2"@ {
        ("File I/O"@, "reading from a file descriptor"@)
    } else if name == "write"@ || name == "pwrite64"@ || name == "writev"@ || name == "pwritev"@
        || name == "pwritev2"@ {
        ("File I/O"@, "writing to a file descriptor"@)
    } else if name == "openat"@ || name == "openat2"@ || name == "open"@ || name == "creat"@ {
        ("File I/O"@, "opening a file"@)
    } else if name == "close"@ || name == "close_range"@ {
        ("File I/O"@, "closing a file descriptor"@)
    } else if name == "fstat"@ || name == "newfstatat"@ || name == "statx"@ || name == "stat"@
        || name == "lstat"@ {
        ("File I/O"@, "checking file metadata"@)
    } else if name == "lseek"@ {
        ("File I/O"@, "moving the read/write position in a file"@)
    } else if name == "getdents64"@ {
        ("File I/O"@, "reading directory entries"@)
    } else if name == "ioctl"@ {
        ("File I/O"@, "device-specific control operation"@)
    } else if name == "fsync"@ || name == "fdatasync"@ {
        ("File I/O"@, "flushing file data to disk"@)
    } else if name == "socket"@ {
        ("Networking"@, "creating a network socket"@)
    } else if name == "connect"@ {
        ("Networking"@, "connecting to a remote address"@)
    } else if name == "accept"@ || name == "accept4"@ {
        ("Networking"@, "accepting an incoming connection"@)
    } else if name == "sendto"@ || name == "sendmsg"@ || name == "sendmmsg"@ {
        ("Networking"@, "sending data on a socket"@)
    } else if name == "recvfrom"@ || name == "recvmsg"@ || name == "recvmmsg"@ {
        ("Networking"@, "receiving data on a socket"@)
    } else if name == "bind"@ {
        ("Networking"@, "binding a socket to an address"@)
    } else if name == "listen"@ {
        ("Networking"@, "listening for incoming connections"@)
    } else if name == "epoll_wait"@ || name == "epoll_pwait"@ || name == "epoll_pwait2"@
        || name == "epoll_ctl"@ || name == "epoll_create1"@ {
        ("Networking"@, "waiting on / managing I/O readiness (often sockets)"@)
    } else if name == "poll"@ || name == "ppoll"@ || name == "select"@ || name == "pselect6"@ {
        ("Networking"@, "waiting on multiple file descriptors for I/O readiness"@)
    } else if name == "getsockopt"@ || name == "setsockopt"@ {
        ("Networking"@, "reading/setting socket options"@)
    } else if name == "shutdown"@ {
        ("Networking"@, "shutting down part of a socket connection"@)
    } else if name == "clone"@ || name == "clone3"@ || name == "fork"@ || name == "vfork"@ {
        ("Process/Thread"@, "creating a new process/thread"@)
    } else if name == "execve"@ || name == "execveat"@ {
        ("Process/Thread"@, "replacing the process image (running a new program)"@)
    } else if name == "exit"@ || name == "exit_group"@ {
        ("Process/Thread"@, "terminating the process/thread"@)
    } else if name == "wait4"@ || name == "waitid"@ {
        ("Process/Thread"@, "waiting for a child process to change state"@)
    } else if name == "sched_yield"@ {
        ("Process/Thread"@, "yielding the CPU to another thread"@)
    } else if name == "sched_getaffinity"@ || name == "sched_setaffinity"@ {
        ("Process/Thread"@, "reading/setting which CPUs this thread may run on"@)
    } else if name == "gettid"@ || name == "getpid"@ || name == "getppid"@ {
        ("Process/Thread"@, "reading a process/thread ID"@)
    } else if name == "set_tid_address"@ || name == "set_robust_list"@ || name == "prctl"@ {
        ("Process/Thread"@, "thread/process bookkeeping for the kernel"@)
    } else if name == "mmap"@ {
        ("Memory"@, "mapping memory (file-backed or anonymous)"@)
    } else if name == "munmap"@ {
        ("Memory"@, "unmapping memory"@)
    } else if name == "mprotect"@ {
        ("Memory"@, "changing memory protection flags"@)
    } else if name == "brk"@ {
        ("Memory"@, "adjusting the heap break"@)
    } else if name == "madvise"@ {
        ("Memory"@, "giving the kernel a memory usage hint"@)
    } else if name == "mremap"@ {
        ("Memory"@, "resizing/moving an existing memory mapping"@)
    } else if name == "futex"@ {
        ("Synchronization"@, "waiting on a lock"@)
    } else if name == "rt_sigaction"@ || name == "rt_sigprocmask"@ || name == "rt_sigreturn"@
        || name == "rt_sigsuspend"@ || name == "tgkill"@ {
        ("Synchronization"@, "signal handling setup or delivery"@)
    } else {
        ("Other"@, "uncommon syscall, no plain-language annotation yet"@)
    }
}

/// The name shown of a number whose name is known, or not.
pub open spec fn shown_name(name: Option<Seq<char>>) -> Seq<char> {
    match name {
        Some(n) => n,
        None => "unknown"@,
    }
}

/// What is shown of a number whose name is known, or not.
pub open spec fn is_info(info: SyscallInfo, name: Option<Seq<char>>) -> bool {
    let shown = shown_name(name);
    info.name@ == shown && (info.category@, info.annotation@) == classification(shown)
}

/// The number as the syscall table takes it: its low bits, as many as an
/// address has.
pub open spec fn table_index(nr: u64) -> usize {
    nr as usize
}

/// Looks a syscall number up.
pub fn lookup(nr: u64) -> (info: SyscallInfo)
    ensures
        is_info(info, sysno_name(table_index(nr))),
{
    describe(syscall_name(nr as usize))
}

/// What to show of a syscall, by its name; a number without a name is shown as
/// unknown.
pub fn describe(name: Option<&'static str>) -> (info: SyscallInfo)
    ensures
        match name {
            Some(n) => is_info(info, Some(n@)),
            None => is_info(info, None),
        },
{
    let shown: &'static str = match name {
        Some(n) => n,
        None => "unknown",
    };
    let (category, annotation) = classify(shown);
    SyscallInfo { name: shown, category, annotation }
}

/// Finds the category and the annotation of a syscall name.
pub fn classify(name: &str) -> (found: (&'static str, &'static str))
    ensures
        (found.0@, found.1@) == classification(name@),
{
    if same_text(name, "read") || same_text(name, "pread64") || same_text(name, "readv")
        || same_text(name, "preadv") || same_text(name, "preadv2") {
        ("File I/O", "reading from a file descriptor")
    } else if same_text(name, "write") || same_text(name, "pwrite64") || same_text(name, "writev")
        || same_text(name, "pwritev") || same_text(name, "pwritev2") {
        ("File I/O", "writing to a file descriptor")
    } else if same_text(name, "openat") || same_text(name, "openat2") || same_text(name, "open")
        || same_text(name, "creat") {
        ("File I/O", "opening a file")
    } else if same_text(name, "close") || same_text(name, "close_range") {
        ("File I/O", "closing a file descriptor")
    } else if same_text(name, "fstat") || same_text(name, "newfstatat") || same_text(name, "statx")
        || same_text(name, "stat") || same_text(name, "lstat") {
        ("File I/O", "checking file metadata")
    } else if same_text(name, "lseek") {
        ("File I/O", "moving the read/write position in a file")
    } else if same_text(name, "getdents64") {
        ("File I/O", "reading directory entries")
    } else if same_text(name, "ioctl") {
        ("File I/O", "device-specific control operation")
    } else if same_text(name, "fsync") || same_text(name, "fdatasync") {
        ("File I/O", "flushing file data to disk")
    } else if same_text(name, "socket") {
        ("Networking", "creating a network socket")
    } else if same_text(name, "connect") {
        ("Networking", "connecting to a remote address")
    } else if same_text(name, "accept") || same_text(name, "accept4") {
        ("Networking", "accepting an incoming connection")
    } else if same_text(name, "sendto") || same_text(name, "sendmsg") || same_text(name, "sendmmsg") {
        ("Networking", "sending data on a socket")
    } else if same_text(name, "recvfrom") || same_text(name, "recvmsg") || same_text(name, "recvmmsg") {
        ("Networking", "receiving data on a socket")
    } else if same_text(name, "bind") {
        ("Networking", "binding a socket to an address")
    } else if same_text(name, "listen") {
        ("Networking", "listening for incoming connections")
    } else if same_text(name, "epoll_wait") || same_text(name, "epoll_pwait")
        || same_text(name, "epoll_pwait2") || same_text(name, "epoll_ctl")
        || same_text(name, "epoll_create1") {
        ("Networking", "waiting on / managing I/O readiness (often sockets)")
    } else if same_text(name, "poll") || same_text(name, "ppoll") || same_text(name, "select")
        || same_text(name, "pselect6") {
        ("Networking", "waiting on multiple file descriptors for I/O readiness")
    } else if same_text(name, "getsockopt") || same_text(name, "setsockopt") {
        ("Networking", "reading/setting socket options")
    } else if same_text(name, "shutdown") {
        ("Networking", "shutting down part of a socket connection")
    } else if same_text(name, "clone") || same_text(name, "clone3") || same_text(name, "fork")
        || same_text(name, "vfork") {
        ("Process/Thread", "creating a new process/thread")
    } else if same_text(name, "execve") || same_text(name, "execveat") {
        ("Process/Thread", "replacing the process image (running a new program)")
    } else if same_text(name, "exit") || same_text(name, "exit_group") {
        ("Process/Thread", "terminating the process/thread")
    } else if same_text(name, "wait4") || same_text(name, "waitid") {
        ("Process/Thread", "waiting for a child process to change state")
    } else if same_text(name, "sched_yield") {
        ("Process/Thread", "yielding the CPU to another thread")
    } else if same_text(name, "sched_getaffinity") || same_text(name, "sched_setaffinity") {
        ("Process/Thread", "reading/setting which CPUs this thread may run on")
    } else if same_text(name, "gettid") || same_text(name, "getpid") || same_text(name, "getppid") {
        ("Process/Thread", "reading a process/thread ID")
    } else if same_text(name, "set_tid_address") || same_text(name, "set_robust_list")
        || same_text(name, "prctl") {
        ("Process/Thread", "thread/process bookkeeping for the kernel")
    } else if same_text(name, "mmap") {
        ("Memory", "mapping memory (file-backed or anonymous)")
    } else if same_text(name, "munmap") {
        ("Memory", "unmapping memory")
    } else if same_text(name, "mprotect") {
        ("Memory", "changing memory protection flags")
    } else if same_text(name, "brk") {
        ("Memory", "adjusting the heap break")
    } else if same_text(name, "madvise") {
        ("Memory", "giving the kernel a memory usage hint")
    } else if same_text(name, "mremap") {
        ("Memory", "resizing/moving an existing memory mapping")
    } else if same_text(name, "futex") {
        ("Synchronization", "waiting on a lock")
    } else if same_text(name, "rt_sigaction") || same_text(name, "rt_sigprocmask")
        || same_text(name, "rt_sigreturn") || same_text(name, "rt_sigsuspend")
        || same_text(name, "tgkill") {
        ("Synchronization", "signal handling setup or delivery")
    } else {
        ("Other", "uncommon syscall, no plain-language annotation yet")
    }
}

/// Every syscall falls into one of the six categories.
pub proof fn categories_are_few(name: Seq<char>)
    ensures
        ({
            let c = classification(name).0;
            ||| c == "File I/O"@
            ||| c == "Networking"@
            ||| c == "Process/Thread"@
            ||| c == "Memory"@
            ||| c == "Synchronization"@
            ||| c == "Other"@
        }),
{
}

/// Every syscall has an annotation.
pub proof fn annotations_are_there(name: Seq<char>)
    ensures
        classification(name).1.len() > 0,
{
    reveal_strlit("accepting an incoming connection");
    reveal_strlit("adjusting the heap break");
    reveal_strlit("binding a socket to an address");
    reveal_strlit("changing memory protection flags");
    reveal_strlit("checking file metadata");
    reveal_strlit("closing a file descriptor");
    reveal_strlit("connecting to a remote address");
    reveal_strlit("creating a network socket");
    reveal_strlit("creating a new process/thread");
    reveal_strlit("device-specific control operation");
    reveal_strlit("flushing file data to disk");
    reveal_strlit("giving the kernel a memory usage hint");
    reveal_strlit("listening for incoming connections");
    reveal_strlit("mapping memory (file-backed or anonymous)");
    reveal_strlit("moving the read/write position in a file");
    reveal_strlit("opening a file");
    reveal_strlit("reading a process/thread ID");
    reveal_strlit("reading directory entries");
    reveal_strlit("reading from a file descriptor");
    reveal_strlit("reading/setting socket options");
    reveal_strlit("reading/setting which CPUs this thread may run on");
    reveal_strlit("receiving data on a socket");
    reveal_strlit("replacing the process image (running a new program)");
    reveal_strlit("resizing/moving an existing memory mapping");
    reveal_strlit("sending data on a socket");
    reveal_strlit("shutting down part of a socket connection");
    reveal_strlit("signal handling setup or delivery");
    reveal_strlit("terminating the process/thread");
    reveal_strlit("thread/process bookkeeping for the kernel");
    reveal_strlit("uncommon syscall, no plain-language annotation yet");
    reveal_strlit("unmapping memory");
    reveal_strlit("waiting for a child process to change state");
    reveal_strlit("waiting on / managing I/O readiness (often sockets)");
    reveal_strlit("waiting on multiple file descriptors for I/O readiness");
    reveal_strlit("waiting on a lock");
    reveal_strlit("writing to a file descriptor");
    reveal_strlit("yielding the CPU to another thread");
}

/// How the names are spelled, as far as it takes to tell them apart.
proof fn lemma_spelling()
    ensures
        "read"@.len() == 4,
        "read"@[0] == 'r' && "read"@[1] == 'e' && "read"@[2] == 'a' && "read"@[3] == 'd',
        "pread64"@.len() == 7,
        "pread64"@[0] == 'p' && "pread64"@[1] == 'r' && "pread64"@[2] == 'e' && "pread64"@[3] == 'a' && "pread64"@[4] == 'd' && "pread64"@[5] == '6' && "pread64"@[6] == '4',
        "readv"@.len() == 5,
        "readv"@[0] == 'r' && "readv"@[1] == 'e' && "readv"@[2] == 'a' && "readv"@[3] == 'd' && "readv"@[4] == 'v',
        "preadv"@.len() == 6,
        "preadv"@[0] == 'p' && "preadv"@[1] == 'r' && "preadv"@[2] == 'e' && "preadv"@[3] == 'a' && "preadv"@[4] == 'd' && "preadv"@[5] == 'v',
        "preadv2"@.len() == 7,
        "preadv2"@[0] == 'p' && "preadv2"@[1] == 'r' && "preadv2"@[2] == 'e' && "preadv2"@[3] == 'a' && "preadv2"@[4] == 'd' && "preadv2"@[5] == 'v' && "preadv2"@[6] == '2',
        "write"@.len() == 5,
        "write"@[0] == 'w' && "write"@[1] == 'r' && "write"@[2] == 'i' && "write"@[3] == 't' && "write"@[4] == 'e',
        "pwrite64"@.len() == 8,
        "pwrite64"@[0] == 'p' && "pwrite64"@[1] == 'w' && "pwrite64"@[2] == 'r' && "pwrite64"@[3] == 'i' && "pwrite64"@[4] == 't' && "pwrite64"@[5] == 'e' && "pwrite64"@[6] == '6' && "pwrite64"@[7] == '4',
        "writev"@.len() == 6,
        "writev"@[0] == 'w' && "writev"@[1] == 'r' && "writev"@[2] == 'i' && "writev"@[3] == 't' && "writev"@[4] == 'e' && "writev"@[5] == 'v',
        "pwritev"@.len() == 7,
        "pwritev"@[0] == 'p' && "pwritev"@[1] == 'w' && "pwritev"@[2] == 'r' && "pwritev"@[3] == 'i' && "pwritev"@[4] == 't' && "pwritev"@[5] == 'e' && "pwritev"@[6] == 'v',
        "pwritev2"@.len() == 8,
        "pwritev2"@[0] == 'p' && "pwritev2"@[1] == 'w' && "pwritev2"@[2] == 'r' && "pwritev2"@[3] == 'i' && "pwritev2"@[4] == 't' && "pwritev2"@[5] == 'e' && "pwritev2"@[6] == 'v' && "pwritev2"@[7] == '2',
        "openat"@.len() == 6,
        "openat"@[0] == 'o' && "openat"@[1] == 'p' && "openat"@[2] == 'e' && "openat"@[3] == 'n' && "openat"@[4] == 'a' && "openat"@[5] == 't',
        "openat2"@.len() == 7,
        "openat2"@[0] == 'o' && "openat2"@[1] == 'p' && "openat2"@[2] == 'e' && "openat2"@[3] == 'n' && "openat2"@[4] == 'a' && "openat2"@[5] == 't' && "openat2"@[6] == '2',
        "open"@.len() == 4,
        "open"@[0] == 'o' && "open"@[1] == 'p' && "open"@[2] == 'e' && "open"@[3] == 'n',
        "creat"@.len() == 5,
        "creat"@[0] == 'c' && "creat"@[1] == 'r' && "creat"@[2] == 'e' && "creat"@[3] == 'a' && "creat"@[4] == 't',
        "close"@.len() == 5,
        "close"@[0] == 'c' && "close"@[1] == 'l' && "close"@[2] == 'o' && "close"@[3] == 's' && "close"@[4] == 'e',
        "close_range"@.len() == 11,
        "close_range"@[0] == 'c' && "close_range"@[1] == 'l' && "close_range"@[2] == 'o' && "close_range"@[3] == 's' && "close_range"@[4] == 'e' && "close_range"@[5] == '_' && "close_range"@[6] == 'r' && "close_range"@[7] == 'a' && "close_range"@[8] == 'n' && "close_range"@[9] == 'g' && "close_range"@[10] == 'e',
        "fstat"@.len() == 5,
        "fstat"@[0] == 'f' && "fstat"@[1] == 's' && "fstat"@[2] == 't' && "fstat"@[3] == 'a' && "fstat"@[4] == 't',
        "newfstatat"@.len() == 10,
        "newfstatat"@[0] == 'n' && "newfstatat"@[1] == 'e' && "newfstatat"@[2] == 'w' && "newfstatat"@[3] == 'f' && "newfstatat"@[4] == 's' && "newfstatat"@[5] == 't' && "newfstatat"@[6] == 'a' && "newfstatat"@[7] == 't' && "newfstatat"@[8] == 'a' && "newfstatat"@[9] == 't',
        "statx"@.len() == 5,
        "statx"@[0] == 's' && "statx"@[1] == 't' && "statx"@[2] == 'a' && "statx"@[3] == 't' && "statx"@[4] == 'x',
        "stat"@.len() == 4,
        "stat"@[0] == 's' && "stat"@[1] == 't' && "stat"@[2] == 'a' && "stat"@[3] == 't',
        "lstat"@.len() == 5,
        "lstat"@[0] == 'l' && "lstat"@[1] == 's' && "lstat"@[2] == 't' && "lstat"@[3] == 'a' && "lstat"@[4] == 't',
        "lseek"@.len() == 5,
        "lseek"@[0] == 'l' && "lseek"@[1] == 's' && "lseek"@[2] == 'e' && "lseek"@[3] == 'e' && "lseek"@[4] == 'k',
        "getdents64"@.len() == 10,
        "getdents64"@[0] == 'g' && "getdents64"@[1] == 'e' && "getdents64"@[2] == 't' && "getdents64"@[3] == 'd' && "getdents64"@[4] == 'e' && "getdents64"@[5] == 'n' && "getdents64"@[6] == 't' && "getdents64"@[7] == 's' && "getdents64"@[8] == '6' && "getdents64"@[9] == '4',
        "ioctl"@.len() == 5,
        "ioctl"@[0] == 'i' && "ioctl"@[1] == 'o' && "ioctl"@[2] == 'c' && "ioctl"@[3] == 't' && "ioctl"@[4] == 'l',
        "fsync"@.len() == 5,
        "fsync"@[0] == 'f' && "fsync"@[1] == 's' && "fsync"@[2] == 'y' && "fsync"@[3] == 'n' && "fsync"@[4] == 'c',
        "fdatasync"@.len() == 9,
        "fdatasync"@[0] == 'f' && "fdatasync"@[1] == 'd' && "fdatasync"@[2] == 'a' && "fdatasync"@[3] == 't' && "fdatasync"@[4] == 'a' && "fdatasync"@[5] == 's' && "fdatasync"@[6] == 'y' && "fdatasync"@[7] == 'n' && "fdatasync"@[8] == 'c',
        "socket"@.len() == 6,
        "socket"@[0] == 's' && "socket"@[1] == 'o' && "socket"@[2] == 'c' && "socket"@[3] == 'k' && "socket"@[4] == 'e' && "socket"@[5] == 't',
        "connect"@.len() == 7,
        "connect"@[0] == 'c' && "connect"@[1] == 'o' && "connect"@[2] == 'n' && "connect"@[3] == 'n' && "connect"@[4] == 'e' && "connect"@[5] == 'c' && "connect"@[6] == 't',
        "accept"@.len() == 6,
        "accept"@[0] == 'a' && "accept"@[1] == 'c' && "accept"@[2] == 'c' && "accept"@[3] == 'e' && "accept"@[4] == 'p' && "accept"@[5] == 't',
        "accept4"@.len() == 7,
        "accept4"@[0] == 'a' && "accept4"@[1] == 'c' && "accept4"@[2] == 'c' && "accept4"@[3] == 'e' && "accept4"@[4] == 'p' && "accept4"@[5] == 't' && "accept4"@[6] == '4',
        "sendto"@.len() == 6,
        "sendto"@[0] == 's' && "sendto"@[1] == 'e' && "sendto"@[2] == 'n' && "sendto"@[3] == 'd' && "sendto"@[4] == 't' && "sendto"@[5] == 'o',
        "sendmsg"@.len() == 7,
        "sendmsg"@[0] == 's' && "sendmsg"@[1] == 'e' && "sendmsg"@[2] == 'n' && "sendmsg"@[3] == 'd' && "sendmsg"@[4] == 'm' && "sendmsg"@[5] == 's' && "sendmsg"@[6] == 'g',
        "sendmmsg"@.len() == 8,
        "sendmmsg"@[0] == 's' && "sendmmsg"@[1] == 'e' && "sendmmsg"@[2] == 'n' && "sendmmsg"@[3] == 'd' && "sendmmsg"@[4] == 'm' && "sendmmsg"@[5] == 'm' && "sendmmsg"@[6] == 's' && "sendmmsg"@[7] == 'g',
        "recvfrom"@.len() == 8,
        "recvfrom"@[0] == 'r' && "recvfrom"@[1] == 'e' && "recvfrom"@[2] == 'c' && "recvfrom"@[3] == 'v' && "recvfrom"@[4] == 'f' && "recvfrom"@[5] == 'r' && "recvfrom"@[6] == 'o' && "recvfrom"@[7] == 'm',
        "recvmsg"@.len() == 7,
        "recvmsg"@[0] == 'r' && "recvmsg"@[1] == 'e' && "recvmsg"@[2] == 'c' && "recvmsg"@[3] == 'v' && "recvmsg"@[4] == 'm' && "recvmsg"@[5] == 's' && "recvmsg"@[6] == 'g',
        "recvmmsg"@.len() == 8,
        "recvmmsg"@[0] == 'r' && "recvmmsg"@[1] == 'e' && "recvmmsg"@[2] == 'c' && "recvmmsg"@[3] == 'v' && "recvmmsg"@[4] == 'm' && "recvmmsg"@[5] == 'm' && "recvmmsg"@[6] == 's' && "recvmmsg"@[7] == 'g',
        "bind"@.len() == 4,
        "bind"@[0] == 'b' && "bind"@[1] == 'i' && "bind"@[2] == 'n' && "bind"@[3] == 'd',
        "listen"@.len() == 6,
        "listen"@[0] == 'l' && "listen"@[1] == 'i' && "listen"@[2] == 's' && "listen"@[3] == 't' && "listen"@[4] == 'e' && "listen"@[5] == 'n',
        "epoll_wait"@.len() == 10,
        "epoll_wait"@[0] == 'e' && "epoll_wait"@[1] == 'p' && "epoll_wait"@[2] == 'o' && "epoll_wait"@[3] == 'l' && "epoll_wait"@[4] == 'l' && "epoll_wait"@[5] == '_' && "epoll_wait"@[6] == 'w' && "epoll_wait"@[7] == 'a' && "epoll_wait"@[8] == 'i' && "epoll_wait"@[9] == 't',
        "epoll_pwait"@.len() == 11,
        "epoll_pwait"@[0] == 'e' && "epoll_pwait"@[1] == 'p' && "epoll_pwait"@[2] == 'o' && "epoll_pwait"@[3] == 'l' && "epoll_pwait"@[4] == 'l' && "epoll_pwait"@[5] == '_' && "epoll_pwait"@[6] == 'p' && "epoll_pwait"@[7] == 'w' && "epoll_pwait"@[8] == 'a' && "epoll_pwait"@[9] == 'i' && "epoll_pwait"@[10] == 't',
        "epoll_pwait2"@.len() == 12,
        "epoll_pwait2"@[0] == 'e' && "epoll_pwait2"@[1] == 'p' && "epoll_pwait2"@[2] == 'o' && "epoll_pwait2"@[3] == 'l' && "epoll_pwait2"@[4] == 'l' && "epoll_pwait2"@[5] == '_' && "epoll_pwait2"@[6] == 'p' && "epoll_pwait2"@[7] == 'w' && "epoll_pwait2"@[8] == 'a' && "epoll_pwait2"@[9] == 'i' && "epoll_pwait2"@[10] == 't' && "epoll_pwait2"@[11] == '2',
        "epoll_ctl"@.len() == 9,
        "epoll_ctl"@[0] == 'e' && "epoll_ctl"@[1] == 'p' && "epoll_ctl"@[2] == 'o' && "epoll_ctl"@[3] == 'l' && "epoll_ctl"@[4] == 'l' && "epoll_ctl"@[5] == '_' && "epoll_ctl"@[6] == 'c' && "epoll_ctl"@[7] == 't' && "epoll_ctl"@[8] == 'l',
        "epoll_create1"@.len() == 13,
        "epoll_create1"@[0] == 'e' && "epoll_create1"@[1] == 'p' && "epoll_create1"@[2] == 'o' && "epoll_create1"@[3] == 'l' && "epoll_create1"@[4] == 'l' && "epoll_create1"@[5] == '_' && "epoll_create1"@[6] == 'c' && "epoll_create1"@[7] == 'r' && "epoll_create1"@[8] == 'e' && "epoll_create1"@[9] == 'a' && "epoll_create1"@[10] == 't' && "epoll_create1"@[11] == 'e' && "epoll_create1"@[12] == '1',
        "poll"@.len() == 4,
        "poll"@[0] == 'p' && "poll"@[1] == 'o' && "poll"@[2] == 'l' && "poll"@[3] == 'l',
        "ppoll"@.len() == 5,
        "ppoll"@[0] == 'p' && "ppoll"@[1] == 'p' && "ppoll"@[2] == 'o' && "ppoll"@[3] == 'l' && "ppoll"@[4] == 'l',
        "select"@.len() == 6,
        "select"@[0] == 's' && "select"@[1] == 'e' && "select"@[2] == 'l' && "select"@[3] == 'e' && "select"@[4] == 'c' && "select"@[5] == 't',
        "pselect6"@.len() == 8,
        "pselect6"@[0] == 'p' && "pselect6"@[1] == 's' && "pselect6"@[2] == 'e' && "pselect6"@[3] == 'l' && "pselect6"@[4] == 'e' && "pselect6"@[5] == 'c' && "pselect6"@[6] == 't' && "pselect6"@[7] == '6',
        "getsockopt"@.len() == 10,
        "getsockopt"@[0] == 'g' && "getsockopt"@[1] == 'e' && "getsockopt"@[2] == 't' && "getsockopt"@[3] == 's' && "getsockopt"@[4] == 'o' && "getsockopt"@[5] == 'c' && "getsockopt"@[6] == 'k' && "getsockopt"@[7] == 'o' && "getsockopt"@[8] == 'p' && "getsockopt"@[9] == 't',
        "setsockopt"@.len() == 10,
        "setsockopt"@[0] == 's' && "setsockopt"@[1] == 'e' && "setsockopt"@[2] == 't' && "setsockopt"@[3] == 's' && "setsockopt"@[4] == 'o' && "setsockopt"@[5] == 'c' && "setsockopt"@[6] == 'k' && "setsockopt"@[7] == 'o' && "setsockopt"@[8] == 'p' && "setsockopt"@[9] == 't',
        "shutdown"@.len() == 8,
        "shutdown"@[0] == 's' && "shutdown"@[1] == 'h' && "shutdown"@[2] == 'u' && "shutdown"@[3] == 't' && "shutdown"@[4] == 'd' && "shutdown"@[5] == 'o' && "shutdown"@[6] == 'w' && "shutdown"@[7] == 'n',
        "clone"@.len() == 5,
        "clone"@[0] == 'c' && "clone"@[1] == 'l' && "clone"@[2] == 'o' && "clone"@[3] == 'n' && "clone"@[4] == 'e',
        "clone3"@.len() == 6,
        "clone3"@[0] == 'c' && "clone3"@[1] == 'l' && "clone3"@[2] == 'o' && "clone3"@[3] == 'n' && "clone3"@[4] == 'e' && "clone3"@[5] == '3',
        "fork"@.len() == 4,
        "fork"@[0] == 'f' && "fork"@[1] == 'o' && "fork"@[2] == 'r' && "fork"@[3] == 'k',
        "vfork"@.len() == 5,
        "vfork"@[0] == 'v' && "vfork"@[1] == 'f' && "vfork"@[2] == 'o' && "vfork"@[3] == 'r' && "vfork"@[4] == 'k',
        "execve"@.len() == 6,
        "execve"@[0] == 'e' && "execve"@[1] == 'x' && "execve"@[2] == 'e' && "execve"@[3] == 'c' && "execve"@[4] == 'v' && "execve"@[5] == 'e',
        "execveat"@.len() == 8,
        "execveat"@[0] == 'e' && "execveat"@[1] == 'x' && "execveat"@[2] == 'e' && "execveat"@[3] == 'c' && "execveat"@[4] == 'v' && "execveat"@[5] == 'e' && "execveat"@[6] == 'a' && "execveat"@[7] == 't',
        "exit"@.len() == 4,
        "exit"@[0] == 'e' && "exit"@[1] == 'x' && "exit"@[2] == 'i' && "exit"@[3] == 't',
        "exit_group"@.len() == 10,
        "exit_group"@[0] == 'e' && "exit_group"@[1] == 'x' && "exit_group"@[2] == 'i' && "exit_group"@[3] == 't' && "exit_group"@[4] == '_' && "exit_group"@[5] == 'g' && "exit_group"@[6] == 'r' && "exit_group"@[7] == 'o' && "exit_group"@[8] == 'u' && "exit_group"@[9] == 'p',
        "wait4"@.len() == 5,
        "wait4"@[0] == 'w' && "wait4"@[1] == 'a' && "wait4"@[2] == 'i' && "wait4"@[3] == 't' && "wait4"@[4] == '4',
        "waitid"@.len() == 6,
        "waitid"@[0] == 'w' && "waitid"@[1] == 'a' && "waitid"@[2] == 'i' && "waitid"@[3] == 't' && "waitid"@[4] == 'i' && "waitid"@[5] == 'd',
        "sched_yield"@.len() == 11,
        "sched_yield"@[0] == 's' && "sched_yield"@[1] == 'c' && "sched_yield"@[2] == 'h' && "sched_yield"@[3] == 'e' && "sched_yield"@[4] == 'd' && "sched_yield"@[5] == '_' && "sched_yield"@[6] == 'y' && "sched_yield"@[7] == 'i' && "sched_yield"@[8] == 'e' && "sched_yield"@[9] == 'l' && "sched_yield"@[10] == 'd',
        "sched_getaffinity"@.len() == 17,
        "sched_getaffinity"@[0] == 's' && "sched_getaffinity"@[1] == 'c' && "sched_getaffinity"@[2] == 'h' && "sched_getaffinity"@[3] == 'e' && "sched_getaffinity"@[4] == 'd' && "sched_getaffinity"@[5] == '_' && "sched_getaffinity"@[6] == 'g' && "sched_getaffinity"@[7] == 'e' && "sched_getaffinity"@[8] == 't' && "sched_getaffinity"@[9] == 'a' && "sched_getaffinity"@[10] == 'f' && "sched_getaffinity"@[11] == 'f' && "sched_getaffinity"@[12] == 'i' && "sched_getaffinity"@[13] == 'n' && "sched_getaffinity"@[14] == 'i' && "sched_getaffinity"@[15] == 't' && "sched_getaffinity"@[16] == 'y',
        "sched_setaffinity"@.len() == 17,
        "sched_setaffinity"@[0] == 's' && "sched_setaffinity"@[1] == 'c' && "sched_setaffinity"@[2] == 'h' && "sched_setaffinity"@[3] == 'e' && "sched_setaffinity"@[4] == 'd' && "sched_setaffinity"@[5] == '_' && "sched_setaffinity"@[6] == 's' && "sched_setaffinity"@[7] == 'e' && "sched_setaffinity"@[8] == 't' && "sched_setaffinity"@[9] == 'a' && "sched_setaffinity"@[10] == 'f' && "sched_setaffinity"@[11] == 'f' && "sched_setaffinity"@[12] == 'i' && "sched_setaffinity"@[13] == 'n' && "sched_setaffinity"@[14] == 'i' && "sched_setaffinity"@[15] == 't' && "sched_setaffinity"@[16] == 'y',
        "gettid"@.len() == 6,
        "gettid"@[0] == 'g' && "gettid"@[1] == 'e' && "gettid"@[2] == 't' && "gettid"@[3] == 't' && "gettid"@[4] == 'i' && "gettid"@[5] == 'd',
        "getpid"@.len() == 6,
        "getpid"@[0] == 'g' && "getpid"@[1] == 'e' && "getpid"@[2] == 't' && "getpid"@[3] == 'p' && "getpid"@[4] == 'i' && "getpid"@[5] == 'd',
        "getppid"@.len() == 7,
        "getppid"@[0] == 'g' && "getppid"@[1] == 'e' && "getppid"@[2] == 't' && "getppid"@[3] == 'p' && "getppid"@[4] == 'p' && "getppid"@[5] == 'i' && "getppid"@[6] == 'd',
        "set_tid_address"@.len() == 15,
        "set_tid_address"@[0] == 's' && "set_tid_address"@[1] == 'e' && "set_tid_address"@[2] == 't' && "set_tid_address"@[3] == '_' && "set_tid_address"@[4] == 't' && "set_tid_address"@[5] == 'i' && "set_tid_address"@[6] == 'd' && "set_tid_address"@[7] == '_' && "set_tid_address"@[8] == 'a' && "set_tid_address"@[9] == 'd' && "set_tid_address"@[10] == 'd' && "set_tid_address"@[11] == 'r' && "set_tid_address"@[12] == 'e' && "set_tid_address"@[13] == 's' && "set_tid_address"@[14] == 's',
        "set_robust_list"@.len() == 15,
        "set_robust_list"@[0] == 's' && "set_robust_list"@[1] == 'e' && "set_robust_list"@[2] == 't' && "set_robust_list"@[3] == '_' && "set_robust_list"@[4] == 'r' && "set_robust_list"@[5] == 'o' && "set_robust_list"@[6] == 'b' && "set_robust_list"@[7] == 'u' && "set_robust_list"@[8] == 's' && "set_robust_list"@[9] == 't' && "set_robust_list"@[10] == '_' && "set_robust_list"@[11] == 'l' && "set_robust_list"@[12] == 'i' && "set_robust_list"@[13] == 's' && "set_robust_list"@[14] == 't',
        "prctl"@.len() == 5,
        "prctl"@[0] == 'p' && "prctl"@[1] == 'r' && "prctl"@[2] == 'c' && "prctl"@[3] == 't' && "prctl"@[4] == 'l',
        "mmap"@.len() == 4,
        "mmap"@[0] == 'm' && "mmap"@[1] == 'm' && "mmap"@[2] == 'a' && "mmap"@[3] == 'p',
        "munmap"@.len() == 6,
        "munmap"@[0] == 'm' && "munmap"@[1] == 'u' && "munmap"@[2] == 'n' && "munmap"@[3] == 'm' && "munmap"@[4] == 'a' && "munmap"@[5] == 'p',
        "mprotect"@.len() == 8,
        "mprotect"@[0] == 'm' && "mprotect"@[1] == 'p' && "mprotect"@[2] == 'r' && "mprotect"@[3] == 'o' && "mprotect"@[4] == 't' && "mprotect"@[5] == 'e' && "mprotect"@[6] == 'c' && "mprotect"@[7] == 't',
        "brk"@.len() == 3,
        "brk"@[0] == 'b' && "brk"@[1] == 'r' && "brk"@[2] == 'k',
        "madvise"@.len() == 7,
        "madvise"@[0] == 'm' && "madvise"@[1] == 'a' && "madvise"@[2] == 'd' && "madvise"@[3] == 'v' && "madvise"@[4] == 'i' && "madvise"@[5] == 's' && "madvise"@[6] == 'e',
        "mremap"@.len() == 6,
        "mremap"@[0] == 'm' && "mremap"@[1] == 'r' && "mremap"@[2] == 'e' && "mremap"@[3] == 'm' && "mremap"@[4] == 'a' && "mremap"@[5] == 'p',
        "futex"@.len() == 5,
        "futex"@[0] == 'f' && "futex"@[1] == 'u' && "futex"@[2] == 't' && "futex"@[3] == 'e' && "futex"@[4] == 'x',
        "rt_sigaction"@.len() == 12,
        "rt_sigaction"@[0] == 'r' && "rt_sigaction"@[1] == 't' && "rt_sigaction"@[2] == '_' && "rt_sigaction"@[3] == 's' && "rt_sigaction"@[4] == 'i' && "rt_sigaction"@[5] == 'g' && "rt_sigaction"@[6] == 'a' && "rt_sigaction"@[7] == 'c' && "rt_sigaction"@[8] == 't' && "rt_sigaction"@[9] == 'i' && "rt_sigaction"@[10] == 'o' && "rt_sigaction"@[11] == 'n',
        "rt_sigprocmask"@.len() == 14,
        "rt_sigprocmask"@[0] == 'r' && "rt_sigprocmask"@[1] == 't' && "rt_sigprocmask"@[2] == '_' && "rt_sigprocmask"@[3] == 's' && "rt_sigprocmask"@[4] == 'i' && "rt_sigprocmask"@[5] == 'g' && "rt_sigprocmask"@[6] == 'p' && "rt_sigprocmask"@[7] == 'r' && "rt_sigprocmask"@[8] == 'o' && "rt_sigprocmask"@[9] == 'c' && "rt_sigprocmask"@[10] == 'm' && "rt_sigprocmask"@[11] == 'a' && "rt_sigprocmask"@[12] == 's' && "rt_sigprocmask"@[13] == 'k',
        "rt_sigreturn"@.len() == 12,
        "rt_sigreturn"@[0] == 'r' && "rt_sigreturn"@[1] == 't' && "rt_sigreturn"@[2] == '_' && "rt_sigreturn"@[3] == 's' && "rt_sigreturn"@[4] == 'i' && "rt_sigreturn"@[5] == 'g' && "rt_sigreturn"@[6] == 'r' && "rt_sigreturn"@[7] == 'e' && "rt_sigreturn"@[8] == 't' && "rt_sigreturn"@[9] == 'u' && "rt_sigreturn"@[10] == 'r' && "rt_sigreturn"@[11] == 'n',
        "rt_sigsuspend"@.len() == 13,
        "rt_sigsuspend"@[0] == 'r' && "rt_sigsuspend"@[1] == 't' && "rt_sigsuspend"@[2] == '_' && "rt_sigsuspend"@[3] == 's' && "rt_sigsuspend"@[4] == 'i' && "rt_sigsuspend"@[5] == 'g' && "rt_sigsuspend"@[6] == 's' && "rt_sigsuspend"@[7] == 'u' && "rt_sigsuspend"@[8] == 's' && "rt_sigsuspend"@[9] == 'p' && "rt_sigsuspend"@[10] == 'e' && "rt_sigsuspend"@[11] == 'n' && "rt_sigsuspend"@[12] == 'd',
        "tgkill"@.len() == 6,
        "tgkill"@[0] == 't' && "tgkill"@[1] == 'g' && "tgkill"@[2] == 'k' && "tgkill"@[3] == 'i' && "tgkill"@[4] == 'l' && "tgkill"@[5] == 'l',
{
    reveal_strlit("read");
    reveal_strlit("pread64");
    reveal_strlit("readv");
    reveal_strlit("preadv");
    reveal_strlit("preadv2");
    reveal_strlit("write");
    reveal_strlit("pwrite64");
    reveal_strlit("writev");
    reveal_strlit("pwritev");
    reveal_strlit("pwritev2");
    reveal_strlit("openat");
    reveal_strlit("openat2");
    reveal_strlit("open");
    reveal_strlit("creat");
    reveal_strlit("close");
    reveal_strlit("close_range");
    reveal_strlit("fstat");
    reveal_strlit("newfstatat");
    reveal_strlit("statx");
    reveal_strlit("stat");
    reveal_strlit("lstat");
    reveal_strlit("lseek");
    reveal_strlit("getdents64");
    reveal_strlit("ioctl");
    reveal_strlit("fsync");
    reveal_strlit("fdatasync");
    reveal_strlit("socket");
    reveal_strlit("connect");
    reveal_strlit("accept");
    reveal_strlit("accept4");
    reveal_strlit("sendto");
    reveal_strlit("sendmsg");
    reveal_strlit("sendmmsg");
    reveal_strlit("recvfrom");
    reveal_strlit("recvmsg");
    reveal_strlit("recvmmsg");
    reveal_strlit("bind");
    reveal_strlit("listen");
    reveal_strlit("epoll_wait");
    reveal_strlit("epoll_pwait");
    reveal_strlit("epoll_pwait2");
    reveal_strlit("epoll_ctl");
    reveal_strlit("epoll_create1");
    reveal_strlit("poll");
    reveal_strlit("ppoll");
    reveal_strlit("select");
    reveal_strlit("pselect6");
    reveal_strlit("getsockopt");
    reveal_strlit("setsockopt");
    reveal_strlit("shutdown");
    reveal_strlit("clone");
    reveal_strlit("clone3");
    reveal_strlit("fork");
    reveal_strlit("vfork");
    reveal_strlit("execve");
    reveal_strlit("execveat");
    reveal_strlit("exit");
    reveal_strlit("exit_group");
    reveal_strlit("wait4");
    reveal_strlit("waitid");
    reveal_strlit("sched_yield");
    reveal_strlit("sched_getaffinity");
    reveal_strlit("sched_setaffinity");
    reveal_strlit("gettid");
    reveal_strlit("getpid");
    reveal_strlit("getppid");
    reveal_strlit("set_tid_address");
    reveal_strlit("set_robust_list");
    reveal_strlit("prctl");
    reveal_strlit("mmap");
    reveal_strlit("munmap");
    reveal_strlit("mprotect");
    reveal_strlit("brk");
    reveal_strlit("madvise");
    reveal_strlit("mremap");
    reveal_strlit("futex");
    reveal_strlit("rt_sigaction");
    reveal_strlit("rt_sigprocmask");
    reveal_strlit("rt_sigreturn");
    reveal_strlit("rt_sigsuspend");
    reveal_strlit("tgkill");
}

/// The syscalls about files, and what each is for.
pub proof fn file_calls_are_explained()
    ensures
        classification("read"@) == ("File I/O"@, "reading from a file descriptor"@),
        classification("pread64"@) == ("File I/O"@, "reading from a file descriptor"@),
        classification("readv"@) == ("File I/O"@, "reading from a file descriptor"@),
        classification("preadv"@) == ("File I/O"@, "reading from a file descriptor"@),
        classification("preadv2"@) == ("File I/O"@, "reading from a file descriptor"@),
        classification("write"@) == ("File I/O"@, "writing to a file descriptor"@),
        classification("pwrite64"@) == ("File I/O"@, "writing to a file descriptor"@),
        classification("writev"@) == ("File I/O"@, "writing to a file descriptor"@),
        classification("pwritev"@) == ("File I/O"@, "writing to a file descriptor"@),
        classification("pwritev2"@) == ("File I/O"@, "writing to a file descriptor"@),
        classification("openat"@) == ("File I/O"@, "opening a file"@),
        classification("openat2"@) == ("File I/O"@, "opening a file"@),
        classification("open"@) == ("File I/O"@, "opening a file"@),
        classification("creat"@) == ("File I/O"@, "opening a file"@),
        classification("close"@) == ("File I/O"@, "closing a file descriptor"@),
        classification("close_range"@) == ("File I/O"@, "closing a file descriptor"@),
        classification("fstat"@) == ("File I/O"@, "checking file metadata"@),
        classification("newfstatat"@) == ("File I/O"@, "checking file metadata"@),
        classification("statx"@) == ("File I/O"@, "checking file metadata"@),
        classification("stat"@) == ("File I/O"@, "checking file metadata"@),
        classification("lstat"@) == ("File I/O"@, "checking file metadata"@),
        classification("lseek"@) == ("File I/O"@, "moving the read/write position in a file"@),
        classification("getdents64"@) == ("File I/O"@, "reading directory entries"@),
        classification("ioctl"@) == ("File I/O"@, "device-specific control operation"@),
        classification("fsync"@) == ("File I/O"@, "flushing file data to disk"@),
        classification("fdatasync"@) == ("File I/O"@, "flushing file data to disk"@),
{
    lemma_spelling();
}

/// The syscalls about the network, and what each is for.
pub proof fn network_calls_are_explained()
    ensures
        classification("socket"@) == ("Networking"@, "creating a network socket"@),
        classification("connect"@) == ("Networking"@, "connecting to a remote address"@),
        classification("accept"@) == ("Networking"@, "accepting an incoming connection"@),
        classification("accept4"@) == ("Networking"@, "accepting an incoming connection"@),
        classification("sendto"@) == ("Networking"@, "sending data on a socket"@),
        classification("sendmsg"@) == ("Networking"@, "sending data on a socket"@),
        classification("sendmmsg"@) == ("Networking"@, "sending data on a socket"@),
        classification("recvfrom"@) == ("Networking"@, "receiving data on a socket"@),
        classification("recvmsg"@) == ("Networking"@, "receiving data on a socket"@),
        classification("recvmmsg"@) == ("Networking"@, "receiving data on a socket"@),
        classification("bind"@) == ("Networking"@, "binding a socket to an address"@),
        classification("listen"@) == ("Networking"@, "listening for incoming connections"@),
        classification("epoll_wait"@) == ("Networking"@, "waiting on / managing I/O readiness (often sockets)"@),
        classification("epoll_pwait"@) == ("Networking"@, "waiting on / managing I/O readiness (often sockets)"@),
        classification("epoll_pwait2"@) == ("Networking"@, "waiting on / managing I/O readiness (often sockets)"@),
        classification("epoll_ctl"@) == ("Networking"@, "waiting on / managing I/O readiness (often sockets)"@),
        classification("epoll_create1"@) == ("Networking"@, "waiting on / managing I/O readiness (often sockets)"@),
        classification("poll"@) == ("Networking"@, "waiting on multiple file descriptors for I/O readiness"@),
        classification("ppoll"@) == ("Networking"@, "waiting on multiple file descriptors for I/O readiness"@),
        classification("select"@) == ("Networking"@, "waiting on multiple file descriptors for I/O readiness"@),
        classification("pselect6"@) == ("Networking"@, "waiting on multiple file descriptors for I/O readiness"@),
        classification("getsockopt"@) == ("Networking"@, "reading/setting socket options"@),
        classification("setsockopt"@) == ("Networking"@, "reading/setting socket options"@),
        classification("shutdown"@) == ("Networking"@, "shutting down part of a socket connection"@),
{
    lemma_spelling();
}

/// The syscalls about processes and threads, and what each is for.
pub proof fn process_calls_are_explained()
    ensures
        classification("clone"@) == ("Process/Thread"@, "creating a new process/thread"@),
        classification("clone3"@) == ("Process/Thread"@, "creating a new process/thread"@),
        classification("fork"@) == ("Process/Thread"@, "creating a new process/thread"@),
        classification("vfork"@) == ("Process/Thread"@, "creating a new process/thread"@),
        classification("execve"@) == ("Process/Thread"@, "replacing the process image (running a new program)"@),
        classification("execveat"@) == ("Process/Thread"@, "replacing the process image (running a new program)"@),
        classification("exit"@) == ("Process/Thread"@, "terminating the process/thread"@),
        classification("exit_group"@) == ("Process/Thread"@, "terminating the process/thread"@),
        classification("wait4"@) == ("Process/Thread"@, "waiting for a child process to change state"@),
        classification("waitid"@) == ("Process/Thread"@, "waiting for a child process to change state"@),
        classification("sched_yield"@) == ("Process/Thread"@, "yielding the CPU to another thread"@),
        classification("sched_getaffinity"@) == ("Process/Thread"@, "reading/setting which CPUs this thread may run on"@),
        classification("sched_setaffinity"@) == ("Process/Thread"@, "reading/setting which CPUs this thread may run on"@),
        classification("gettid"@) == ("Process/Thread"@, "reading a process/thread ID"@),
        classification("getpid"@) == ("Process/Thread"@, "reading a process/thread ID"@),
        classification("getppid"@) == ("Process/Thread"@, "reading a process/thread ID"@),
        classification("set_tid_address"@) == ("Process/Thread"@, "thread/process bookkeeping for the kernel"@),
        classification("set_robust_list"@) == ("Process/Thread"@, "thread/process bookkeeping for the kernel"@),
        classification("prctl"@) == ("Process/Thread"@, "thread/process bookkeeping for the kernel"@),
{
    lemma_spelling();
}

/// The syscalls about memory, and what each is for.
pub proof fn memory_calls_are_explained()
    ensures
        classification("mmap"@) == ("Memory"@, "mapping memory (file-backed or anonymous)"@),
        classification("munmap"@) == ("Memory"@, "unmapping memory"@),
        classification("mprotect"@) == ("Memory"@, "changing memory protection flags"@),
        classification("brk"@) == ("Memory"@, "adjusting the heap break"@),
        classification("madvise"@) == ("Memory"@, "giving the kernel a memory usage hint"@),
        classification("mremap"@) == ("Memory"@, "resizing/moving an existing memory mapping"@),
{
    lemma_spelling();
}

/// The syscalls about synchronization, and what each is for.
pub proof fn synchronization_calls_are_explained()
    ensures
        classification("futex"@) == ("Synchronization"@, "waiting on a lock"@),
        classification("rt_sigaction"@) == ("Synchronization"@, "signal handling setup or delivery"@),
        classification("rt_sigprocmask"@) == ("Synchronization"@, "signal handling setup or delivery"@),
        classification("rt_sigreturn"@) == ("Synchronization"@, "signal handling setup or delivery"@),
        classification("rt_sigsuspend"@) == ("Synchronization"@, "signal handling setup or delivery"@),
        classification("tgkill"@) == ("Synchronization"@, "signal handling setup or delivery"@),
{
    lemma_spelling();
}

/// Any other syscall is shown without an explanation.
pub proof fn other_calls_are_left_unexplained(name: Seq<char>)
    requires
        name != "read"@,
        name != "pread64"@,
        name != "readv"@,
        name != "preadv"@,
        name != "preadv2"@,
        name != "write"@,
        name != "pwrite64"@,
        name != "writev"@,
        name != "pwritev"@,
        name != "pwritev2"@,
        name != "openat"@,
        name != "openat2"@,
        name != "open"@,
        name != "creat"@,
        name != "close"@,
        name != "close_range"@,
        name != "fstat"@,
        name != "newfstatat"@,
        name != "statx"@,
        name != "stat"@,
        name != "lstat"@,
        name != "lseek"@,
        name != "getdents64"@,
        name != "ioctl"@,
        name != "fsync"@,
        name != "fdatasync"@,
        name != "socket"@,
        name != "connect"@,
        name != "accept"@,
        name != "accept4"@,
        name != "sendto"@,
        name != "sendmsg"@,
        name != "sendmmsg"@,
        name != "recvfrom"@,
        name != "recvmsg"@,
        name != "recvmmsg"@,
        name != "bind"@,
        name != "listen"@,
        name != "epoll_wait"@,
        name != "epoll_pwait"@,
        name != "epoll_pwait2"@,
        name != "epoll_ctl"@,
        name != "epoll_create1"@,
        name != "poll"@,
        name != "ppoll"@,
        name != "select"@,
        name != "pselect6"@,
        name != "getsockopt"@,
        name != "setsockopt"@,
        name != "shutdown"@,
        name != "clone"@,
        name != "clone3"@,
        name != "fork"@,
        name != "vfork"@,
        name != "execve"@,
        name != "execveat"@,
        name != "exit"@,
        name != "exit_group"@,
        name != "wait4"@,
        name != "waitid"@,
        name != "sched_yield"@,
        name != "sched_getaffinity"@,
        name != "sched_setaffinity"@,
        name != "gettid"@,
        name != "getpid"@,
        name != "getppid"@,
        name != "set_tid_address"@,
        name != "set_robust_list"@,
        name != "prctl"@,
        name != "mmap"@,
        name != "munmap"@,
        name != "mprotect"@,
        name != "brk"@,
        name != "madvise"@,
        name != "mremap"@,
        name != "futex"@,
        name != "rt_sigaction"@,
        name != "rt_sigprocmask"@,
        name != "rt_sigreturn"@,
        name != "rt_sigsuspend"@,
        name != "tgkill"@,
    ensures
        classification(name) == ("Other"@, "uncommon syscall, no plain-language annotation yet"@),
{
}

/// A number is looked up as it is, where an address can hold it; what is shown
/// of it is its name, or that it has none, with the category and the annotation
/// of that name.
pub proof fn numbers_are_looked_up_as_they_are(nr: u64, info: SyscallInfo, name: Option<Seq<char>>)
    ensures
        nr <= usize::MAX ==> table_index(nr) == nr,
        shown_name(None) == "unknown"@,
        name matches Some(n) ==> shown_name(name) == n,
        is_info(info, name) ==> info.name@ == shown_name(name),
        is_info(info, name) ==> info.category@ == classification(info.name@).0,
        is_info(info, name) ==> info.annotation@ == classification(info.name@).1,
{
}

} // verus!
