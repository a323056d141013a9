# Peekbeam

A lightweight, single-target eBPF observability tool for Linux. Point it at a
process, a container or a pod and see what it does at the kernel level:
syscalls, TCP connections, file access and memory.

## 1. What it shows

- **Syscalls**: how often each was called, the time spent in it, and in plain
  words what it is for.
- **Network**: the target's TCP connections, their state and their retransmits.
- **Memory**: the cgroup memory controller's figures, or those of the processes;
  kernel allocations; page faults.
- **Files**: what is and was open, with the bytes read and written.

## 2. Layout

- `src/` is the library, written in Verus: what the tool decides and computes, with
  contracts that are proved. Of the shutdown flag, which a signal handler sets, it
  is proved that the answer is read from it, and what follows from each answer;
  what the flag holds is not modelled.
  - `event`, `wire`: the records that the probes write, and their bytes.
  - `probe`: what the kernel-side probes decide.
  - `stats`, `history`: the tables that events are folded into, and what they tell
    of all the events together.
  - `container`, `pod`, `resolve`, `target`, `failure`: from an argument to the
    thing that is traced, and what is said when there is none.
  - `mem_stats`, `net_table`, `file_table`, `syscall_table`: what is read and
    shown of memory, connections, files and syscalls.
  - `summary`, `tui`, `headless`, `signals`: what is put out, and when.
  - `text`, `scan`, `round`, `order`: text, numbers and rankings.
- `tests/` runs the library on concrete values.
- `app/` is the program around it: arguments, the kernel, the terminal, JSON.

Three things are believed without proof: that the names in the `syscalls` crate's
table depend on the number alone, and of the standard library how it decodes
bytes that may not be valid UTF-8 and how it writes text in quotes.

## 3. Running it

    peekbeam --pid <PID>
    peekbeam --container <ID or name>
    peekbeam --pod <name> -n <namespace>

It needs root, or `CAP_BPF` and `CAP_PERFMON`. Containers and pods need the
unified cgroup v2 hierarchy. `--duration <seconds>` prints one summary at the end
of a fixed window; `--json` makes the output structured, and without `--duration`
streams one line per `--refresh-ms`.

### 3.1 Usage modes

A kernel is shared by everything on its node, so a running instance sees its own
node only.

- **Mode 1**: log in to the node that the target runs on, and run the tool there.
- **Mode 2**: run it from a container image with `kubectl debug node/<node>`.
