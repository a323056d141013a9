//! Plain-language, single-target kernel observability: the logic behind the
//! `peekbeam` tool. Everything here works on plain values; talking to the
//! kernel, the terminal and the container runtimes is left to the program
//! around it.

pub mod container;
pub mod event;
pub mod failure;
pub mod file_table;
pub mod headless;
pub mod history;
pub mod mem_stats;
pub mod net_table;
pub mod order;
pub mod pod;
pub mod probe;
pub mod resolve;
pub mod round;
pub mod scan;
pub mod signals;
pub mod stats;
pub mod summary;
pub mod syscall_table;
pub mod target;
pub mod text;
pub mod tui;
pub mod wire;
