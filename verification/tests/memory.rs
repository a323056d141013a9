//! Reading memory figures.

use peekbeam::mem_stats::{
    choose_report, controller_report, process_report, read, read_faults, read_pids, read_status,
    sum_faults, FaultCounts, MemReport, MemStats, ProcessMemory,
};
use peekbeam::scan::NumberError;

#[test]
fn controller_files_are_read() {
    let stat = "anon 100\nfile 200\nkernel 5\nactive_anon 60\ninactive_anon 40\n";
    assert_eq!(
        read("4096\n", stat),
        Ok(MemStats {
            current_bytes: 4096,
            anon_bytes: 100,
            file_bytes: 200,
            active_anon_bytes: 60,
            inactive_anon_bytes: 40,
        })
    );
}

#[test]
fn lines_that_cannot_be_read_are_passed_over() {
    let stat = "anon\nfile x\nfile 7\n\nactive_anon -1\ninactive_anon 3 4\nanon 1\nanon 2\n";
    assert_eq!(
        read("0", stat),
        Ok(MemStats {
            current_bytes: 0,
            anon_bytes: 2,
            file_bytes: 7,
            active_anon_bytes: 0,
            inactive_anon_bytes: 3,
        })
    );
    assert_eq!(read("0", ""), Ok(MemStats::default()));
}

#[test]
fn the_current_size_must_be_a_number() {
    assert_eq!(read("max\n", ""), Err(NumberError::InvalidDigit));
    assert_eq!(read("\n", ""), Err(NumberError::Empty));
    assert_eq!(read("18446744073709551616", ""), Err(NumberError::TooLarge));
}

#[test]
fn controllers_report_what_they_read() {
    let stats = MemStats {
        current_bytes: 1,
        anon_bytes: 2,
        file_bytes: 3,
        active_anon_bytes: 4,
        inactive_anon_bytes: 5,
    };
    assert!(matches!(
        controller_report(stats),
        MemReport::Cgroup {
            current_bytes: 1,
            anon_bytes: 2,
            file_bytes: 3,
            active_anon_bytes: 4,
            inactive_anon_bytes: 5,
        }
    ));
}

#[test]
fn status_files_count_in_kibibytes() {
    let status = "Name:\tx\nVmRSS:\t    12 kB\nRssAnon:\t 8 kB\nRssFile:\t 3 kB\nRssShmem:\t 1 kB\n";
    assert_eq!(
        read_status(status),
        ProcessMemory { rss_bytes: 12288, anon_bytes: 8192, file_bytes: 3072, shmem_bytes: 1024 }
    );
    assert_eq!(read_status("").rss_bytes, 0);
}

#[test]
fn processes_are_added_up() {
    assert!(process_report(&vec![]).is_none());
    let one = ProcessMemory { rss_bytes: 10, anon_bytes: 5, file_bytes: 4, shmem_bytes: 1 };
    let huge = ProcessMemory { rss_bytes: u64::MAX, anon_bytes: 1, file_bytes: 1, shmem_bytes: 1 };
    assert!(matches!(
        process_report(&vec![one, one, huge]),
        Some(MemReport::Process {
            rss_bytes: u64::MAX,
            anon_bytes: 11,
            file_bytes: 9,
            shmem_bytes: 3,
            num_processes: 3,
        })
    ));
}

#[test]
fn faults_are_read_behind_the_program_name() {
    let stat = "42 (a) b) c) S 1 2 3 4 5 6 700 8 900 10 11\n";
    assert_eq!(read_faults(stat), Some(FaultCounts { min_flt: 700, maj_flt: 900 }));
    assert_eq!(read_faults("42 (x) S 1 2 3 4 5 6 7 8"), None);
    assert_eq!(read_faults("42 (x) S 1 2 3 4 5 6 x 8 9"), None);
    assert_eq!(read_faults(""), None);
}

#[test]
fn faults_are_added_up() {
    assert_eq!(sum_faults(&vec![]), None);
    let a = FaultCounts { min_flt: 3, maj_flt: 1 };
    let b = FaultCounts { min_flt: u64::MAX, maj_flt: 2 };
    assert_eq!(sum_faults(&vec![a, b]), Some(FaultCounts { min_flt: u64::MAX, maj_flt: 3 }));
}

#[test]
fn the_controller_comes_before_the_processes() {
    let one = ProcessMemory { rss_bytes: 10, anon_bytes: 5, file_bytes: 4, shmem_bytes: 1 };
    assert!(matches!(
        choose_report(Some(MemStats::default()), &vec![one]),
        Some(MemReport::Cgroup { current_bytes: 0, .. })
    ));
    assert!(matches!(
        choose_report(None, &vec![one]),
        Some(MemReport::Process { rss_bytes: 10, num_processes: 1, .. })
    ));
    assert!(choose_report(None, &vec![]).is_none());
}

#[test]
fn listed_processes_are_read() {
    assert_eq!(read_pids("1\n22\n\nx\n 333 \n4294967296\n"), vec![1, 22, 333]);
    assert!(read_pids("").is_empty());
}
