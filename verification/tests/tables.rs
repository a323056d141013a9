//! Names, annotations, addresses and paths.

use peekbeam::event::{AF_INET6, FILE_PATH_MAX};
use peekbeam::file_table::{format_path, mark_cut, truncate_middle};
use peekbeam::net_table::{format_addr, push_addr, state_annotation, state_name};
use peekbeam::syscall_table::{classify, describe, lookup};

#[test]
fn states_have_names() {
    let names = [
        "UNKNOWN", "ESTABLISHED", "SYN_SENT", "SYN_RECV", "FIN_WAIT1", "FIN_WAIT2", "TIME_WAIT",
        "CLOSE", "CLOSE_WAIT", "LAST_ACK", "LISTEN", "CLOSING", "NEW_SYN_RECV", "UNKNOWN",
    ];
    for (state, name) in names.iter().enumerate() {
        assert_eq!(state_name(state as u16), *name);
    }
    assert_eq!(state_name(u16::MAX), "UNKNOWN");
}

#[test]
fn states_are_explained_in_words() {
    assert_eq!(state_annotation(1), "connection open, actively usable");
    assert_eq!(state_annotation(4), state_annotation(5));
    assert_eq!(state_annotation(6), "connection closed, waiting to make sure the peer saw it");
    assert_eq!(state_annotation(12), "inbound SYN queued, not yet accepted");
    assert_eq!(state_annotation(0), "unrecognized TCP state");
    assert_eq!(state_annotation(13), "unrecognized TCP state");
}

fn v6(groups: [u16; 8]) -> [u8; 16] {
    let mut out = [0u8; 16];
    for i in 0..8 {
        out[2 * i] = (groups[i] >> 8) as u8;
        out[2 * i + 1] = groups[i] as u8;
    }
    out
}

#[test]
fn ipv4_addresses_are_dotted() {
    let mut addr = [0u8; 16];
    addr[..4].copy_from_slice(&[192, 168, 0, 1]);
    assert_eq!(format_addr(2, &addr), "192.168.0.1");
    assert_eq!(format_addr(0, &[255; 16]), "255.255.255.255");
    let mut out = String::from("from ");
    push_addr(&mut out, 2, &addr);
    assert_eq!(out, "from 192.168.0.1");
}

#[test]
fn ipv6_addresses_leave_the_longest_zeros_out() {
    let cases = [
        ([0, 0, 0, 0, 0, 0, 0, 0], "::"),
        ([0, 0, 0, 0, 0, 0, 0, 1], "::1"),
        ([1, 0, 0, 0, 0, 0, 0, 0], "1::"),
        ([0x2001, 0xdb8, 0, 0, 0, 0, 0, 1], "2001:db8::1"),
        ([0x2001, 0xdb8, 0, 1, 1, 1, 1, 1], "2001:db8:0:1:1:1:1:1"),
        ([0x2001, 0, 0, 1, 0, 0, 0, 1], "2001:0:0:1::1"),
        ([0x2001, 0, 0, 0, 1, 0, 0, 1], "2001::1:0:0:1"),
        ([1, 0, 0, 2, 0, 0, 3, 4], "1::2:0:0:3:4"),
        ([0xfe80, 0, 0, 0, 0xabcd, 0xef01, 0x2345, 0x6789], "fe80::abcd:ef01:2345:6789"),
        ([1, 2, 3, 4, 5, 6, 7, 8], "1:2:3:4:5:6:7:8"),
        ([0, 2, 3, 4, 5, 6, 7, 0], "0:2:3:4:5:6:7:0"),
        ([0, 0, 3, 4, 5, 6, 7, 8], "::3:4:5:6:7:8"),
        ([1, 2, 3, 4, 5, 6, 0, 0], "1:2:3:4:5:6::"),
    ];
    for (groups, text) in cases {
        assert_eq!(format_addr(AF_INET6, &v6(groups)), text);
    }
}

#[test]
fn mapped_addresses_show_their_ipv4_part() {
    assert_eq!(format_addr(AF_INET6, &v6([0, 0, 0, 0, 0, 0xffff, 0xc0a8, 1])), "::ffff:192.168.0.1");
    assert_eq!(format_addr(AF_INET6, &v6([0, 0, 0, 0, 0, 0, 0xc0a8, 1])), "::c0a8:1");
    assert_eq!(format_addr(AF_INET6, &v6([0, 0, 0, 0, 1, 0xffff, 0xc0a8, 1])), "::1:ffff:c0a8:1");
}

fn read_v4(text: &str) -> Vec<u8> {
    text.split('.').map(|part| part.parse().unwrap()).collect()
}

fn read_groups(text: &str) -> Vec<u16> {
    if text.is_empty() {
        return Vec::new();
    }
    text.split(':').map(|part| u16::from_str_radix(part, 16).unwrap()).collect()
}

fn read_v6(text: &str) -> [u8; 16] {
    if text.contains('.') {
        let mut out = v6([0, 0, 0, 0, 0, 0xffff, 0, 0]);
        out[12..].copy_from_slice(&read_v4(text.strip_prefix("::ffff:").unwrap()));
        return out;
    }
    let mut groups = [0u16; 8];
    match text.split_once("::") {
        Some((head, tail)) => {
            let (head, tail) = (read_groups(head), read_groups(tail));
            groups[..head.len()].copy_from_slice(&head);
            groups[8 - tail.len()..].copy_from_slice(&tail);
        }
        None => groups.copy_from_slice(&read_groups(text)),
    }
    v6(groups)
}

#[test]
fn addresses_can_be_read_back() {
    let mut seed: u64 = 3;
    for round in 0..4000u32 {
        let mut groups = [0u16; 8];
        for g in groups.iter_mut() {
            seed = seed.wrapping_mul(6364136223846793005).wrapping_add(1442695040888963407);
            *g = match (seed >> 60) % 4 {
                0 | 1 => 0,
                2 => (seed >> 40) as u16 & 0xf,
                _ => (seed >> 40) as u16,
            };
        }
        if round % 7 == 0 {
            groups[..6].copy_from_slice(&[0, 0, 0, 0, 0, 0xffff]);
        }
        let addr = v6(groups);
        let text = format_addr(AF_INET6, &addr);
        assert_eq!(read_v6(&text), addr);
        let text = format_addr(2, &addr);
        assert_eq!(read_v4(&text), addr[..4]);
    }
}

#[test]
fn bytes_that_are_not_shown_have_no_effect() {
    let mut a = [7u8; 16];
    let b = [7u8; 16];
    a[4..].copy_from_slice(&[9; 12]);
    assert_eq!(format_addr(2, &a), format_addr(2, &b));
    assert_ne!(format_addr(AF_INET6, &a), format_addr(AF_INET6, &b));
}

#[test]
fn paths_are_read_up_to_their_length() {
    assert_eq!(format_path(b"/etc/passwd\0\0\0", 11), "/etc/passwd");
    assert_eq!(format_path(b"/etc", 100), "/etc");
    assert_eq!(format_path(b"/etc", 0), "");
    assert_eq!(format_path("/tmp/größe".as_bytes(), 12), "/tmp/größe");
}

#[test]
fn bytes_that_are_no_text_are_replaced() {
    assert_eq!(format_path(b"/a\xff/b", 5), "/a\u{fffd}/b");
    assert_eq!(format_path("/é".as_bytes(), 2), "/\u{fffd}");
}

#[test]
fn paths_that_fill_the_record_are_marked() {
    let path = [b'x'; FILE_PATH_MAX];
    let text = format_path(&path, FILE_PATH_MAX as u16);
    assert_eq!(text.chars().count(), FILE_PATH_MAX + 1);
    assert!(text.ends_with("x…"));
    assert!(!format_path(&path, FILE_PATH_MAX as u16 - 1).ends_with('…'));
    assert_eq!(format_path(b"/a", u16::MAX), "/a…");
    assert_eq!(mark_cut("/a".to_string(), 3), "/a");
}

#[test]
fn long_paths_lose_their_middle() {
    assert_eq!(truncate_middle("/usr/lib/x86_64/libc.so.6", 11), "/usr/….so.6");
    assert_eq!(truncate_middle("abcdefgh", 5), "ab…gh");
    assert_eq!(truncate_middle("abcdefgh", 6), "ab…fgh");
    assert_eq!(truncate_middle("abcdefgh", 8), "abcdefgh");
    assert_eq!(truncate_middle("äöüäöüäöü", 5), "äö…öü");
}

#[test]
fn paths_are_not_shortened_below_five() {
    assert_eq!(truncate_middle("abcdefgh", 4), "abcdefgh");
    assert_eq!(truncate_middle("abcdefgh", 0), "abcdefgh");
}

#[test]
fn truncated_paths_fit_and_keep_their_end() {
    let path = "/var/lib/containers/storage/overlay/layer/diff/usr/share/doc/readme.txt";
    for max in 5..80 {
        let cut = truncate_middle(path, max);
        assert!(cut.chars().count() <= max);
        let kept = if path.len() <= max { path.len() } else { max / 2 };
        assert!(cut.ends_with(&path[path.len() - kept..]));
        assert_eq!(truncate_middle(&cut, max), cut);
    }
}

#[test]
fn syscalls_are_looked_up_by_number() {
    let nr = syscalls::Sysno::openat as u64;
    let info = lookup(nr);
    assert_eq!((info.name, info.category, info.annotation), ("openat", "File I/O", "opening a file"));
    for nr in 0..500u64 {
        let expected = match syscalls::Sysno::new(nr as usize) {
            Some(s) => s.name(),
            None => "unknown",
        };
        assert_eq!(lookup(nr).name, expected);
    }
}

#[test]
fn unknown_numbers_are_called_unknown() {
    let info = lookup(u64::MAX);
    assert_eq!(info.name, "unknown");
    assert_eq!(info.category, "Other");
    assert_eq!(info.annotation, "uncommon syscall, no plain-language annotation yet");
    assert_eq!(describe(None).name, "unknown");
}

#[test]
fn syscalls_fall_into_plain_categories() {
    assert_eq!(classify("read"), ("File I/O", "reading from a file descriptor"));
    assert_eq!(classify("pwritev2"), ("File I/O", "writing to a file descriptor"));
    assert_eq!(classify("sendmsg"), ("Networking", "sending data on a socket"));
    assert_eq!(classify("futex"), ("Synchronization", "waiting on a lock"));
    assert_eq!(classify("mmap").0, "Memory");
    assert_eq!(classify("clone").0, "Process/Thread");
    assert_eq!(classify("bpf"), ("Other", "uncommon syscall, no plain-language annotation yet"));
    assert_eq!(describe(Some("futex")).category, "Synchronization");
}
