use envfs::bytes::{parse_unsigned, split_bytes};
use envfs::{
    env_pointer, execve_envp, is_allowed, is_execve_syscall, is_open_syscall, parse_syscall_line,
    read_syscall_again, syscall_pending, Environment, SyscallTable,
};

fn x86_64_table() -> SyscallTable {
    SyscallTable { open: Some(2), openat: 257, execve: 59, execveat: 322 }
}

fn openat_only_table() -> SyscallTable {
    SyscallTable { open: None, openat: 56, execve: 221, execveat: 281 }
}

#[test]
fn split_keeps_empty_pieces() {
    let pieces = split_bytes(b"a::b:", b':');
    assert_eq!(pieces, vec![b"a".to_vec(), vec![], b"b".to_vec(), vec![]]);
    assert_eq!(split_bytes(b"", b':'), vec![Vec::<u8>::new()]);
}

#[test]
fn unsigned_numbers() {
    assert_eq!(parse_unsigned(b"59", 10), Some(59));
    assert_eq!(parse_unsigned(b"+7", 10), Some(7));
    assert_eq!(parse_unsigned(b"7ffd1a2b", 16), Some(0x7ffd1a2b));
    assert_eq!(parse_unsigned(b"FF", 16), Some(255));
    assert_eq!(parse_unsigned(b"", 10), None);
    assert_eq!(parse_unsigned(b"+", 10), None);
    assert_eq!(parse_unsigned(b"-1", 10), None);
    assert_eq!(parse_unsigned(b"12a", 10), None);
    assert_eq!(parse_unsigned(b"18446744073709551615", 10), Some(usize::MAX));
    assert_eq!(parse_unsigned(b"18446744073709551616", 10), None);
}

#[test]
fn environ_is_parsed_and_last_record_wins() {
    let env = Environment::parse_environ(b"PATH=/bin\0HOME=/root\0junk\0PATH=/opt/bin\0A=b=c\0");
    assert_eq!(env.get(b"PATH"), Some(&b"/opt/bin".to_vec()));
    assert_eq!(env.get(b"HOME"), Some(&b"/root".to_vec()));
    assert_eq!(env.get(b"A"), Some(&b"b=c".to_vec()));
    assert_eq!(env.get(b"junk"), None);
    assert_eq!(env.vars.len(), 4);
}

#[test]
fn empty_environ_is_empty() {
    let env = Environment::parse_environ(b"");
    assert!(env.vars.is_empty());
    assert!(!env.contains_key(b"PATH"));
}

#[test]
fn mem_entries_without_equals_get_empty_value() {
    let env = Environment::from_mem_entries(&vec![b"PATH=/new/bin".to_vec(), b"FLAG".to_vec()]);
    assert_eq!(env.get(b"PATH"), Some(&b"/new/bin".to_vec()));
    assert_eq!(env.get(b"FLAG"), Some(&Vec::new()));
}

#[test]
fn mem_entries_lose_their_terminator() {
    let env = Environment::from_mem_entries(&vec![b"PATH=/new/bin\0".to_vec(), b"X=1".to_vec(), b"\0".to_vec()]);
    assert_eq!(env.vars.len(), 3);
    assert_eq!(env.get(b"PATH"), Some(&b"/new/bin".to_vec()));
    assert_eq!(env.get(b"X"), Some(&b"1".to_vec()));
    assert_eq!(env.get(b""), Some(&Vec::new()));
}

#[test]
fn envp_array_ends_at_null_or_short_read() {
    assert_eq!(env_pointer(8, 0x7fff0000), Some(0x7fff0000));
    assert_eq!(env_pointer(8, 0), None);
    assert_eq!(env_pointer(3, 0x7fff0000), None);
    assert_eq!(env_pointer(4, 1), Some(1));
}

#[test]
fn syscall_line_is_parsed() {
    let line = b"59 0x55d0c0a1b2c0 0x7ffd00001000 0x7ffd00002000 0x0 0x0 0x0 0x7ffd00000ff8 0x7f00deadbeef\n";
    let args = parse_syscall_line(line).unwrap();
    assert_eq!(args.len(), 9);
    assert_eq!(args[0], 59);
    assert_eq!(args[1], 0x55d0c0a1b2c0);
    assert_eq!(args[3], 0x7ffd00002000);
    assert_eq!(args[8], 0x7f00deadbeef);
}

#[test]
fn syscall_line_errors() {
    assert_eq!(parse_syscall_line(b"running\n"), None);
    assert_eq!(parse_syscall_line(b""), None);
    assert_eq!(parse_syscall_line(b"4 0xzz"), None);
    assert_eq!(parse_syscall_line(b"4 7"), None);
    assert_eq!(parse_syscall_line(b"4  0x1"), None);
    assert_eq!(parse_syscall_line(b"-1 0x1"), None);
}

#[test]
fn syscall_reread_is_bounded() {
    assert!(read_syscall_again(1, b"running\n"));
    assert!(read_syscall_again(3, b"running\n"));
    assert!(!read_syscall_again(4, b"running\n"));
    assert!(!read_syscall_again(1, b"59 0x1\n"));
}

#[test]
fn running_line_is_pending() {
    assert!(syscall_pending(b"running\n"));
    assert!(!syscall_pending(b"running"));
    assert!(!syscall_pending(b"0 0x1\n"));
}

#[test]
fn syscalls_are_classified() {
    let t = x86_64_table();
    assert!(is_open_syscall(2, &t));
    assert!(is_open_syscall(257, &t));
    assert!(!is_open_syscall(4, &t));
    assert!(is_execve_syscall(59, &t));
    assert!(is_execve_syscall(322, &t));
    assert!(!is_execve_syscall(2, &t));
    let a = openat_only_table();
    assert!(is_open_syscall(56, &a));
    assert!(!is_open_syscall(2, &a));
}

#[test]
fn resolve_always_allows_any_call() {
    let t = x86_64_table();
    let plain = Environment::parse_environ(b"PATH=/bin\0");
    let always = Environment::parse_environ(b"PATH=/bin\0ENVFS_RESOLVE_ALWAYS=\0");
    assert!(!is_allowed(4, &t, &plain));
    assert!(is_allowed(4, &t, &always));
    assert!(is_allowed(257, &t, &plain));
    assert!(is_allowed(59, &t, &plain));
}

#[test]
fn envp_register_depends_on_call() {
    let t = x86_64_table();
    assert_eq!(execve_envp(&vec![59, 10, 20, 30, 40], &t), Some(30));
    assert_eq!(execve_envp(&vec![322, 10, 20, 30, 40, 50], &t), Some(40));
    assert_eq!(execve_envp(&vec![322, 10, 20, 30], &t), None);
    assert_eq!(execve_envp(&vec![59, 10, 20], &t), None);
    assert_eq!(execve_envp(&vec![257, 10, 20, 30, 40], &t), None);
    assert_eq!(execve_envp(&vec![], &t), None);
}
