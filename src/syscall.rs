//! Classification of the system call that a requester is blocked in.

use vstd::prelude::*;

use crate::bytes::{
    bytes_eq, parse_unsigned, split_at_byte, split_bytes, trim_end, trimmed_len, unsigned_value,
    views, SPACE,
};
use crate::env::{env_lookup, Environment};

verus! {

/// The numbers of the system calls that matter for a resolution, as the
/// running architecture defines them. `open` is absent on architectures
/// that only know `openat`.
#[derive(Clone, Copy, Debug, PartialEq, Eq)]
pub struct SyscallTable {
    pub open: Option<usize>,
    pub openat: usize,
    pub execve: usize,
    pub execveat: usize,
}

impl SyscallTable {
    pub open spec fn is_open(&self, n: usize) -> bool {
        n == self.openat || self.open == Some(n)
    }

    pub open spec fn is_execve(&self, n: usize) -> bool {
        n == self.execve || n == self.execveat
    }
}

/// True iff `num` opens a file: `openat`, or `open` where it exists.
pub fn is_open_syscall(num: usize, table: &SyscallTable) -> (r: bool)
    ensures
        r == table.is_open(num),
{
    match table.open {
        Some(open) => num == open || num == table.openat,
        None => num == table.openat,
    }
}

/// True iff `num` is `execve` or `execveat`.
pub fn is_execve_syscall(num: usize, table: &SyscallTable) -> (r: bool)
    ensures
        r == table.is_execve(num),
{
    num == table.execve || num == table.execveat
}

/// `ENVFS_RESOLVE_ALWAYS`: a requester whose environment defines it, with
/// any value, has every lookup resolved whatever its system call.
pub open spec fn resolve_always_key() -> Seq<u8> {
    seq![
        0x45u8, 0x4e, 0x56, 0x46, 0x53, 0x5f, 0x52, 0x45, 0x53, 0x4f, 0x4c, 0x56, 0x45, 0x5f, 0x41,
        0x4c, 0x57, 0x41, 0x59, 0x53,
    ]
}

pub fn resolve_always_name() -> (r: Vec<u8>)
    ensures
        r@ == resolve_always_key(),
{
    let r: Vec<u8> = vec![
        0x45u8, 0x4e, 0x56, 0x46, 0x53, 0x5f, 0x52, 0x45, 0x53, 0x4f, 0x4c, 0x56, 0x45, 0x5f, 0x41,
        0x4c, 0x57, 0x41, 0x59, 0x53,
    ];
    assert(r@ =~= resolve_always_key());
    r
}

pub open spec fn allowed(num: usize, table: SyscallTable, env: Seq<(Seq<u8>, Seq<u8>)>) -> bool {
    table.is_open(num) || table.is_execve(num) || env_lookup(env, resolve_always_key()) is Some
}

/// A resolution is allowed for calls that use the resulting path (an open
/// or an exec), or for any call when the requester asked for it through its
/// environment.
pub fn is_allowed(num: usize, table: &SyscallTable, env: &Environment) -> (r: bool)
    ensures
        r == allowed(num, *table, env@),
{
    is_open_syscall(num, table) || is_execve_syscall(num, table) || env.contains_key(
        resolve_always_name().as_slice(),
    )
}

/// How many times `/proc/<pid>/syscall` is read while it says `running`
/// before the lookup is given up.
pub const SYSCALL_READ_ATTEMPTS: usize = 4;

/// `running` and a newline: what `/proc/<pid>/syscall` holds while the task
/// is not inside a system call.
pub open spec fn running_line() -> Seq<u8> {
    seq![0x72u8, 0x75, 0x6e, 0x6e, 0x69, 0x6e, 0x67, 0x0a]
}

/// Whether the content of `/proc/<pid>/syscall` says that the task is
/// between system calls, so that it has to be read again.
pub fn syscall_pending(line: &[u8]) -> (r: bool)
    ensures
        r == (line@ == running_line()),
{
    let running: Vec<u8> = vec![0x72u8, 0x75, 0x6e, 0x6e, 0x69, 0x6e, 0x67, 0x0a];
    assert(running@ =~= running_line());
    bytes_eq(line, running.as_slice())
}

/// Whether `/proc/<pid>/syscall` is read again after `attempts` reads, the
/// last of which gave `line`: only while the task is between system calls,
/// and at most `SYSCALL_READ_ATTEMPTS` times in all.
pub fn read_syscall_again(attempts: usize, line: &[u8]) -> (r: bool)
    ensures
        r == (line@ == running_line() && attempts < SYSCALL_READ_ATTEMPTS),
{
    syscall_pending(line) && attempts < SYSCALL_READ_ATTEMPTS
}

/// The fields of a line of `/proc/<pid>/syscall`: split on single spaces
/// once the trailing white space is gone.
pub open spec fn syscall_fields(line: Seq<u8>) -> Seq<Seq<u8>> {
    split_at_byte(trim_end(line), SPACE)
}

/// The value of field `idx`: the first is the call's number in decimal, the
/// others are registers written in hexadecimal behind a two-byte prefix.
pub open spec fn field_value(f: Seq<u8>, idx: int) -> Option<nat> {
    if idx == 0 {
        unsigned_value(f, 10)
    } else if f.len() < 2 {
        None
    } else {
        unsigned_value(f.skip(2), 16)
    }
}

pub open spec fn fits_usize(v: Option<nat>) -> bool {
    v is Some && v.unwrap() <= usize::MAX
}

/// Reads a line of `/proc/<pid>/syscall` into the call's number followed
/// by its registers. `None` where a field is no number of its kind.
pub fn parse_syscall_line(line: &[u8]) -> (r: Option<Vec<usize>>)
    ensures
        match r {
            Some(args) => {
                &&& args@.len() == syscall_fields(line@).len()
                &&& forall|i: int|
                    0 <= i < args@.len() ==> field_value(syscall_fields(line@)[i], i) == Some(
                        args@[i] as nat,
                    )
            },
            None => exists|i: int|
                0 <= i < syscall_fields(line@).len() && !fits_usize(
                    field_value(syscall_fields(line@)[i], i),
                ),
        },
{
    let n = trimmed_len(line);
    let fields = split_bytes(&line[0..n], SPACE);
    assert(line@.subrange(0, n as int) == line@.take(n as int));
    let mut args: Vec<usize> = Vec::new();
    let mut i: usize = 0;
    while i < fields.len()
        invariant
            i <= fields@.len(),
            views(fields@) == syscall_fields(line@),
            args@.len() == i,
            forall|j: int| 0 <= j < i ==> field_value(views(fields@)[j], j) == Some(args@[j] as nat),
        decreases fields.len() - i,
    {
        let f = fields[i].as_slice();
        assert(f@ == views(fields@)[i as int]);
        let v = if i == 0 {
            parse_unsigned(f, 10)
        } else if f.len() < 2 {
            None
        } else {
            assert(f@.subrange(2, f@.len() as int) == f@.skip(2));
            parse_unsigned(&f[2..f.len()], 16)
        };
        match v {
            Some(v) => args.push(v),
            None => {
                assert(!fits_usize(field_value(views(fields@)[i as int], i as int)));
                return None;
            },
        }
        i += 1;
    }
    Some(args)
}

/// Where the `envp` argument of an exec stands among the parsed fields:
/// register three for `execve`, four for `execveat`.
pub open spec fn envp_of(args: Seq<usize>, table: SyscallTable) -> Option<usize> {
    if args.len() == 0 || !table.is_execve(args[0]) {
        None
    } else {
        let idx: int = if args[0] == table.execve {
            3
        } else {
            4
        };
        if idx < args.len() {
            Some(args[idx])
        } else {
            None
        }
    }
}

/// The address of the `envp` array of the exec that the requester is in;
/// `None` for another call, or where the line held too few registers.
pub fn execve_envp(args: &Vec<usize>, table: &SyscallTable) -> (r: Option<usize>)
    ensures
        r == envp_of(args@, *table),
{
    if args.len() == 0 || !is_execve_syscall(args[0], table) {
        return None;
    }
    let idx: usize = if args[0] == table.execve {
        3
    } else {
        4
    };
    if idx < args.len() {
        Some(args[idx])
    } else {
        None
    }
}

} // verus!
