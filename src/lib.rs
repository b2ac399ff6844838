//! A filesystem that answers every lookup with a symbolic link to the
//! executable that the calling process would find on its own `PATH`.
//!
//! The library holds the decisions: how `/proc` records are read, which
//! system calls may trigger a resolution, how `PATH` is searched, how inode
//! numbers are issued and how the inode table tracks kernel references.
//! The program around it performs the reads and talks to the kernel.

pub mod bytes;
pub mod cli;
pub mod env;
pub mod fs;
pub mod inode;
pub mod resolve;
pub mod syscall;
pub mod which;

pub use env::{env_pointer, EnvVar, Environment};
pub use fs::{
    readlink_resolved, root_attr, symlink_attr, Attr, DirEntry, Entry, EnvFs, FsError, LinkAnswer,
    Statfs, ATTR_TTL_SECS, ENTRY_TTL_SECS,
};
pub use inode::{FileKind, Inode, InodeCounter, InodeTable, FUSE_ROOT_ID};
pub use resolve::{pick_resolution, resolve_target, search_paths, Resolution, SearchPaths};
pub use syscall::{
    execve_envp, is_allowed, is_execve_syscall, is_open_syscall, parse_syscall_line,
    read_syscall_again, syscall_pending, SyscallTable, SYSCALL_READ_ATTEMPTS,
};
pub use which::{
    first_usable, is_usable, search_candidates, which, Candidate, SearchResult, ENVFS_MAGIC,
};
