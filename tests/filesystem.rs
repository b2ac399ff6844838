use envfs::inode::PARTITIONS;
use envfs::{
    first_usable, is_usable, pick_resolution, Resolution, SearchResult,
    readlink_resolved, resolve_target, search_candidates, search_paths, Candidate, Entry, EnvFs,
    Environment, FileKind, FsError, Inode, InodeCounter, InodeTable, LinkAnswer, SyscallTable,
    ENVFS_MAGIC, FUSE_ROOT_ID,
};

fn x86_64_table() -> SyscallTable {
    SyscallTable { open: Some(2), openat: 257, execve: 59, execveat: 322 }
}

const SYS_STAT: usize = 4;
const SYS_OPENAT: usize = 257;
const SYS_EXECVE: usize = 59;

fn fs_mounted_at(mounts: &[&[u8]], fallback: &[&[u8]]) -> EnvFs {
    let mut fs = EnvFs::new(fallback.iter().map(|d| d.to_vec()).collect(), x86_64_table());
    fs.set_mountpoints(mounts.iter().map(|m| m.to_vec()).collect());
    fs
}

fn candidate(dir: &[u8], path: &[u8], fallback: bool) -> Candidate {
    Candidate { dir: dir.to_vec(), path: path.to_vec(), fallback }
}

fn inode(ino: u64, name: &[u8]) -> Inode {
    Inode {
        ino,
        name: name.to_vec(),
        path: b"/bin/x".to_vec(),
        pid: 1,
        kind: FileKind::Symlink,
        fallback_path: false,
        nlookup: 1,
    }
}

#[test]
fn counter_issues_pairs_in_order() {
    let mut c = InodeCounter::new();
    assert_eq!(c.allocate(), Some((3, 0)));
    assert_eq!(c.allocate(), Some((4, 0)));
    assert_eq!(c.allocate(), Some((5, 0)));
}

#[test]
fn counter_wraps_into_next_generation() {
    let mut c = InodeCounter { next_number: u64::MAX, generation: 0 };
    assert_eq!(c.allocate(), Some((u64::MAX, 0)));
    assert_eq!(c.allocate(), Some((2, 1)));
    assert_eq!(c.allocate(), Some((3, 1)));
}

#[test]
fn counter_stops_when_exhausted() {
    let mut c = InodeCounter { next_number: u64::MAX, generation: u64::MAX };
    assert_eq!(c.allocate(), None);
    assert_eq!(c, InodeCounter { next_number: u64::MAX, generation: u64::MAX });
}

#[test]
fn issued_pairs_are_unique() {
    let mut c = InodeCounter { next_number: u64::MAX - 50, generation: 7 };
    let mut seen = std::collections::HashSet::new();
    for _ in 0..200 {
        let pair = c.allocate().unwrap();
        assert!(pair.0 > FUSE_ROOT_ID);
        assert!(seen.insert(pair));
    }
}

#[test]
fn table_insert_then_find() {
    let mut t = InodeTable::new();
    assert!(t.insert(3, inode(3, b"ls")).is_none());
    assert_eq!(t.find(3), Some(&inode(3, b"ls")));
    assert_eq!(t.find(4), None);
    let prev = t.insert(3, inode(3, b"cat"));
    assert_eq!(prev, Some(inode(3, b"ls")));
    assert_eq!(t.find(3), Some(&inode(3, b"cat")));
}

#[test]
fn table_insert_remove_then_find() {
    let mut t = InodeTable::new();
    t.insert(19, inode(19, b"ls"));
    assert_eq!(t.remove(19), Some(inode(19, b"ls")));
    assert_eq!(t.find(19), None);
    assert_eq!(t.remove(19), None);
}

#[test]
fn table_spans_partitions_and_clears() {
    let mut t = InodeTable::new();
    for ino in 2..(2 + 3 * PARTITIONS as u64) {
        t.insert(ino, inode(ino, b"x"));
    }
    for ino in 2..(2 + 3 * PARTITIONS as u64) {
        assert_eq!(t.find(ino).map(|i| i.ino), Some(ino));
    }
    t.clear();
    for ino in 2..(2 + 3 * PARTITIONS as u64) {
        assert_eq!(t.find(ino), None);
    }
}

#[test]
fn lookup_stores_name_and_path() {
    let mut fs = fs_mounted_at(&[b"/m"], &[]);
    let e = fs.lookup(FUSE_ROOT_ID, b"foo", 100, Some(candidate(b"/opt/bin", b"/opt/bin/foo", false)));
    let e = e.unwrap();
    assert_eq!(e.attr.ino, 3);
    assert_eq!(e.generation, 0);
    assert_eq!(e.attr.kind, FileKind::Symlink);
    let i = fs.inode(3).unwrap();
    assert_eq!(i.name, b"foo".to_vec());
    assert_eq!(i.path, b"/opt/bin/foo".to_vec());
    assert_eq!(i.pid, 100);
    assert_eq!(i.nlookup, 1);
}

#[test]
fn lookup_outside_root_or_with_slash_fails() {
    let mut fs = fs_mounted_at(&[b"/m"], &[]);
    let c = candidate(b"/bin", b"/bin/ls", false);
    assert_eq!(fs.lookup(5, b"ls", 1, Some(c.clone())), Err(FsError::NotFound));
    assert_eq!(fs.lookup(FUSE_ROOT_ID, b"a/ls", 1, Some(c)), Err(FsError::NotFound));
    assert_eq!(fs.counter, InodeCounter::new());
}

#[test]
fn forget_to_zero_makes_inode_stale() {
    let mut fs = fs_mounted_at(&[b"/m"], &[]);
    let e = fs.lookup(FUSE_ROOT_ID, b"ls", 9, Some(candidate(b"/bin", b"/bin/ls", false))).unwrap();
    let ino = e.attr.ino;
    assert!(fs.getattr(ino).is_ok());
    fs.forget(ino, 1);
    assert_eq!(fs.inode(ino), Err(FsError::Stale));
    assert_eq!(fs.getattr(ino), Err(FsError::Stale));
    assert_eq!(fs.readlink(ino, 9), Err(FsError::Stale));
}

#[test]
fn forget_keeps_inode_while_referenced() {
    let mut fs = fs_mounted_at(&[b"/m"], &[]);
    let ino = fs.lookup(FUSE_ROOT_ID, b"ls", 9, Some(candidate(b"/bin", b"/bin/ls", false))).unwrap().attr.ino;
    let mut stored = fs.inode(ino).unwrap().clone();
    stored.nlookup = 5;
    fs.inodes.insert(ino, stored);
    fs.forget(ino, 2);
    assert_eq!(fs.inode(ino).unwrap().nlookup, 3);
    fs.forget(ino, 3);
    assert_eq!(fs.inode(ino), Err(FsError::Stale));
    fs.forget(ino, 1);
    fs.forget(12345, 1);
}

#[test]
fn lookups_never_share_a_number() {
    let mut fs = fs_mounted_at(&[b"/m"], &[]);
    let mut seen = std::collections::HashSet::new();
    for pid in 0..100 {
        let e = fs.lookup(FUSE_ROOT_ID, b"sh", pid, Some(candidate(b"/bin", b"/bin/sh", false))).unwrap();
        assert!(seen.insert(e.attr.ino));
    }
}

#[test]
fn lookup_skips_number_still_held_after_wrap() {
    let mut fs = fs_mounted_at(&[b"/m"], &[]);
    let c = candidate(b"/bin", b"/bin/sh", false);
    let first = fs.lookup(FUSE_ROOT_ID, b"sh", 1, Some(c.clone())).unwrap();
    assert_eq!(first.attr.ino, 3);
    fs.counter = InodeCounter { next_number: 3, generation: 1 };
    assert_eq!(fs.lookup(FUSE_ROOT_ID, b"sh", 1, Some(c.clone())), Err(FsError::NotFound));
    assert_eq!(fs.inode(3).unwrap().pid, 1);
    let next = fs.lookup(FUSE_ROOT_ID, b"sh", 2, Some(c)).unwrap();
    assert_eq!((next.attr.ino, next.generation), (4, 1));
}

#[test]
fn readlink_by_maker_returns_stored_bytes() {
    let mut fs = fs_mounted_at(&[b"/m"], &[]);
    let ino = fs.lookup(FUSE_ROOT_ID, b"python", 42, Some(candidate(b"/nix/bin", b"/nix/bin/python", false))).unwrap().attr.ino;
    assert_eq!(fs.readlink(ino, 42), Ok(LinkAnswer::Stored(b"/nix/bin/python".to_vec())));
}

#[test]
fn root_attributes_carry_magic() {
    let fs = fs_mounted_at(&[b"/m"], &[]);
    let a = fs.getattr(FUSE_ROOT_ID).unwrap();
    assert_eq!(a.nlink, ENVFS_MAGIC);
    assert_eq!(a.nlink, 0xc7653a76);
    assert_eq!(a.perm, 0o755);
    assert_eq!(a.kind, FileKind::Directory);
}

#[test]
fn link_attributes() {
    let mut fs = fs_mounted_at(&[b"/m"], &[]);
    let e: Entry = fs.lookup(FUSE_ROOT_ID, b"ls", 9, Some(candidate(b"/bin", b"/bin/ls", false))).unwrap();
    let a = fs.getattr(e.attr.ino).unwrap();
    assert_eq!(a, e.attr);
    assert_eq!(a.perm, 0o777);
    assert_eq!(a.nlink, 1);
    assert_eq!(a.size, 0);
}

#[test]
fn readdir_lists_dot_entries() {
    let fs = fs_mounted_at(&[b"/m"], &[]);
    let all = fs.readdir(FUSE_ROOT_ID, 0).unwrap();
    assert_eq!(all.len(), 2);
    assert_eq!(all[0].name, b".".to_vec());
    assert_eq!(all[0].offset, 1);
    assert_eq!(all[1].name, b"..".to_vec());
    assert_eq!(all[1].offset, 2);
    let rest = fs.readdir(FUSE_ROOT_ID, 1).unwrap();
    assert_eq!(rest.len(), 1);
    assert_eq!(rest[0].name, b"..".to_vec());
    assert!(fs.readdir(FUSE_ROOT_ID, 2).unwrap().is_empty());
    assert!(fs.readdir(FUSE_ROOT_ID, -1).unwrap().is_empty());
    assert_eq!(fs.readdir(3, 0), Err(FsError::NotFound));
}

#[test]
fn getxattr_has_no_data() {
    let fs = fs_mounted_at(&[b"/m"], &[]);
    assert_eq!(fs.getxattr(FUSE_ROOT_ID, b"user.x"), Err(FsError::NoData));
}

#[test]
fn destroy_forgets_everything() {
    let mut fs = fs_mounted_at(&[b"/m"], &[]);
    let ino = fs.lookup(FUSE_ROOT_ID, b"ls", 9, Some(candidate(b"/bin", b"/bin/ls", false))).unwrap().attr.ino;
    fs.destroy();
    assert_eq!(fs.getattr(ino), Err(FsError::Stale));
}

#[test]
fn statfs_of_root_and_path_links_is_not_found() {
    let mut fs = fs_mounted_at(&[b"/m"], &[]);
    let ino = fs.lookup(FUSE_ROOT_ID, b"ls", 9, Some(candidate(b"/bin", b"/bin/ls", false))).unwrap().attr.ino;
    assert_eq!(fs.statfs(ino), Err(FsError::NotFound));
    assert_eq!(fs.statfs(FUSE_ROOT_ID), Err(FsError::NotFound));
}

#[test]
fn path_hit() {
    let mut fs = fs_mounted_at(&[b"/m"], &[]);
    let env = Environment::parse_environ(b"PATH=/opt/bin:/bin\0");
    let paths = search_paths(&env, &vec![SYS_OPENAT, 1, 2, 3], None, &fs.syscalls);
    assert_eq!(paths.exec_path, None);
    assert_eq!(paths.path, b"/opt/bin:/bin".to_vec());
    let cands = search_candidates(&paths.path, b"foo", &fs.fallback_paths, &fs.mountpoints);
    assert_eq!(cands, vec![candidate(b"/opt/bin", b"/opt/bin/foo", false), candidate(b"/bin", b"/bin/foo", false)]);
    let ino = fs.lookup(FUSE_ROOT_ID, b"foo", 77, Some(cands[0].clone())).unwrap().attr.ino;
    assert_eq!(fs.readlink(ino, 77), Ok(LinkAnswer::Stored(b"/opt/bin/foo".to_vec())));
}

#[test]
fn miss_is_not_found() {
    let mut fs = fs_mounted_at(&[b"/m"], &[]);
    assert_eq!(fs.lookup(FUSE_ROOT_ID, b"foo", 77, None), Err(FsError::NotFound));
    assert_eq!(fs.counter, InodeCounter::new());
}

#[test]
fn stat_blocked() {
    let fs = fs_mounted_at(&[b"/m"], &[]);
    let env = Environment::parse_environ(b"PATH=/bin\0");
    let args = vec![SYS_STAT, 1, 2, 3];
    let paths = search_paths(&env, &args, None, &fs.syscalls);
    assert_eq!(paths.exec_path, None);
    assert!(paths.path.is_empty());
    assert!(search_candidates(&paths.path, b"sh", &fs.fallback_paths, &fs.mountpoints).is_empty());
    let r = fs.resolve(b"sh", &env, &args, None);
    assert_eq!(r.target, None);
    assert_eq!(r.exec_search, None);
    assert_eq!(r.caller_search, Some(SearchResult { outcomes: vec![], found: None }));
    let r2 = resolve_target(b"sh", &env, &args, None, &fs.syscalls, &fs.fallback_paths, &fs.mountpoints);
    assert_eq!(r2, r);
}

#[test]
fn fallback_rescues() {
    let mut fs = fs_mounted_at(&[b"/m"], &[b"/run/envfs-fallback"]);
    let env = Environment::parse_environ(b"PATH=\0");
    let paths = search_paths(&env, &vec![SYS_STAT, 1, 2, 3], None, &fs.syscalls);
    assert!(paths.path.is_empty());
    let cands = search_candidates(&paths.path, b"sh", &fs.fallback_paths, &fs.mountpoints);
    assert_eq!(cands, vec![candidate(b"/run/envfs-fallback", b"/run/envfs-fallback/sh", true)]);
    let ino = fs.lookup(FUSE_ROOT_ID, b"sh", 5, Some(cands[0].clone())).unwrap().attr.ino;
    assert_eq!(fs.readlink(ino, 5), Ok(LinkAnswer::Stored(b"/run/envfs-fallback/sh".to_vec())));
    let st = fs.statfs(ino).unwrap();
    assert_eq!(st.bsize, 4096);
    assert_eq!(st.namelen, 255);
}

#[test]
fn execve_uses_fresh_env() {
    let fs = fs_mounted_at(&[b"/m"], &[]);
    let env = Environment::parse_environ(b"PATH=/old/bin\0");
    let mem = Environment::from_mem_entries(&vec![b"PATH=/new/bin".to_vec()]);
    let args = vec![SYS_EXECVE, 0x1000, 0x2000, 0x3000];
    assert_eq!(envfs::execve_envp(&args, &fs.syscalls), Some(0x3000));
    let paths = search_paths(&env, &args, Some(&mem), &fs.syscalls);
    assert_eq!(paths.exec_path, Some(b"/new/bin".to_vec()));
    assert_eq!(paths.path, b"/old/bin".to_vec());
    let none: Vec<Vec<u8>> = Vec::new();
    let first = search_candidates(paths.exec_path.as_ref().unwrap(), b"python", &none, &fs.mountpoints);
    assert_eq!(first, vec![candidate(b"/new/bin", b"/new/bin/python", false)]);
}

#[test]
fn self_mount_skipped() {
    let fs = fs_mounted_at(&[b"/usr/bin"], &[]);
    let cands = search_candidates(b"/usr/bin:/opt/bin", b"awk", &fs.fallback_paths, &fs.mountpoints);
    assert_eq!(cands, vec![candidate(b"/opt/bin", b"/opt/bin/awk", false)]);
    let below = search_candidates(b"/usr/bin/sub:/usr/binx:/usr/bin/", b"awk", &fs.fallback_paths, &fs.mountpoints);
    assert_eq!(below, vec![candidate(b"/usr/binx", b"/usr/binx/awk", false)]);
}

#[test]
fn cross_pid_readlink() {
    let mut fs = fs_mounted_at(&[b"/m"], &[]);
    let ino = fs.lookup(FUSE_ROOT_ID, b"ls", 1000, Some(candidate(b"/bin", b"/bin/ls", false))).unwrap().attr.ino;
    assert_eq!(fs.readlink(ino, 2000), Ok(LinkAnswer::ResolveFor(b"ls".to_vec())));
    assert_eq!(readlink_resolved(None), Err(FsError::NotFound));
    assert_eq!(
        readlink_resolved(Some(candidate(b"/home/b/bin", b"/home/b/bin/ls", false))),
        Ok(b"/home/b/bin/ls".to_vec())
    );
}

#[test]
fn search_joins_trailing_slash_and_skips_empty() {
    let mounts: Vec<Vec<u8>> = vec![b"/m".to_vec()];
    let fallback: Vec<Vec<u8>> = vec![b"/fb/".to_vec(), Vec::new()];
    let cands = search_candidates(b"::/a/", b"x", &fallback, &mounts);
    assert_eq!(cands, vec![candidate(b"/a/", b"/a/x", false), candidate(b"/fb/", b"/fb/x", true)]);
}

#[test]
fn no_args_resolve_nothing() {
    let fs = fs_mounted_at(&[b"/m"], &[b"/"]);
    let env = Environment::parse_environ(b"PATH=/bin\0");
    let r = fs.resolve(b"sh", &env, &vec![], None);
    assert_eq!(r, Resolution { exec_search: None, caller_search: None, target: None });
}

#[test]
fn which_probes_the_disk() {
    let none: Vec<Vec<u8>> = Vec::new();
    let mounts = vec![b"/m".to_vec()];
    let miss = envfs::which(b"/nonexistent/envfs-test-dir", b"no-such-program", &none, &mounts);
    assert_eq!(miss, SearchResult { outcomes: vec![false], found: None });
    let served = envfs::which(b"/m:/m/sub", b"", &none, &mounts);
    assert_eq!(served, SearchResult { outcomes: vec![], found: None });
    let root_dir = vec![b"/".to_vec(), b"/nonexistent/other".to_vec()];
    let hit = envfs::which(b"/nonexistent/envfs-test-dir", b"", &root_dir, &mounts);
    assert_eq!(hit, SearchResult { outcomes: vec![false, true], found: Some(candidate(b"/", b"/", true)) });
}

#[test]
fn usable_needs_executable_outside_own_mounts() {
    assert!(is_usable(None, true));
    assert!(is_usable(Some(2), true));
    assert!(!is_usable(None, false));
    assert!(!is_usable(Some(0xc7653a76), true));
    assert!(!is_usable(Some(0x1_c765_3a76), true));
    assert!(is_usable(Some(0xc7653a77), true));
}

#[test]
fn first_usable_picks_first_true() {
    assert_eq!(first_usable(&vec![]), None);
    assert_eq!(first_usable(&vec![false, false]), None);
    assert_eq!(first_usable(&vec![false, true, true]), Some(1));
    assert_eq!(first_usable(&vec![true]), Some(0));
}

#[test]
fn exec_hit_beats_caller_hit() {
    let exec = candidate(b"/new/bin", b"/new/bin/python", false);
    let old = candidate(b"/old/bin", b"/old/bin/python", false);
    assert_eq!(pick_resolution(Some(exec.clone()), Some(old.clone())), Some(exec.clone()));
    assert_eq!(pick_resolution(None, Some(old.clone())), Some(old));
    assert_eq!(pick_resolution(Some(exec.clone()), None), Some(exec));
    assert_eq!(pick_resolution(None, None), None);
}

#[test]
fn execve_with_too_few_registers_skips_fresh_env() {
    let fs = fs_mounted_at(&[b"/m"], &[]);
    let env = Environment::parse_environ(b"PATH=/old/bin\0");
    let mem = Environment::from_mem_entries(&vec![b"PATH=/new/bin".to_vec()]);
    let args = vec![SYS_EXECVE, 0x1000, 0x2000];
    let paths = search_paths(&env, &args, Some(&mem), &fs.syscalls);
    assert_eq!(paths.exec_path, None);
    assert_eq!(paths.path, b"/old/bin".to_vec());
    let r = fs.resolve(b"python", &env, &args, Some(&mem));
    assert_eq!(r.exec_search, None);
}

#[test]
fn destroy_keeps_configuration() {
    let mut fs = fs_mounted_at(&[b"/m", b"/bin"], &[b"/run/fb"]);
    fs.lookup(FUSE_ROOT_ID, b"ls", 9, Some(candidate(b"/bin", b"/bin/ls", false))).unwrap();
    fs.destroy();
    assert_eq!(fs.mountpoints, vec![b"/m".to_vec(), b"/bin".to_vec()]);
    assert_eq!(fs.fallback_paths, vec![b"/run/fb".to_vec()]);
    assert_eq!(fs.syscalls, x86_64_table());
}
