//! The filesystem's answers to the kernel's requests, over the inode table
//! and the inode counter.

use vstd::prelude::*;

use crate::bytes::{copy_bytes, views};
use crate::env::Environment;
use crate::inode::{FileKind, Inode, InodeCounter, InodeTable, FUSE_ROOT_ID};
use crate::resolve::{env_view, resolution_of, resolve_target, Resolution};
use crate::syscall::SyscallTable;
use crate::which::{Candidate, ENVFS_MAGIC, SLASH};

verus! {

/// How long, in seconds, the kernel may keep attributes.
pub const ATTR_TTL_SECS: u64 = 1;

/// How long, in seconds, the kernel may keep a name's entry: not at all,
/// since each requester sees its own target.
pub const ENTRY_TTL_SECS: u64 = 0;

/// The error numbers that the filesystem answers with.
#[derive(Clone, Copy, Debug, PartialEq, Eq, Structural)]
pub enum FsError {
    /// `ENOENT`: nothing by that name for this requester.
    NotFound,
    /// `ESTALE`: the inode is no longer known.
    Stale,
    /// `ENODATA`: no extended attribute.
    NoData,
}

/// The attributes reported for a file.
#[derive(Clone, Copy, Debug, PartialEq, Eq, Structural)]
pub struct Attr {
    pub ino: u64,
    pub size: u64,
    pub kind: FileKind,
    pub perm: u16,
    pub nlink: u32,
    pub uid: u32,
    pub gid: u32,
}

pub open spec fn spec_root_attr() -> Attr {
    Attr { ino: FUSE_ROOT_ID, size: 0, kind: FileKind::Directory, perm: 0o755, nlink: ENVFS_MAGIC, uid: 0, gid: 0 }
}

pub open spec fn spec_symlink_attr(ino: u64) -> Attr {
    Attr { ino, size: 0, kind: FileKind::Symlink, perm: 0o777, nlink: 1, uid: 0, gid: 0 }
}

/// The root directory: owned by root, mode 755, and with the link count that
/// marks it as this filesystem's.
pub fn root_attr() -> (r: Attr)
    ensures
        r == spec_root_attr(),
{
    Attr { ino: FUSE_ROOT_ID, size: 0, kind: FileKind::Directory, perm: 0o755, nlink: ENVFS_MAGIC, uid: 0, gid: 0 }
}

/// A symbolic link: empty, owned by root, mode 777, one link.
pub fn symlink_attr(ino: u64) -> (r: Attr)
    ensures
        r == spec_symlink_attr(ino),
{
    Attr { ino, size: 0, kind: FileKind::Symlink, perm: 0o777, nlink: 1, uid: 0, gid: 0 }
}

/// The answer to a successful lookup.
#[derive(Clone, Copy, Debug, PartialEq, Eq, Structural)]
pub struct Entry {
    pub attr: Attr,
    pub generation: u64,
}

/// What a read of a link answers: the stored target, or, for a requester
/// other than the one that made the link, a new resolution of its name.
#[derive(Clone, Debug, PartialEq, Eq)]
pub enum LinkAnswer {
    Stored(Vec<u8>),
    ResolveFor(Vec<u8>),
}

impl View for LinkAnswer {
    type V = (bool, Seq<u8>);

    /// Whether the target is the stored one, and the bytes carried.
    open spec fn view(&self) -> (bool, Seq<u8>) {
        match self {
            LinkAnswer::Stored(p) => (true, p@),
            LinkAnswer::ResolveFor(n) => (false, n@),
        }
    }
}

/// What `getattr` answers for `ino` over the table `inodes`.
pub open spec fn spec_getattr(inodes: Map<u64, Inode>, ino: u64) -> Result<Attr, FsError> {
    if ino == FUSE_ROOT_ID {
        Ok(spec_root_attr())
    } else if inodes.contains_key(ino) {
        Ok(spec_symlink_attr(ino))
    } else {
        Err(FsError::Stale)
    }
}

/// What `readlink` answers for `ino` read by `pid` over the table `inodes`:
/// the stored target for the process that made the link, else the name to
/// resolve again.
pub open spec fn spec_readlink(inodes: Map<u64, Inode>, ino: u64, pid: i32) -> Result<
    (bool, Seq<u8>),
    FsError,
> {
    if !inodes.contains_key(ino) {
        Err(FsError::Stale)
    } else if inodes[ino].pid == pid {
        Ok((true, inodes[ino].path@))
    } else {
        Ok((false, inodes[ino].name@))
    }
}

/// One entry of a directory listing; `offset` is that of the entry after it.
#[derive(Clone, Debug, PartialEq, Eq)]
pub struct DirEntry {
    pub ino: u64,
    pub offset: i64,
    pub kind: FileKind,
    pub name: Vec<u8>,
}

/// Filesystem statistics.
#[derive(Clone, Copy, Debug, PartialEq, Eq, Structural)]
pub struct Statfs {
    pub blocks: u64,
    pub bfree: u64,
    pub bavail: u64,
    pub files: u64,
    pub ffree: u64,
    pub bsize: u32,
    pub namelen: u32,
    pub frsize: u32,
}

pub open spec fn spec_placeholder_statfs() -> Statfs {
    Statfs { blocks: 0, bfree: 0, bavail: 0, files: 0, ffree: 0, bsize: 4096, namelen: 255, frsize: 4096 }
}

pub open spec fn has_slash(name: Seq<u8>) -> bool {
    exists|i: int| 0 <= i < name.len() && name[i] == SLASH
}

fn contains_slash(name: &[u8]) -> (r: bool)
    ensures
        r == has_slash(name@),
{
    let mut i: usize = 0;
    while i < name.len()
        invariant
            i <= name.len(),
            forall|j: int| 0 <= j < i ==> name@[j] != SLASH,
        decreases name.len() - i,
    {
        if name[i] == SLASH {
            return true;
        }
        i += 1;
    }
    false
}

/// Whether a lookup may be resolved at all: only names without `/`, in the
/// root directory.
pub fn lookup_request_valid(parent: u64, name: &[u8]) -> (r: bool)
    ensures
        r == (parent == FUSE_ROOT_ID && !has_slash(name@)),
{
    parent == FUSE_ROOT_ID && !contains_slash(name)
}

/// `i` is the inode that a lookup of `name` by `pid` makes under number
/// `ino` for the target `target`: a link to the target's path, with one
/// kernel reference.
pub open spec fn made_by_lookup(
    i: Inode,
    ino: u64,
    name: Seq<u8>,
    pid: i32,
    target: (Seq<u8>, Seq<u8>, bool),
) -> bool {
    &&& i.ino == ino
    &&& i.name@ == name
    &&& i.path@ == target.1
    &&& i.pid == pid
    &&& i.kind == FileKind::Symlink
    &&& i.fallback_path == target.2
    &&& i.nlookup == 1
}

/// `i` with its count of kernel references set to `n`.
pub open spec fn with_nlookup(i: Inode, n: u64) -> Inode {
    Inode { nlookup: n, ..i }
}

/// The filesystem: its inodes, the counter that numbers them, and the
/// configuration that every resolution reads.
pub struct EnvFs {
    pub inodes: InodeTable,
    pub counter: InodeCounter,
    pub fallback_paths: Vec<Vec<u8>>,
    pub mountpoints: Vec<Vec<u8>>,
    pub syscalls: SyscallTable,
}

/// What a lookup of `name` in `parent` by `pid`, with the resolution's
/// result `target`, does to the filesystem and answers. A found target in
/// the root directory, for a name without `/`, gets a new inode with one
/// kernel reference under the next number of the counter; anything else is
/// `NotFound` and leaves the table as it was. A number that the table still
/// holds after the counter wrapped is not handed out twice: that lookup is
/// `NotFound` too, and the counter moves past the number.
pub open spec fn lookup_outcome(
    old: EnvFs,
    new: EnvFs,
    parent: u64,
    name: Seq<u8>,
    pid: i32,
    target: Option<Candidate>,
    r: Result<Entry, FsError>,
) -> bool {
    &&& new.fallback_paths@ == old.fallback_paths@
    &&& new.mountpoints@ == old.mountpoints@
    &&& new.syscalls == old.syscalls
    &&& if parent != FUSE_ROOT_ID || has_slash(name) || target is None || old.counter.exhausted() {
        &&& r == Err::<Entry, FsError>(FsError::NotFound)
        &&& new.inodes@ == old.inodes@
        &&& new.counter == old.counter
    } else {
        let ino = old.counter.next_number;
        &&& new.counter == old.counter.step()
        &&& if old.inodes@.contains_key(ino) {
            &&& r == Err::<Entry, FsError>(FsError::NotFound)
            &&& new.inodes@ == old.inodes@
        } else {
            &&& r == Ok::<Entry, FsError>(
                (Entry { attr: spec_symlink_attr(ino), generation: old.counter.generation }),
            )
            &&& new.inodes@.dom() == old.inodes@.dom().insert(ino)
            &&& forall|k: u64|
                k != ino && old.inodes@.contains_key(k) ==> new.inodes@[k] == old.inodes@[k]
            &&& made_by_lookup(new.inodes@[ino], ino, name, pid, target.unwrap()@)
        }
    }
}

/// What dropping `n` kernel references to `ino` does: an unknown inode
/// changes nothing; the inode leaves the table when no reference is left,
/// else its count goes down by `n`.
pub open spec fn forget_outcome(old: EnvFs, new: EnvFs, ino: u64, n: u64) -> bool {
    &&& new.counter == old.counter
    &&& new.fallback_paths@ == old.fallback_paths@
    &&& new.mountpoints@ == old.mountpoints@
    &&& new.syscalls == old.syscalls
    &&& if !old.inodes@.contains_key(ino) {
        new.inodes@ == old.inodes@
    } else if old.inodes@[ino].nlookup == n {
        new.inodes@ == old.inodes@.remove(ino)
    } else {
        new.inodes@ == old.inodes@.insert(
            ino,
            with_nlookup(old.inodes@[ino], (old.inodes@[ino].nlookup - n) as u64),
        )
    }
}

impl EnvFs {
    /// The table is well formed, the counter issues numbers above the root's,
    /// and each stored inode is a link under its own number that the kernel
    /// still references.
    pub open spec fn wf(&self) -> bool {
        &&& self.inodes.wf()
        &&& self.counter.wf()
        &&& forall|k: u64| #[trigger]
            self.inodes@.contains_key(k) ==> {
                &&& self.inodes@[k].ino == k
                &&& k > FUSE_ROOT_ID
                &&& self.inodes@[k].nlookup >= 1
                &&& self.inodes@[k].kind == FileKind::Symlink
            }
    }

    /// A filesystem with no inodes and no mountpoints yet.
    pub fn new(fallback_paths: Vec<Vec<u8>>, syscalls: SyscallTable) -> (r: Self)
        ensures
            r.wf(),
            r.inodes@ == Map::<u64, Inode>::empty(),
            r.counter == InodeCounter::initial(),
            r.fallback_paths@ == fallback_paths@,
            r.mountpoints@.len() == 0,
            r.syscalls == syscalls,
    {
        EnvFs {
            inodes: InodeTable::new(),
            counter: InodeCounter::new(),
            fallback_paths,
            mountpoints: Vec::new(),
            syscalls,
        }
    }

    /// Records the directories where the filesystem is mounted, so that a
    /// search never probes them.
    pub fn set_mountpoints(&mut self, mountpoints: Vec<Vec<u8>>)
        requires
            old(self).wf(),
        ensures
            final(self).wf(),
            final(self).mountpoints@ == mountpoints@,
            final(self).inodes@ == old(self).inodes@,
            final(self).counter == old(self).counter,
            final(self).fallback_paths@ == old(self).fallback_paths@,
            final(self).syscalls == old(self).syscalls,
    {
        self.mountpoints = mountpoints;
    }

    /// Issues the next `(ino, generation)` pair.
    pub fn next_inode_number(&mut self) -> (r: Option<(u64, u64)>)
        requires
            old(self).wf(),
        ensures
            final(self).wf(),
            final(self).inodes@ == old(self).inodes@,
            final(self).fallback_paths@ == old(self).fallback_paths@,
            final(self).mountpoints@ == old(self).mountpoints@,
            final(self).syscalls == old(self).syscalls,
            old(self).counter.exhausted() ==> r is None && final(self).counter == old(self).counter,
            !old(self).counter.exhausted() ==> r == Some(
                (old(self).counter.next_number, old(self).counter.generation),
            ) && final(self).counter == old(self).counter.step(),
    {
        self.counter.allocate()
    }

    /// The inode numbered `ino`; `Stale` where the table does not hold it.
    pub fn inode(&self, ino: u64) -> (r: Result<&Inode, FsError>)
        requires
            self.wf(),
        ensures
            match r {
                Ok(i) => self.inodes@.contains_key(ino) && *i == self.inodes@[ino],
                Err(e) => !self.inodes@.contains_key(ino) && e == FsError::Stale,
            },
    {
        match self.inodes.find(ino) {
            Some(i) => Ok(i),
            None => Err(FsError::Stale),
        }
    }

    /// Resolves `name` for a requester with this filesystem's fallback
    /// directories and mountpoints; see `resolve_target`.
    pub fn resolve(
        &self,
        name: &[u8],
        env: &Environment,
        args: &Vec<usize>,
        mem_env: Option<&Environment>,
    ) -> (r: Resolution)
        ensures
            resolution_of(
                name@,
                env@,
                args@,
                env_view(mem_env),
                self.syscalls,
                views(self.fallback_paths@),
                views(self.mountpoints@),
                r,
            ),
    {
        resolve_target(name, env, args, mem_env, &self.syscalls, &self.fallback_paths, &self.mountpoints)
    }

    /// Answers a lookup of `name` in `parent` by process `pid`, where
    /// `target` is what the resolution of `name` for that process found.
    /// A found target in the root directory, for a name without `/`, gets a
    /// new inode with one kernel reference under the next number of the
    /// counter; anything else is `NotFound` and changes nothing. A number
    /// still held after the counter wrapped is not handed out twice: that
    /// lookup is `NotFound` too, and the counter moves past the number.
    pub fn lookup(&mut self, parent: u64, name: &[u8], pid: i32, target: Option<Candidate>) -> (r:
        Result<Entry, FsError>)
        requires
            old(self).wf(),
        ensures
            final(self).wf(),
            lookup_outcome(*old(self), *final(self), parent, name@, pid, target, r),
    {
        if parent != FUSE_ROOT_ID || contains_slash(name) {
            return Err(FsError::NotFound);
        }
        let target = match target {
            Some(t) => t,
            None => return Err(FsError::NotFound),
        };
        let (ino, generation) = match self.next_inode_number() {
            Some(pair) => pair,
            None => return Err(FsError::NotFound),
        };
        if self.inodes.find(ino).is_some() {
            return Err(FsError::NotFound);
        }
        let stored_name = copy_bytes(name);
        let inode = Inode {
            ino,
            name: stored_name,
            path: target.path,
            pid,
            kind: FileKind::Symlink,
            fallback_path: target.fallback,
            nlookup: 1,
        };
        self.inodes.insert(ino, inode);
        assert(self.inodes@.dom() =~= old(self).inodes@.dom().insert(ino));
        Ok(Entry { attr: symlink_attr(ino), generation })
    }

    /// The attributes of `ino`: the root's, a link's, or `Stale`.
    pub fn getattr(&self, ino: u64) -> (r: Result<Attr, FsError>)
        requires
            self.wf(),
        ensures
            r == spec_getattr(self.inodes@, ino),
    {
        if ino == FUSE_ROOT_ID {
            return Ok(root_attr());
        }
        match self.inode(ino) {
            Ok(_) => Ok(symlink_attr(ino)),
            Err(e) => Err(e),
        }
    }

    /// What a read of link `ino` by process `pid` answers: the stored target
    /// for the process that made the link; for any other, the name to
    /// resolve again for it; `Stale` for an unknown inode.
    pub fn readlink(&self, ino: u64, pid: i32) -> (r: Result<LinkAnswer, FsError>)
        requires
            self.wf(),
        ensures
            match r {
                Ok(a) => spec_readlink(self.inodes@, ino, pid) == Ok::<(bool, Seq<u8>), FsError>(
                    a.view(),
                ),
                Err(e) => spec_readlink(self.inodes@, ino, pid) == Err::<(bool, Seq<u8>), FsError>(
                    e,
                ),
            },
    {
        let inode = match self.inode(ino) {
            Ok(i) => i,
            Err(e) => return Err(e),
        };
        if inode.pid == pid {
            let p = inode.path.clone();
            assert(p@ =~= inode.path@);
            Ok(LinkAnswer::Stored(p))
        } else {
            let n = inode.name.clone();
            assert(n@ =~= inode.name@);
            Ok(LinkAnswer::ResolveFor(n))
        }
    }

    /// Lists directory `ino` from `offset` on: the root holds only `.` and
    /// `..`; any other inode is `NotFound`.
    pub fn readdir(&self, ino: u64, offset: i64) -> (r: Result<Vec<DirEntry>, FsError>)
        ensures
            ino != FUSE_ROOT_ID ==> r == Err::<Vec<DirEntry>, FsError>(FsError::NotFound),
            ino == FUSE_ROOT_ID ==> match r {
                Ok(v) => {
                    &&& v@.len() == (if offset < 0 || offset >= 2 {
                        0
                    } else {
                        2 - offset
                    })
                    &&& forall|i: int|
                        0 <= i < v@.len() ==> {
                            let pos = offset + i;
                            &&& (#[trigger] v@[i]).ino == FUSE_ROOT_ID
                            &&& v@[i].kind == FileKind::Directory
                            &&& v@[i].offset == pos + 1
                            &&& v@[i].name@ == (if pos == 0 {
                                seq![0x2eu8]
                            } else {
                                seq![0x2eu8, 0x2e]
                            })
                        }
                },
                Err(_) => false,
            },
    {
        if ino != FUSE_ROOT_ID {
            return Err(FsError::NotFound);
        }
        let mut out: Vec<DirEntry> = Vec::new();
        if offset == 0 {
            let dot: Vec<u8> = vec![0x2eu8];
            assert(dot@ =~= seq![0x2eu8]);
            out.push(DirEntry { ino: FUSE_ROOT_ID, offset: 1, kind: FileKind::Directory, name: dot });
        }
        if offset == 0 || offset == 1 {
            let dotdot: Vec<u8> = vec![0x2eu8, 0x2e];
            assert(dotdot@ =~= seq![0x2eu8, 0x2e]);
            out.push(DirEntry { ino: FUSE_ROOT_ID, offset: 2, kind: FileKind::Directory, name: dotdot });
        }
        Ok(out)
    }

    /// Drops `nlookup` kernel references to `ino`; the inode leaves the table
    /// when none is left. An unknown inode is ignored.
    pub fn forget(&mut self, ino: u64, nlookup: u64)
        requires
            old(self).wf(),
            old(self).inodes@.contains_key(ino) ==> old(self).inodes@[ino].nlookup >= nlookup,
        ensures
            final(self).wf(),
            forget_outcome(*old(self), *final(self), ino, nlookup),
    {
        let inode = match self.inodes.remove(ino) {
            Some(i) => i,
            None => {
                assert(old(self).inodes@.remove(ino) =~= old(self).inodes@);
                return;
            },
        };
        let left = inode.nlookup - nlookup;
        if left != 0 {
            let updated = Inode { nlookup: left, ..inode };
            self.inodes.insert(ino, updated);
            assert(self.inodes@ =~= old(self).inodes@.insert(ino, updated));
        }
    }

    /// Forgets every inode, when the filesystem is unmounted.
    pub fn destroy(&mut self)
        requires
            old(self).wf(),
        ensures
            final(self).wf(),
            final(self).inodes@ == Map::<u64, Inode>::empty(),
            final(self).counter == old(self).counter,
            final(self).fallback_paths@ == old(self).fallback_paths@,
            final(self).mountpoints@ == old(self).mountpoints@,
            final(self).syscalls == old(self).syscalls,
    {
        self.inodes.clear();
    }

    /// Statistics are given for links into a fallback directory, so that a
    /// probe of such a link sees a live filesystem; anything else, the root
    /// included, is `NotFound`.
    pub fn statfs(&self, ino: u64) -> (r: Result<Statfs, FsError>)
        requires
            self.wf(),
        ensures
            (self.inodes@.contains_key(ino) && self.inodes@[ino].fallback_path) ==> r == Ok::<
                Statfs,
                FsError,
            >(spec_placeholder_statfs()),
            !(self.inodes@.contains_key(ino) && self.inodes@[ino].fallback_path) ==> r == Err::<
                Statfs,
                FsError,
            >(FsError::NotFound),
    {
        match self.inodes.find(ino) {
            Some(i) => if i.fallback_path {
                Ok(
                    Statfs {
                        blocks: 0,
                        bfree: 0,
                        bavail: 0,
                        files: 0,
                        ffree: 0,
                        bsize: 4096,
                        namelen: 255,
                        frsize: 4096,
                    },
                )
            } else {
                Err(FsError::NotFound)
            },
            None => Err(FsError::NotFound),
        }
    }

    /// No file has extended attributes.
    pub fn getxattr(&self, ino: u64, name: &[u8]) -> (r: Result<Vec<u8>, FsError>)
        ensures
            r == Err::<Vec<u8>, FsError>(FsError::NoData),
    {
        Err(FsError::NoData)
    }
}

/// After a successful lookup, the table holds the new inode under the
/// number answered, with the name looked up and the path resolved.
pub proof fn lemma_lookup_then_find(
    before: EnvFs,
    after: EnvFs,
    parent: u64,
    name: Seq<u8>,
    pid: i32,
    target: Option<Candidate>,
    e: Entry,
)
    requires
        lookup_outcome(before, after, parent, name, pid, target, Ok(e)),
    ensures
        after.inodes@.contains_key(e.attr.ino),
        after.inodes@[e.attr.ino].ino == e.attr.ino,
        after.inodes@[e.attr.ino].name@ == name,
        after.inodes@[e.attr.ino].path@ == target.unwrap().path@,
{
}

/// A lookup in the root directory, for a name without `/`, whose
/// resolution found a target, succeeds whenever the counter still has
/// numbers and the table does not hold the next one (as on a fresh
/// filesystem), and stores the target's path and fallback flag.
pub proof fn lemma_lookup_with_target_succeeds(
    before: EnvFs,
    after: EnvFs,
    name: Seq<u8>,
    pid: i32,
    target: Candidate,
    r: Result<Entry, FsError>,
)
    requires
        before.wf(),
        lookup_outcome(before, after, FUSE_ROOT_ID, name, pid, Some(target), r),
        !has_slash(name),
        !before.counter.exhausted(),
        !before.inodes@.contains_key(before.counter.next_number),
    ensures
        r is Ok,
        after.inodes@.contains_key(r.unwrap().attr.ino),
        after.inodes@[r.unwrap().attr.ino].path@ == target.path@,
        after.inodes@[r.unwrap().attr.ino].fallback_path == target.fallback,
        r.unwrap().attr.kind == FileKind::Symlink,
        r.unwrap().attr.ino > FUSE_ROOT_ID,
{
}

/// Two lookups that succeed one after the other never answer the same
/// inode number, nor the same `(ino, generation)` pair.
pub proof fn lemma_lookups_distinct(
    fs0: EnvFs,
    fs1: EnvFs,
    fs2: EnvFs,
    parent1: u64,
    name1: Seq<u8>,
    pid1: i32,
    target1: Option<Candidate>,
    e1: Entry,
    parent2: u64,
    name2: Seq<u8>,
    pid2: i32,
    target2: Option<Candidate>,
    e2: Entry,
)
    requires
        lookup_outcome(fs0, fs1, parent1, name1, pid1, target1, Ok(e1)),
        lookup_outcome(fs1, fs2, parent2, name2, pid2, target2, Ok(e2)),
    ensures
        e1.attr.ino != e2.attr.ino,
{
    assert(fs1.inodes@.contains_key(e1.attr.ino));
}

/// Once `forget` has dropped the last kernel reference to an inode, the
/// table no longer holds it and its attributes are `Stale`.
pub proof fn lemma_forgotten_inode_is_stale(before: EnvFs, after: EnvFs, ino: u64, n: u64)
    requires
        before.wf(),
        before.inodes@.contains_key(ino),
        before.inodes@[ino].nlookup == n,
        forget_outcome(before, after, ino, n),
    ensures
        !after.inodes@.contains_key(ino),
        spec_getattr(after.inodes@, ino) == Err::<Attr, FsError>(FsError::Stale),
{
}

/// A link read by the process that looked it up answers exactly the bytes
/// that the lookup stored.
pub proof fn lemma_readlink_by_maker(
    before: EnvFs,
    after: EnvFs,
    parent: u64,
    name: Seq<u8>,
    pid: i32,
    target: Option<Candidate>,
    e: Entry,
)
    requires
        lookup_outcome(before, after, parent, name, pid, target, Ok(e)),
    ensures
        spec_readlink(after.inodes@, e.attr.ino, pid) == Ok::<(bool, Seq<u8>), FsError>(
            (true, target.unwrap().path@),
        ),
{
}

/// The answer to a read of a link by a process other than its maker, once
/// the link's name has been resolved again for that process.
pub fn readlink_resolved(target: Option<Candidate>) -> (r: Result<Vec<u8>, FsError>)
    ensures
        match target {
            Some(c) => r == Ok::<Vec<u8>, FsError>(c.path),
            None => r == Err::<Vec<u8>, FsError>(FsError::NotFound),
        },
{
    match target {
        Some(c) => Ok(c.path),
        None => Err(FsError::NotFound),
    }
}

} // verus!
