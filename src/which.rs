//! The search for an executable along a `PATH`, then along the configured
//! fallback directories, skipping every directory that this filesystem
//! serves itself.

use vstd::prelude::*;

use crate::bytes::{copy_bytes, split_at_byte, split_bytes, views};

verus! {

pub const SLASH: u8 = 0x2f;

pub const COLON: u8 = 0x3a;

/// The link count that the root directory of this filesystem reports; a
/// directory that shows it is one of ours.
pub const ENVFS_MAGIC: u32 = 0xc7653a76;

/// `d` is the mountpoint `m` or lies below it.
pub open spec fn under_mount(m: Seq<u8>, d: Seq<u8>) -> bool {
    &&& m.len() > 0
    &&& m.len() <= d.len()
    &&& d.take(m.len() as int) == m
    &&& (d.len() == m.len() || m.last() == SLASH || d[m.len() as int] == SLASH)
}

pub open spec fn served(d: Seq<u8>, mounts: Seq<Seq<u8>>) -> bool {
    exists|i: int| 0 <= i < mounts.len() && under_mount(mounts[i], d)
}

/// A directory is searched unless it is empty or served by this filesystem.
pub open spec fn searchable(d: Seq<u8>, mounts: Seq<Seq<u8>>) -> bool {
    d.len() > 0 && !served(d, mounts)
}

/// `name` inside the directory `d`.
pub open spec fn join_name(d: Seq<u8>, name: Seq<u8>) -> Seq<u8> {
    if d.len() > 0 && d.last() == SLASH {
        d + name
    } else {
        d.push(SLASH) + name
    }
}

/// A place where an executable may be found: the directory searched, the
/// full path probed in it, and whether the directory is a fallback one.
#[derive(Clone, Debug, PartialEq, Eq)]
pub struct Candidate {
    pub dir: Vec<u8>,
    pub path: Vec<u8>,
    pub fallback: bool,
}

impl View for Candidate {
    type V = (Seq<u8>, Seq<u8>, bool);

    open spec fn view(&self) -> (Seq<u8>, Seq<u8>, bool) {
        (self.dir@, self.path@, self.fallback)
    }
}

/// A copy of `c`.
pub fn copy_candidate(c: &Candidate) -> (r: Candidate)
    ensures
        r@ == c@,
{
    Candidate { dir: copy_bytes(c.dir.as_slice()), path: copy_bytes(c.path.as_slice()), fallback: c.fallback }
}

/// The candidates of the directories `dirs`, in order.
pub open spec fn dir_candidates(
    dirs: Seq<Seq<u8>>,
    name: Seq<u8>,
    mounts: Seq<Seq<u8>>,
    fallback: bool,
) -> Seq<(Seq<u8>, Seq<u8>, bool)>
    decreases dirs.len(),
{
    if dirs.len() == 0 {
        Seq::empty()
    } else {
        let init = dir_candidates(dirs.drop_last(), name, mounts, fallback);
        if searchable(dirs.last(), mounts) {
            init.push((dirs.last(), join_name(dirs.last(), name), fallback))
        } else {
            init
        }
    }
}

/// Every place probed for `name`, in the order of probing: the directories
/// of the colon-separated `path_env`, then the fallback directories.
pub open spec fn candidates(
    path_env: Seq<u8>,
    name: Seq<u8>,
    fallback_dirs: Seq<Seq<u8>>,
    mounts: Seq<Seq<u8>>,
) -> Seq<(Seq<u8>, Seq<u8>, bool)> {
    dir_candidates(split_at_byte(path_env, COLON), name, mounts, false) + dir_candidates(
        fallback_dirs,
        name,
        mounts,
        true,
    )
}

/// Whether `d` is the mountpoint `m` or lies below it.
pub fn is_under_mount(m: &[u8], d: &[u8]) -> (r: bool)
    ensures
        r == under_mount(m@, d@),
{
    if m.len() == 0 || m.len() > d.len() {
        return false;
    }
    let mut i: usize = 0;
    while i < m.len()
        invariant
            0 < m.len() <= d.len(),
            i <= m.len(),
            forall|j: int| 0 <= j < i ==> m@[j] == d@[j],
        decreases m.len() - i,
    {
        if m[i] != d[i] {
            assert(d@.take(m.len() as int)[i as int] != m@[i as int]);
            return false;
        }
        i += 1;
    }
    assert(d@.take(m.len() as int) =~= m@);
    d.len() == m.len() || m[m.len() - 1] == SLASH || d[m.len()] == SLASH
}

/// Whether `d` is one of the mountpoints or lies below one of them.
pub fn is_served(d: &[u8], mounts: &Vec<Vec<u8>>) -> (r: bool)
    ensures
        r == served(d@, views(mounts@)),
{
    let mut i: usize = 0;
    while i < mounts.len()
        invariant
            i <= mounts@.len(),
            forall|j: int| 0 <= j < i ==> !under_mount(views(mounts@)[j], d@),
        decreases mounts.len() - i,
    {
        if is_under_mount(mounts[i].as_slice(), d) {
            assert(under_mount(views(mounts@)[i as int], d@));
            return true;
        }
        i += 1;
    }
    false
}

/// The path of `name` inside `dir`.
pub fn join(dir: &[u8], name: &[u8]) -> (r: Vec<u8>)
    ensures
        r@ == join_name(dir@, name@),
{
    let mut r: Vec<u8> = Vec::new();
    let mut i: usize = 0;
    while i < dir.len()
        invariant
            i <= dir.len(),
            r@ == dir@.take(i as int),
        decreases dir.len() - i,
    {
        r.push(dir[i]);
        assert(r@ =~= dir@.take(i + 1));
        i += 1;
    }
    assert(dir@.take(i as int) =~= dir@);
    if !(dir.len() > 0 && dir[dir.len() - 1] == SLASH) {
        r.push(SLASH);
    }
    let ghost base = r@;
    let mut j: usize = 0;
    while j < name.len()
        invariant
            j <= name.len(),
            r@ == base + name@.take(j as int),
        decreases name.len() - j,
    {
        r.push(name[j]);
        assert(r@ =~= base + name@.take(j + 1));
        j += 1;
    }
    assert(name@.take(j as int) =~= name@);
    r
}

fn push_candidates(
    out: &mut Vec<Candidate>,
    dirs: &Vec<Vec<u8>>,
    name: &[u8],
    mounts: &Vec<Vec<u8>>,
    fallback: bool,
)
    ensures
        final(out)@.map_values(|c: Candidate| c@) == old(out)@.map_values(|c: Candidate| c@)
            + dir_candidates(views(dirs@), name@, views(mounts@), fallback),
{
    let ghost start = old(out)@.map_values(|c: Candidate| c@);
    let mut i: usize = 0;
    while i < dirs.len()
        invariant
            i <= dirs@.len(),
            out@.map_values(|c: Candidate| c@) == start + dir_candidates(
                views(dirs@).take(i as int),
                name@,
                views(mounts@),
                fallback,
            ),
        decreases dirs.len() - i,
    {
        let d = dirs[i].as_slice();
        let ghost prefix = views(dirs@).take(i + 1);
        assert(prefix.drop_last() =~= views(dirs@).take(i as int));
        assert(prefix.last() == d@);
        if d.len() > 0 && !is_served(d, mounts) {
            let path = join(d, name);
            let dir = dirs[i].clone();
            assert(dir@ =~= d@);
            let ghost before = out@.map_values(|c: Candidate| c@);
            out.push(Candidate { dir, path, fallback });
            assert(out@.map_values(|c: Candidate| c@) =~= before.push((d@, path@, fallback)));
            assert(dir_candidates(prefix, name@, views(mounts@), fallback) == dir_candidates(
                views(dirs@).take(i as int),
                name@,
                views(mounts@),
                fallback,
            ).push((d@, join_name(d@, name@), fallback)));
            assert(out@.map_values(|c: Candidate| c@) =~= start + dir_candidates(
                prefix,
                name@,
                views(mounts@),
                fallback,
            ));
        }
        i += 1;
    }
    assert(views(dirs@).take(i as int) =~= views(dirs@));
}

/// Every place that a search for `name` probes, in order: each directory of
/// the colon-separated `path_env`, then each fallback directory, leaving out
/// empty entries and directories that lie at or below a mountpoint of this
/// filesystem.
pub fn search_candidates(
    path_env: &[u8],
    name: &[u8],
    fallback_dirs: &Vec<Vec<u8>>,
    mounts: &Vec<Vec<u8>>,
) -> (r: Vec<Candidate>)
    ensures
        r@.map_values(|c: Candidate| c@) == candidates(
            path_env@,
            name@,
            views(fallback_dirs@),
            views(mounts@),
        ),
{
    let mut out: Vec<Candidate> = Vec::new();
    let dirs = split_bytes(path_env, COLON);
    assert(out@.map_values(|c: Candidate| c@) =~= Seq::empty());
    push_candidates(&mut out, &dirs, name, mounts, false);
    push_candidates(&mut out, fallback_dirs, name, mounts, true);
    assert(out@.map_values(|c: Candidate| c@) =~= candidates(
        path_env@,
        name@,
        views(fallback_dirs@),
        views(mounts@),
    ));
    out
}

/// Whether a link count read from a directory marks it as served by this
/// filesystem; the count is compared in its low 32 bits.
pub fn is_envfs_link_count(nlink: u64) -> (r: bool)
    ensures
        r == (nlink % 0x1_0000_0000 == ENVFS_MAGIC as nat),
{
    nlink % 0x1_0000_0000 == ENVFS_MAGIC as u64
}

/// Relies on nix::sys::stat::lstat: the link count of the entry at `path`,
/// a final symbolic link not followed; `None` where it cannot be read.
#[verifier::external_body]
fn link_count(path: &[u8]) -> Option<u64> {
    nix::sys::stat::lstat(path).ok().map(|st| st.st_nlink as u64)
}

/// Relies on nix::unistd::access with `X_OK`: whether the caller may
/// execute the file at `path`.
#[verifier::external_body]
fn executable(path: &[u8]) -> bool {
    nix::unistd::access(path, nix::unistd::AccessFlags::X_OK).is_ok()
}

/// Whether a link count read from a directory, if one could be read, marks
/// the directory as served by this filesystem.
pub open spec fn served_by_link_count(link_count: Option<u64>) -> bool {
    link_count is Some && link_count.unwrap() % 0x1_0000_0000 == ENVFS_MAGIC as nat
}

/// The decision on one probed candidate: its directory's link count, where
/// `lstat` gave one, must not be this filesystem's, and its path must be
/// executable.
pub fn is_usable(link_count: Option<u64>, executable: bool) -> (r: bool)
    ensures
        r == (executable && !served_by_link_count(link_count)),
{
    match link_count {
        Some(n) => executable && !is_envfs_link_count(n),
        None => executable,
    }
}

/// The position of the first `true` among `outcomes`; `None` where all are
/// `false`.
pub fn first_usable(outcomes: &Vec<bool>) -> (r: Option<usize>)
    ensures
        match r {
            Some(k) => {
                &&& k < outcomes@.len()
                &&& outcomes@[k as int]
                &&& forall|j: int| 0 <= j < k ==> !outcomes@[j]
            },
            None => forall|j: int| 0 <= j < outcomes@.len() ==> !outcomes@[j],
        },
{
    let mut i: usize = 0;
    while i < outcomes.len()
        invariant
            i <= outcomes@.len(),
            forall|j: int| 0 <= j < i ==> !outcomes@[j],
        decreases outcomes.len() - i,
    {
        if outcomes[i] {
            return Some(i);
        }
        i += 1;
    }
    None
}

/// A search: what each probed candidate came to, in order of probing, and
/// the candidate found.
#[derive(Clone, Debug, PartialEq, Eq)]
pub struct SearchResult {
    pub outcomes: Vec<bool>,
    pub found: Option<Candidate>,
}

/// `outcomes` and `found` are what a search over `cands` gives: the
/// candidates are probed in order until one is usable; the first usable
/// candidate is found, and nothing is found only when every candidate was
/// probed and none was usable.
pub open spec fn searched(
    cands: Seq<(Seq<u8>, Seq<u8>, bool)>,
    outcomes: Seq<bool>,
    found: Option<Candidate>,
) -> bool {
    &&& outcomes.len() <= cands.len()
    &&& forall|j: int| 0 <= j < outcomes.len() - 1 ==> !outcomes[j]
    &&& match found {
        Some(c) => {
            &&& outcomes.len() > 0
            &&& outcomes.last()
            &&& c@ == cands[outcomes.len() - 1]
        },
        None => {
            &&& outcomes.len() == cands.len()
            &&& forall|j: int| 0 <= j < outcomes.len() ==> !outcomes[j]
        },
    }
}

/// Probes one candidate on disk. The directory's link count is read first;
/// a directory served by this filesystem is not probed further, so that a
/// search never recurses into it.
fn probe(c: &Candidate) -> bool {
    let count = link_count(c.dir.as_slice());
    let exe = match count {
        Some(n) => if is_envfs_link_count(n) {
            false
        } else {
            executable(c.path.as_slice())
        },
        None => executable(c.path.as_slice()),
    };
    is_usable(count, exe)
}

/// Searches `name` in the directories of `path_env`, then in the fallback
/// directories. The candidates of `search_candidates` are probed in order:
/// a candidate is usable when its directory does not show this
/// filesystem's link count and its path is executable. The first usable
/// one is found; the outcome of each probe is recorded.
pub fn which(path_env: &[u8], name: &[u8], fallback_dirs: &Vec<Vec<u8>>, mounts: &Vec<Vec<u8>>) -> (r:
    SearchResult)
    ensures
        searched(
            candidates(path_env@, name@, views(fallback_dirs@), views(mounts@)),
            r.outcomes@,
            r.found,
        ),
{
    let mut cands = search_candidates(path_env, name, fallback_dirs, mounts);
    let ghost all = cands@.map_values(|c: Candidate| c@);
    let mut outcomes: Vec<bool> = Vec::new();
    let mut hit = false;
    let mut i: usize = 0;
    while i < cands.len() && !hit
        invariant
            i <= cands@.len(),
            outcomes@.len() == i,
            !hit ==> forall|j: int| 0 <= j < i ==> !outcomes@[j],
            hit ==> i > 0 && outcomes@[i - 1] && forall|j: int| 0 <= j < i - 1 ==> !outcomes@[j],
            cands@.map_values(|c: Candidate| c@) == all,
            all == candidates(path_env@, name@, views(fallback_dirs@), views(mounts@)),
        decreases cands.len() - i,
    {
        let ok = probe(&cands[i]);
        outcomes.push(ok);
        hit = ok;
        i += 1;
    }
    match first_usable(&outcomes) {
        Some(k) => {
            assert(hit);
            assert(k == outcomes@.len() - 1);
            assert(all[k as int] == cands@[k as int]@);
            let c = cands.remove(k);
            SearchResult { outcomes, found: Some(c) }
        },
        None => SearchResult { outcomes, found: None },
    }
}

} // verus!
