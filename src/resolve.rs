//! The resolution of a looked-up name for one requester: which `PATH` is
//! searched, with which fallback directories, given what was read from the
//! requester's `/proc` entries.

use vstd::prelude::*;

use crate::bytes::views;
use crate::env::{env_lookup, Environment};
use crate::syscall::{allowed, envp_of, execve_envp, is_allowed, SyscallTable};
use crate::which::{candidates, copy_candidate, searched, which, Candidate, SearchResult};

verus! {

pub open spec fn path_key() -> Seq<u8> {
    seq![0x50u8, 0x41, 0x54, 0x48]
}

fn path_name() -> (r: Vec<u8>)
    ensures
        r@ == path_key(),
{
    let r: Vec<u8> = vec![0x50u8, 0x41, 0x54, 0x48];
    assert(r@ =~= path_key());
    r
}

pub open spec fn env_view(e: Option<&Environment>) -> Option<Seq<(Seq<u8>, Seq<u8>)>> {
    match e {
        Some(e) => Some(e@),
        None => None,
    }
}

/// The `PATH` of the new image when the requester is in an exec whose
/// `envp` register the syscall line holds, and its `envp` block could be
/// read.
pub open spec fn exec_path(
    args: Seq<usize>,
    table: SyscallTable,
    mem_env: Option<Seq<(Seq<u8>, Seq<u8>)>>,
) -> Option<Seq<u8>> {
    if envp_of(args, table) is Some {
        match mem_env {
            Some(me) => env_lookup(me, path_key()),
            None => None,
        }
    } else {
        None
    }
}

/// The requester's own `PATH` where its system call allows a resolution,
/// else the empty string.
pub open spec fn caller_path(
    args: Seq<usize>,
    table: SyscallTable,
    env: Seq<(Seq<u8>, Seq<u8>)>,
) -> Seq<u8> {
    if args.len() > 0 && allowed(args[0], table, env) {
        match env_lookup(env, path_key()) {
            Some(p) => p,
            None => Seq::empty(),
        }
    } else {
        Seq::empty()
    }
}

/// The two searches of a resolution: first the exec's fresh `PATH`
/// without fallback directories, where there is one; then `path` followed
/// by the fallback directories.
pub struct SearchPaths {
    pub exec_path: Option<Vec<u8>>,
    pub path: Vec<u8>,
}

/// Decides which `PATH` strings a resolution searches, from the
/// requester's environment `env`, its parsed `/proc/<pid>/syscall` line
/// `args`, and the environment read from its `envp` block, if any.
pub fn search_paths(
    env: &Environment,
    args: &Vec<usize>,
    mem_env: Option<&Environment>,
    table: &SyscallTable,
) -> (r: SearchPaths)
    ensures
        match r.exec_path {
            Some(p) => exec_path(args@, *table, env_view(mem_env)) == Some(p@),
            None => exec_path(args@, *table, env_view(mem_env)) is None,
        },
        r.path@ == caller_path(args@, *table, env@),
{
    let key = path_name();
    let mut exec: Option<Vec<u8>> = None;
    if execve_envp(args, table).is_some() {
        match mem_env {
            Some(me) => match me.get(key.as_slice()) {
                Some(p) => {
                    let p2 = p.clone();
                    assert(p2@ =~= p@);
                    exec = Some(p2);
                },
                None => {},
            },
            None => {},
        }
    }
    let mut path: Vec<u8> = Vec::new();
    if args.len() > 0 && is_allowed(args[0], table, env) {
        match env.get(key.as_slice()) {
            Some(p) => {
                path = p.clone();
                assert(path@ =~= p@);
            },
            None => {},
        }
    }
    assert(path@ =~= caller_path(args@, *table, env@));
    SearchPaths { exec_path: exec, path }
}

/// The answer of a resolution: a hit of the exec's fresh `PATH` wins;
/// otherwise the requester's own search decides.
pub fn pick_resolution(exec_hit: Option<Candidate>, caller_hit: Option<Candidate>) -> (r: Option<
    Candidate,
>)
    ensures
        r == (if exec_hit is Some {
            exec_hit
        } else {
            caller_hit
        }),
{
    match exec_hit {
        Some(c) => Some(c),
        None => caller_hit,
    }
}

/// A resolution: the search of the exec's fresh `PATH`, where one was made,
/// the search of the requester's own `PATH` and the fallback directories,
/// where one was made, and the target found.
#[derive(Clone, Debug, PartialEq, Eq)]
pub struct Resolution {
    pub exec_search: Option<SearchResult>,
    pub caller_search: Option<SearchResult>,
    pub target: Option<Candidate>,
}

pub open spec fn candidate_view(c: Option<Candidate>) -> Option<(Seq<u8>, Seq<u8>, bool)> {
    match c {
        Some(c) => Some(c@),
        None => None,
    }
}

fn copy_found(s: &Option<SearchResult>) -> (r: Option<Candidate>)
    ensures
        candidate_view(r) == candidate_view(found_of(*s)),
{
    match s {
        Some(s) => match &s.found {
            Some(c) => Some(copy_candidate(c)),
            None => None,
        },
        None => None,
    }
}

pub open spec fn found_of(s: Option<SearchResult>) -> Option<Candidate> {
    match s {
        Some(s) => s.found,
        None => None,
    }
}

/// What a resolution of `name` is, given the requester's environment
/// `env`, its syscall line `args` and the environment of its `envp` block.
/// With no system call read, nothing is searched. In an exec whose `envp`
/// holds a `PATH`, that `PATH` is searched first, without fallback
/// directories. Where that search was not made or found nothing, the
/// requester's own `PATH` (empty where its system call does not allow a
/// resolution) is searched, then the fallback directories, which are
/// trusted whatever the call. A hit of the first search is the target;
/// otherwise the second search's hit is.
pub open spec fn resolution_of(
    name: Seq<u8>,
    env: Seq<(Seq<u8>, Seq<u8>)>,
    args: Seq<usize>,
    mem_env: Option<Seq<(Seq<u8>, Seq<u8>)>>,
    table: SyscallTable,
    fallback_dirs: Seq<Seq<u8>>,
    mounts: Seq<Seq<u8>>,
    r: Resolution,
) -> bool {
    if args.len() == 0 {
        r.exec_search is None && r.caller_search is None && r.target is None
    } else {
        &&& match exec_path(args, table, mem_env) {
            Some(p) => r.exec_search is Some && searched(
                candidates(p, name, Seq::empty(), mounts),
                r.exec_search.unwrap().outcomes@,
                r.exec_search.unwrap().found,
            ),
            None => r.exec_search is None,
        }
        &&& if found_of(r.exec_search) is Some {
            r.caller_search is None
        } else {
            r.caller_search is Some && searched(
                candidates(caller_path(args, table, env), name, fallback_dirs, mounts),
                r.caller_search.unwrap().outcomes@,
                r.caller_search.unwrap().found,
            )
        }
        &&& candidate_view(r.target) == (if found_of(r.exec_search) is Some {
            candidate_view(found_of(r.exec_search))
        } else {
            candidate_view(found_of(r.caller_search))
        })
    }
}

/// Resolves `name` for a requester: see `resolution_of`.
pub fn resolve_target(
    name: &[u8],
    env: &Environment,
    args: &Vec<usize>,
    mem_env: Option<&Environment>,
    table: &SyscallTable,
    fallback_dirs: &Vec<Vec<u8>>,
    mounts: &Vec<Vec<u8>>,
) -> (r: Resolution)
    ensures
        resolution_of(
            name@,
            env@,
            args@,
            env_view(mem_env),
            *table,
            views(fallback_dirs@),
            views(mounts@),
            r,
        ),
{
    if args.len() == 0 {
        return Resolution { exec_search: None, caller_search: None, target: None };
    }
    let paths = search_paths(env, args, mem_env, table);
    let exec_search = match paths.exec_path {
        Some(p) => {
            let none: Vec<Vec<u8>> = Vec::new();
            assert(views(none@) =~= Seq::empty());
            Some(which(p.as_slice(), name, &none, mounts))
        },
        None => None,
    };
    let exec_hit = copy_found(&exec_search);
    let caller_search = if exec_hit.is_some() {
        None
    } else {
        Some(which(paths.path.as_slice(), name, fallback_dirs, mounts))
    };
    let caller_hit = copy_found(&caller_search);
    let target = pick_resolution(exec_hit, caller_hit);
    Resolution { exec_search, caller_search, target }
}

} // verus!
