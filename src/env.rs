//! The environment of a requester, as read from `/proc/<pid>/environ` or
//! from the `envp` block of an `execve` in its memory.

use vstd::prelude::*;

use crate::bytes::{
    assignment_of, bytes_eq, copy_bytes, split_assignment, split_at_byte, split_bytes, views,
};

verus! {

pub const NUL: u8 = 0;

/// One `KEY=VALUE` record.
#[derive(Clone, Debug, PartialEq, Eq)]
pub struct EnvVar {
    pub key: Vec<u8>,
    pub value: Vec<u8>,
}

/// The records of an environment, in the order in which they were read.
/// Where a key occurs twice, the later record wins.
#[derive(Clone, Debug, PartialEq, Eq)]
pub struct Environment {
    pub vars: Vec<EnvVar>,
}

impl View for Environment {
    type V = Seq<(Seq<u8>, Seq<u8>)>;

    open spec fn view(&self) -> Seq<(Seq<u8>, Seq<u8>)> {
        self.vars@.map_values(|e: EnvVar| (e.key@, e.value@))
    }
}

/// The value of the last record with key `key`.
pub open spec fn env_lookup(vars: Seq<(Seq<u8>, Seq<u8>)>, key: Seq<u8>) -> Option<Seq<u8>>
    decreases vars.len(),
{
    if vars.len() == 0 {
        None
    } else if vars.last().0 == key {
        Some(vars.last().1)
    } else {
        env_lookup(vars.drop_last(), key)
    }
}

/// The records of `/proc/<pid>/environ` cut into its NUL-separated pieces:
/// each piece with an `=` in it, in order; the others are left out.
pub open spec fn environ_vars(pieces: Seq<Seq<u8>>) -> Seq<(Seq<u8>, Seq<u8>)>
    decreases pieces.len(),
{
    if pieces.len() == 0 {
        Seq::empty()
    } else {
        let init = environ_vars(pieces.drop_last());
        match assignment_of(pieces.last()) {
            Some(kv) => init.push(kv),
            None => init,
        }
    }
}

/// A string read from an `envp` block, without its terminating NUL where
/// the read reached one.
pub open spec fn without_nul(s: Seq<u8>) -> Seq<u8> {
    if s.len() > 0 && s.last() == NUL {
        s.drop_last()
    } else {
        s
    }
}

/// A string of an `envp` block as a record: one without `=` is a key with
/// an empty value.
pub open spec fn mem_var(s: Seq<u8>) -> (Seq<u8>, Seq<u8>) {
    let s = without_nul(s);
    match assignment_of(s) {
        Some(kv) => kv,
        None => (s, Seq::empty()),
    }
}

/// Decides, for each word read from an `envp` array, whether the array goes
/// on: a read of fewer than four bytes or a null pointer ends it.
pub fn env_pointer(bytes_read: usize, word: u64) -> (r: Option<u64>)
    ensures
        r == (if bytes_read < 4 || word == 0 {
            None
        } else {
            Some(word)
        }),
{
    if bytes_read < 4 || word == 0 {
        None
    } else {
        Some(word)
    }
}

impl Environment {
    pub fn new() -> (r: Self)
        ensures
            r@ == Seq::<(Seq<u8>, Seq<u8>)>::empty(),
    {
        let r = Environment { vars: Vec::new() };
        assert(r@ =~= Seq::empty());
        r
    }

    /// Appends a record.
    pub fn push(&mut self, key: Vec<u8>, value: Vec<u8>)
        ensures
            final(self)@ == old(self)@.push((key@, value@)),
    {
        self.vars.push(EnvVar { key, value });
        assert(self@ =~= old(self)@.push((key@, value@)));
    }

    /// Parses the content of `/proc/<pid>/environ`: `KEY=VALUE` records
    /// separated by NUL bytes. A record without `=` is skipped; an empty
    /// content gives an empty environment.
    pub fn parse_environ(data: &[u8]) -> (r: Self)
        ensures
            r@ == environ_vars(split_at_byte(data@, NUL)),
    {
        let pieces = split_bytes(data, NUL);
        let mut env = Environment::new();
        let mut i: usize = 0;
        while i < pieces.len()
            invariant
                i <= pieces@.len(),
                views(pieces@) == split_at_byte(data@, NUL),
                env@ == environ_vars(views(pieces@).take(i as int)),
            decreases pieces.len() - i,
        {
            assert(views(pieces@).take(i + 1).drop_last() =~= views(pieces@).take(i as int));
            assert(views(pieces@).take(i + 1).last() == pieces@[i as int]@);
            match split_assignment(pieces[i].as_slice()) {
                Some((k, v)) => env.push(k, v),
                None => {},
            }
            i += 1;
        }
        assert(views(pieces@).take(i as int) =~= views(pieces@));
        env
    }

    /// The environment of an `envp` block, from its strings as read up to
    /// and including their terminating NUL.
    pub fn from_mem_entries(entries: &Vec<Vec<u8>>) -> (r: Self)
        ensures
            r@ == views(entries@).map_values(|s: Seq<u8>| mem_var(s)),
    {
        let mut env = Environment::new();
        let mut i: usize = 0;
        while i < entries.len()
            invariant
                i <= entries@.len(),
                env@ == views(entries@).take(i as int).map_values(|s: Seq<u8>| mem_var(s)),
            decreases entries.len() - i,
        {
            let e = entries[i].as_slice();
            let body = if e.len() > 0 && e[e.len() - 1] == NUL {
                &e[0..e.len() - 1]
            } else {
                e
            };
            assert(body@ == without_nul(entries@[i as int]@));
            match split_assignment(body) {
                Some((k, v)) => env.push(k, v),
                None => env.push(copy_bytes(body), Vec::new()),
            }
            assert(env@ =~= views(entries@).take(i + 1).map_values(|s: Seq<u8>| mem_var(s)));
            i += 1;
        }
        assert(views(entries@).take(i as int) =~= views(entries@));
        env
    }

    /// The value of the last record whose key is `key`.
    pub fn get(&self, key: &[u8]) -> (r: Option<&Vec<u8>>)
        ensures
            match r {
                Some(v) => env_lookup(self@, key@) == Some(v@),
                None => env_lookup(self@, key@) is None,
            },
    {
        let mut i: usize = self.vars.len();
        assert(self@.take(i as int) =~= self@);
        while i > 0
            invariant
                i <= self.vars@.len(),
                env_lookup(self@, key@) == env_lookup(self@.take(i as int), key@),
            decreases i,
        {
            assert(self@.take(i as int).drop_last() =~= self@.take(i - 1));
            if bytes_eq(self.vars[i - 1].key.as_slice(), key) {
                return Some(&self.vars[i - 1].value);
            }
            i -= 1;
        }
        None
    }

    /// Whether a record with key `key` is present.
    pub fn contains_key(&self, key: &[u8]) -> (r: bool)
        ensures
            r == env_lookup(self@, key@) is Some,
    {
        self.get(key).is_some()
    }
}

} // verus!
