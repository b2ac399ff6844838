//! Inode records, the counter that issues their numbers, and the table that
//! holds them while the kernel references them.

use std::collections::HashMap;
use vstd::prelude::*;

verus! {

broadcast use vstd::std_specs::hash::group_hash_axioms;

/// The inode number of the root directory.
pub const FUSE_ROOT_ID: u64 = 1;

#[derive(Clone, Copy, Debug, PartialEq, Eq, Structural)]
pub enum FileKind {
    Directory,
    Symlink,
}

/// A symbolic link handed out by a lookup. All but `nlookup` stay as they
/// were made.
#[derive(Clone, Debug, PartialEq, Eq)]
pub struct Inode {
    pub ino: u64,
    /// The name that was looked up.
    pub name: Vec<u8>,
    /// The executable that the link points to.
    pub path: Vec<u8>,
    /// The process that made the lookup.
    pub pid: i32,
    pub kind: FileKind,
    /// Whether `path` lies in a fallback directory rather than on the
    /// requester's `PATH`.
    pub fallback_path: bool,
    /// How many references the kernel holds.
    pub nlookup: u64,
}

/// Issues `(ino, generation)` pairs. Numbers run up from 3; once the last
/// `u64` has been issued they start again at 2 in the next generation.
#[derive(Clone, Copy, Debug, PartialEq, Eq, Structural)]
pub struct InodeCounter {
    pub next_number: u64,
    pub generation: u64,
}

impl InodeCounter {
    pub open spec fn wf(self) -> bool {
        self.next_number > FUSE_ROOT_ID
    }

    /// Every pair has been issued: the generation cannot advance further.
    pub open spec fn exhausted(self) -> bool {
        self.next_number == u64::MAX && self.generation == u64::MAX
    }

    /// The counter once it has issued its current pair.
    pub open spec fn step(self) -> InodeCounter {
        if self.next_number == u64::MAX {
            InodeCounter { next_number: (FUSE_ROOT_ID + 1) as u64, generation: (self.generation + 1) as u64 }
        } else {
            InodeCounter { next_number: (self.next_number + 1) as u64, generation: self.generation }
        }
    }

    /// The place of the current pair in the order of issue.
    pub open spec fn position(self) -> int {
        self.generation * 0x1_0000_0000_0000_0000 + self.next_number
    }

    pub open spec fn initial() -> InodeCounter {
        InodeCounter { next_number: 3, generation: 0 }
    }

    pub fn new() -> (r: Self)
        ensures
            r == InodeCounter::initial(),
            r.wf(),
    {
        InodeCounter { next_number: 3, generation: 0 }
    }

    /// Issues the next `(ino, generation)` pair; `None` once every pair has
    /// been issued.
    pub fn allocate(&mut self) -> (r: Option<(u64, u64)>)
        requires
            old(self).wf(),
        ensures
            final(self).wf(),
            old(self).exhausted() ==> r is None && *final(self) == *old(self),
            !old(self).exhausted() ==> r == Some((old(self).next_number, old(self).generation))
                && *final(self) == old(self).step(),
    {
        let number = self.next_number;
        let generation = self.generation;
        if number == u64::MAX {
            if generation == u64::MAX {
                return None;
            }
            self.next_number = FUSE_ROOT_ID + 1;
            self.generation = generation + 1;
        } else {
            self.next_number = number + 1;
        }
        Some((number, generation))
    }
}

/// The counter after `k` allocations from its initial state.
pub open spec fn counter_after(k: nat) -> InodeCounter
    decreases k,
{
    if k == 0 {
        InodeCounter::initial()
    } else {
        let c = counter_after((k - 1) as nat);
        if c.exhausted() {
            c
        } else {
            c.step()
        }
    }
}

/// The pair that allocation number `k` (counting from zero) hands out.
pub open spec fn issued(k: nat) -> (u64, u64) {
    (counter_after(k).next_number, counter_after(k).generation)
}

proof fn lemma_positions_increase(j: nat, k: nat)
    requires
        j < k,
        !counter_after(k).exhausted(),
    ensures
        !counter_after(j).exhausted(),
        counter_after(j).position() < counter_after(k).position(),
    decreases k,
{
    let c = counter_after((k - 1) as nat);
    assert(!c.exhausted());
    assert(c.position() < c.step().position());
    if j < k - 1 {
        lemma_positions_increase(j, (k - 1) as nat);
    }
}

/// No two allocations hand out the same `(ino, generation)` pair, as long
/// as the counter has not run out.
pub proof fn lemma_issued_pairs_unique(j: nat, k: nat)
    requires
        j < k,
        !counter_after(k).exhausted(),
    ensures
        issued(j) != issued(k),
{
    lemma_positions_increase(j, k);
}

/// The number of partitions of the inode table.
pub const PARTITIONS: usize = 16;

/// The partition that holds inode `ino`; it never changes.
pub open spec fn partition_of(ino: u64) -> int {
    (ino % PARTITIONS as u64) as int
}

fn partition_index(ino: u64) -> (r: usize)
    ensures
        r == partition_of(ino),
        r < PARTITIONS,
{
    (ino % PARTITIONS as u64) as usize
}

/// The inodes that the kernel references, keyed by number and spread over
/// partitions by number.
pub struct InodeTable {
    partitions: Vec<HashMap<u64, Inode>>,
}

impl InodeTable {
    /// Each key sits in the partition of its number.
    pub closed spec fn wf(&self) -> bool {
        &&& self.partitions@.len() == PARTITIONS
        &&& forall|i: int, k: u64|
            0 <= i < PARTITIONS && #[trigger] self.partitions@[i]@.contains_key(k) ==> partition_of(
                k,
            ) == i
    }

    pub closed spec fn view(&self) -> Map<u64, Inode> {
        Map::new(
            |k: u64| self.partitions@[partition_of(k)]@.contains_key(k),
            |k: u64| self.partitions@[partition_of(k)]@[k],
        )
    }

    pub fn new() -> (r: Self)
        ensures
            r.wf(),
            r@ == Map::<u64, Inode>::empty(),
    {
        let mut partitions: Vec<HashMap<u64, Inode>> = Vec::new();
        let mut i: usize = 0;
        while i < PARTITIONS
            invariant
                i <= PARTITIONS,
                partitions@.len() == i,
                forall|j: int| 0 <= j < i ==> (#[trigger] partitions@[j])@ == Map::<u64, Inode>::empty(),
            decreases PARTITIONS - i,
        {
            partitions.push(HashMap::new());
            i += 1;
        }
        let r = InodeTable { partitions };
        assert(r@ =~= Map::<u64, Inode>::empty());
        r
    }

    /// The inode numbered `ino`, if present.
    pub fn find(&self, ino: u64) -> (r: Option<&Inode>)
        requires
            self.wf(),
        ensures
            match r {
                Some(v) => self@.contains_key(ino) && *v == self@[ino],
                None => !self@.contains_key(ino),
            },
    {
        let p = partition_index(ino);
        self.partitions[p].get(&ino)
    }

    /// Stores `inode` under `ino` and hands back what was there.
    pub fn insert(&mut self, ino: u64, inode: Inode) -> (r: Option<Inode>)
        requires
            old(self).wf(),
        ensures
            final(self).wf(),
            final(self)@ == old(self)@.insert(ino, inode),
            match r {
                Some(v) => old(self)@.contains_key(ino) && v == old(self)@[ino],
                None => !old(self)@.contains_key(ino),
            },
    {
        let p = partition_index(ino);
        let r = self.partitions[p].insert(ino, inode);
        assert(self@ =~= old(self)@.insert(ino, inode));
        r
    }

    /// Takes the inode numbered `ino` out of the table.
    pub fn remove(&mut self, ino: u64) -> (r: Option<Inode>)
        requires
            old(self).wf(),
        ensures
            final(self).wf(),
            final(self)@ == old(self)@.remove(ino),
            match r {
                Some(v) => old(self)@.contains_key(ino) && v == old(self)@[ino],
                None => !old(self)@.contains_key(ino),
            },
    {
        let p = partition_index(ino);
        let r = self.partitions[p].remove(&ino);
        assert(self@ =~= old(self)@.remove(ino));
        r
    }

    /// Empties every partition.
    pub fn clear(&mut self)
        requires
            old(self).wf(),
        ensures
            final(self).wf(),
            final(self)@ == Map::<u64, Inode>::empty(),
    {
        let mut i: usize = 0;
        while i < PARTITIONS
            invariant
                i <= PARTITIONS,
                self.wf(),
                forall|j: int| 0 <= j < i ==> (#[trigger] self.partitions@[j])@ == Map::<u64, Inode>::empty(),
            decreases PARTITIONS - i,
        {
            self.partitions[i].clear();
            i += 1;
        }
        assert(self@ =~= Map::<u64, Inode>::empty());
    }
}

/// Storing `v` under `ino` and then finding `ino` gives `v`.
pub proof fn lemma_insert_then_find(before: InodeTable, after: InodeTable, ino: u64, v: Inode)
    requires
        after@ == before@.insert(ino, v),
    ensures
        after@.contains_key(ino),
        after@[ino] == v,
{
}

/// Storing an inode under `ino`, then removing `ino`, leaves nothing to
/// find under `ino`.
pub proof fn lemma_insert_remove_then_find(
    before: InodeTable,
    stored: InodeTable,
    after: InodeTable,
    ino: u64,
    v: Inode,
)
    requires
        stored@ == before@.insert(ino, v),
        after@ == stored@.remove(ino),
    ensures
        !after@.contains_key(ino),
{
}

} // verus!
