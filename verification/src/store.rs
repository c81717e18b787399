//! In-memory model of the append-only, content-addressed store.
//!
//! Three components, mirroring the store's primitives:
//! - `ContentStore`: immutable records keyed by content address; storing the
//!   same record twice yields the same address.
//! - `LinkIndex`: an append-only edge table.  Edges are only ever added or
//!   tombstoned, never rewritten or removed; a tombstone is an idempotent
//!   flag, not a deletion.
//! - `PathIndex`: the set of discovery buckets created so far, idempotent to
//!   re-create.

use vstd::prelude::*;
use crate::path::BucketKey;
use crate::types::{content_eq, RecurrentEvent};

verus! {

/// A base address an edge can hang off: a discovery bucket or an owner
/// identity.
#[derive(Clone, Copy, PartialEq, Eq, Structural, Debug)]
pub enum LinkBase {
    Bucket(BucketKey),
    Agent(u64),
}

/// The tag carried by an edge: a record title on discovery edges, the fixed
/// current-version marker on owner edges.
#[derive(Clone, Debug)]
pub struct LinkTag(pub String);

/// Builds an edge tag from a string.
pub fn link_tag(tag: &str) -> (t: LinkTag)
    ensures
        t.0@ == tag@,
{
    LinkTag(tag.to_owned())
}

/// A directed, tagged, append-only pointer from a base address to a record,
/// attributed to its author; `tombstoned` marks it dead without removing it.
#[derive(Debug)]
pub struct Edge {
    pub base: LinkBase,
    pub target: u64,
    pub tag: LinkTag,
    pub author: u64,
    pub tombstoned: bool,
}

/// The append-only record store; a record's content address is its index,
/// and equal records collapse to one address.
#[derive(Debug)]
pub struct ContentStore {
    pub records: Vec<RecurrentEvent>,
}

/// The smallest index of a record equal to `r`, if any.
pub open spec fn first_match(rs: Seq<RecurrentEvent>, r: RecurrentEvent) -> Option<int>
    decreases rs.len(),
{
    if rs.len() == 0 {
        None
    } else if content_eq(rs[0], r) {
        Some(0)
    } else {
        match first_match(rs.drop_first(), r) {
            Some(i) => Some(i + 1),
            None => None,
        }
    }
}

pub proof fn lemma_first_match(rs: Seq<RecurrentEvent>, r: RecurrentEvent)
    ensures
        match first_match(rs, r) {
            Some(i) => 0 <= i < rs.len() && content_eq(rs[i], r) && (forall|j: int|
                0 <= j < i ==> !content_eq(rs[j], r)),
            None => forall|j: int| 0 <= j < rs.len() ==> !content_eq(rs[j], r),
        },
    decreases rs.len(),
{
    if rs.len() > 0 && !content_eq(rs[0], r) {
        lemma_first_match(rs.drop_first(), r);
        assert(forall|j: int|
            1 <= j < rs.len() ==> rs[j] == rs.drop_first()[j - 1]);
    }
}

/// The content address `put` hands back for `r` against records `rs`.
pub open spec fn put_addr(rs: Seq<RecurrentEvent>, r: RecurrentEvent) -> int {
    match first_match(rs, r) {
        Some(i) => i,
        None => rs.len() as int,
    }
}

/// The record sequence after a `put` of `r`: unchanged when an equal record
/// is already stored, extended by `r` otherwise.
pub open spec fn put_records(rs: Seq<RecurrentEvent>, r: RecurrentEvent) -> Seq<RecurrentEvent> {
    match first_match(rs, r) {
        Some(_) => rs,
        None => rs.push(r),
    }
}

impl ContentStore {
    /// Stores a record and returns its content address; an equal record
    /// already present is not stored again, its address is returned.
    pub fn put(&mut self, rec: &RecurrentEvent) -> (addr: u64)
        requires
            old(self).records@.len() < u64::MAX,
        ensures
            final(self).records@ == put_records(old(self).records@, *rec),
            addr as int == put_addr(old(self).records@, *rec),
            addr < final(self).records@.len(),
            content_eq(final(self).records@[addr as int], *rec),
    {
        proof {
            lemma_first_match(self.records@, *rec);
        }
        let n = self.records.len();
        let mut i: usize = 0;
        while i < n
            invariant
                n == self.records@.len(),
                i <= n,
                forall|j: int| 0 <= j < i ==> !content_eq(self.records@[j], *rec),
            decreases n - i,
        {
            if self.records[i] == *rec {
                proof {
                    lemma_first_match(self.records@, *rec);
                }
                return i as u64;
            }
            i += 1;
        }
        let addr = self.records.len() as u64;
        self.records.push(rec.clone());
        addr
    }

    /// Dereferences a content address.
    pub fn get(&self, address: u64) -> (r: Option<&RecurrentEvent>)
        ensures
            match r {
                Some(rec) => address < self.records@.len() && *rec == self.records@[address as int],
                None => address >= self.records@.len(),
            },
    {
        if address < self.records.len() as u64 {
            Some(&self.records[address as usize])
        } else {
            None
        }
    }
}

/// The append-only edge table; an edge's id is its index.
#[derive(Debug)]
pub struct LinkIndex {
    pub edges: Vec<Edge>,
}

impl LinkIndex {
    /// Appends a live edge and returns its id.
    pub fn add_edge(&mut self, base: LinkBase, target: u64, tag: LinkTag, author: u64) -> (id:
        u64)
        requires
            old(self).edges@.len() < u64::MAX,
        ensures
            final(self).edges@ == old(self).edges@.push(
                (Edge { base, target, tag, author, tombstoned: false }),
            ),
            id as int == old(self).edges@.len(),
    {
        let id = self.edges.len() as u64;
        self.edges.push(Edge { base, target, tag, author, tombstoned: false });
        id
    }

    /// Marks an edge dead.  Appends nothing and removes nothing; tombstoning
    /// an already-dead edge changes nothing.
    pub fn tombstone_edge(&mut self, id: u64)
        requires
            id < old(self).edges@.len(),
        ensures
            final(self).edges@.len() == old(self).edges@.len(),
            forall|j: int|
                0 <= j < old(self).edges@.len() && j != id ==> final(self).edges@[j] == old(
                    self,
                ).edges@[j],
            final(self).edges@[id as int].base == old(self).edges@[id as int].base,
            final(self).edges@[id as int].target == old(self).edges@[id as int].target,
            final(self).edges@[id as int].tag == old(self).edges@[id as int].tag,
            final(self).edges@[id as int].author == old(self).edges@[id as int].author,
            final(self).edges@[id as int].tombstoned,
    {
        let n = self.edges.len();
        assert(id < n);
        let idx = id as usize;
        let e = &mut self.edges[idx];
        e.tombstoned = true;
    }
}

/// The discovery namespace: the buckets created so far, each at most once.
#[derive(Debug)]
pub struct PathIndex {
    pub buckets: Vec<BucketKey>,
}

/// The bucket list after an idempotent ensure of `b`.
pub open spec fn ensure_spec(bs: Seq<BucketKey>, b: BucketKey) -> Seq<BucketKey> {
    if bs.contains(b) {
        bs
    } else {
        bs.push(b)
    }
}

impl PathIndex {
    /// Creates the bucket if it does not exist yet; re-creating is a no-op.
    pub fn ensure(&mut self, b: BucketKey)
        ensures
            final(self).buckets@ == ensure_spec(old(self).buckets@, b),
    {
        let n = self.buckets.len();
        let mut i: usize = 0;
        while i < n
            invariant
                n == self.buckets@.len(),
                i <= n,
                forall|j: int| 0 <= j < i ==> self.buckets@[j] != b,
            decreases n - i,
        {
            if self.buckets[i] == b {
                assert(self.buckets@.contains(b));
                return ;
            }
            i += 1;
        }
        assert(!self.buckets@.contains(b));
        self.buckets.push(b);
    }
}

/// The whole store a handler works against: records, edges and buckets.
#[derive(Debug)]
pub struct Store {
    pub content: ContentStore,
    pub links: LinkIndex,
    pub paths: PathIndex,
}

impl Store {
    /// Well-formedness: every edge dereferences, every discovery edge hangs
    /// off a created bucket, and no bucket exists twice.
    pub open spec fn wf(self) -> bool {
        &&& forall|j: int|
            0 <= j < self.links.edges@.len() ==> (#[trigger] self.links.edges@[j]).target
                < self.content.records@.len()
        &&& forall|j: int|
            0 <= j < self.links.edges@.len() ==> match (#[trigger] self.links.edges@[j]).base {
                LinkBase::Bucket(b) => self.paths.buckets@.contains(b),
                LinkBase::Agent(_) => true,
            }
        &&& forall|i: int, j: int|
            #![trigger self.paths.buckets@[i], self.paths.buckets@[j]]
            0 <= i < j < self.paths.buckets@.len() ==> self.paths.buckets@[i]
                != self.paths.buckets@[j]
    }

    /// An empty store.
    pub fn new() -> (s: Store)
        ensures
            s.wf(),
            s.content.records@.len() == 0,
            s.links.edges@.len() == 0,
            s.paths.buckets@.len() == 0,
    {
        Store {
            content: ContentStore { records: Vec::new() },
            links: LinkIndex { edges: Vec::new() },
            paths: PathIndex { buckets: Vec::new() },
        }
    }
}

} // verus!
