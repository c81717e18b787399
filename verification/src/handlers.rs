//! Create, update and list-all over the store model.
//!
//! `create` installs a record plus its two index edges without looking at
//! prior state; duplicate creates are allowed.  `update` is the
//! reconciliation path: it first tombstones every stale edge it can see (the
//! owner's discovery edges in the new bucket and all of the owner's
//! current-version edges, however many a prior partial run left behind), and
//! only then installs the new edges.  The cleanup and install phases are
//! public on their own so the interleavings of two racing updates can be
//! exercised and reasoned about step by step.

use vstd::prelude::*;
use crate::path::{bucket_of, prefix_path, BucketKey};
use crate::store::{ensure_spec, link_tag, put_addr, put_records, Edge, LinkBase, LinkTag, Store};
use crate::types::{content_eq, AgentRecurrentEvent, RecurrentEvent};

verus! {

/// The fixed tag that marks an owner's current-version edge.
pub open spec fn current_tag() -> Seq<char> {
    "current"@
}

/// Field-wise description of an edge.
pub open spec fn edge_is(
    e: Edge,
    base: LinkBase,
    target: u64,
    tag: Seq<char>,
    author: u64,
    tombstoned: bool,
) -> bool {
    &&& e.base == base
    &&& e.target == target
    &&& e.tag.0@ == tag
    &&& e.author == author
    &&& e.tombstoned == tombstoned
}

/// Equal in everything but the tombstone flag.
pub open spec fn edge_eq_sans_tomb(a: Edge, b: Edge) -> bool {
    &&& a.base == b.base
    &&& a.target == b.target
    &&& a.tag == b.tag
    &&& a.author == b.author
}

/// A live current-version edge of owner `agent`.
pub open spec fn is_live_current(e: Edge, agent: u64) -> bool {
    &&& e.base == LinkBase::Agent(agent)
    &&& e.tag.0@ == current_tag()
    &&& !e.tombstoned
}

/// A live discovery edge hanging off bucket `b`.
pub open spec fn is_live_discovery(e: Edge, b: BucketKey) -> bool {
    e.base == LinkBase::Bucket(b) && !e.tombstoned
}

/// Which edges `update`'s cleanup pass tombstones when `agent` installs into
/// bucket `b`: the agent's own discovery edges in that bucket, and every
/// current-version edge of the agent.
pub open spec fn stale_for(e: Edge, agent: u64, b: BucketKey) -> bool {
    ||| (e.base == LinkBase::Bucket(b) && e.author == agent)
    ||| (e.base == LinkBase::Agent(agent) && e.tag.0@ == current_tag())
}

/// How `create` changes the store: the record is stored (deduplicated by
/// content), its bucket is ensured, and exactly a live discovery edge and a
/// live current-version edge are appended; nothing else moves.
pub open spec fn create_transition(
    pre: Store,
    post: Store,
    agent: u64,
    r: RecurrentEvent,
    addr: u64,
) -> bool {
    let b = bucket_of(r.title@);
    let n = pre.links.edges@.len() as int;
    &&& addr as int == put_addr(pre.content.records@, r)
    &&& post.content.records@ == put_records(pre.content.records@, r)
    &&& post.paths.buckets@ == ensure_spec(pre.paths.buckets@, b)
    &&& post.links.edges@.len() == n + 2
    &&& forall|j: int| 0 <= j < n ==> (#[trigger] post.links.edges@[j]) == pre.links.edges@[j]
    &&& edge_is(post.links.edges@[n], LinkBase::Bucket(b), addr, r.title@, agent, false)
    &&& edge_is(post.links.edges@[n + 1], LinkBase::Agent(agent), addr, current_tag(), agent, false)
}

/// How `update`'s cleanup phase changes the store: the record is stored, its
/// bucket ensured, and every stale edge is tombstoned in place; no edge is
/// added or removed.
pub open spec fn cleanup_transition(
    pre: Store,
    post: Store,
    agent: u64,
    r: RecurrentEvent,
    addr: u64,
) -> bool {
    let b = bucket_of(r.title@);
    &&& addr as int == put_addr(pre.content.records@, r)
    &&& post.content.records@ == put_records(pre.content.records@, r)
    &&& post.paths.buckets@ == ensure_spec(pre.paths.buckets@, b)
    &&& post.links.edges@.len() == pre.links.edges@.len()
    &&& forall|j: int|
        0 <= j < pre.links.edges@.len() ==> edge_eq_sans_tomb(
            #[trigger] post.links.edges@[j],
            pre.links.edges@[j],
        )
    &&& forall|j: int|
        0 <= j < pre.links.edges@.len() ==> (#[trigger] post.links.edges@[j]).tombstoned == (
        pre.links.edges@[j].tombstoned || stale_for(pre.links.edges@[j], agent, b))
}

/// How `update`'s install phase changes the store: exactly the new discovery
/// edge and the new current-version edge are appended, both live.
pub open spec fn install_transition(
    pre: Store,
    post: Store,
    agent: u64,
    r: RecurrentEvent,
    addr: u64,
) -> bool {
    let b = bucket_of(r.title@);
    let n = pre.links.edges@.len() as int;
    &&& post.content == pre.content
    &&& post.paths == pre.paths
    &&& post.links.edges@.len() == n + 2
    &&& forall|j: int| 0 <= j < n ==> (#[trigger] post.links.edges@[j]) == pre.links.edges@[j]
    &&& edge_is(post.links.edges@[n], LinkBase::Bucket(b), addr, r.title@, agent, false)
    &&& edge_is(post.links.edges@[n + 1], LinkBase::Agent(agent), addr, current_tag(), agent, false)
}

/// How a whole `update` changes the store: cleanup followed by install.
pub open spec fn update_transition(
    pre: Store,
    post: Store,
    agent: u64,
    r: RecurrentEvent,
    addr: u64,
) -> bool {
    let b = bucket_of(r.title@);
    let n = pre.links.edges@.len() as int;
    &&& addr as int == put_addr(pre.content.records@, r)
    &&& post.content.records@ == put_records(pre.content.records@, r)
    &&& post.paths.buckets@ == ensure_spec(pre.paths.buckets@, b)
    &&& post.links.edges@.len() == n + 2
    &&& forall|j: int|
        0 <= j < n ==> edge_eq_sans_tomb(#[trigger] post.links.edges@[j], pre.links.edges@[j])
    &&& forall|j: int|
        0 <= j < n ==> (#[trigger] post.links.edges@[j]).tombstoned == (
        pre.links.edges@[j].tombstoned || stale_for(pre.links.edges@[j], agent, b))
    &&& edge_is(post.links.edges@[n], LinkBase::Bucket(b), addr, r.title@, agent, false)
    &&& edge_is(post.links.edges@[n + 1], LinkBase::Agent(agent), addr, current_tag(), agent, false)
}

pub proof fn lemma_ensure_spec_facts(bs: Seq<BucketKey>, b: BucketKey)
    ensures
        ensure_spec(bs, b).contains(b),
        forall|x: BucketKey| bs.contains(x) ==> #[trigger] ensure_spec(bs, b).contains(x),
        bs.len() <= ensure_spec(bs, b).len(),
        forall|i: int| 0 <= i < bs.len() ==> #[trigger] ensure_spec(bs, b)[i] == bs[i],
{
    if bs.contains(b) {
    } else {
        assert(bs.push(b)[bs.len() as int] == b);
        assert(bs.push(b).contains(b));
        assert forall|x: BucketKey| bs.contains(x) implies #[trigger] ensure_spec(bs, b).contains(
            x,
        ) by {
            let i = choose|i: int| 0 <= i < bs.len() && bs[i] == x;
            assert(bs.push(b)[i] == x);
        }
    }
}

/// After any update, the owner holds exactly one live current-version edge:
/// the freshly installed one, whatever plurality a prior partial failure had
/// left behind.
pub proof fn lemma_update_single_current(
    pre: Store,
    post: Store,
    agent: u64,
    r: RecurrentEvent,
    addr: u64,
)
    requires
        update_transition(pre, post, agent, r, addr),
    ensures
        forall|j: int|
            0 <= j < post.links.edges@.len() ==> (is_live_current(
                #[trigger] post.links.edges@[j],
                agent,
            ) <==> j == pre.links.edges@.len() + 1),
        post.links.edges@[pre.links.edges@.len() as int + 1].target == addr,
{
    let n = pre.links.edges@.len() as int;
    assert forall|j: int| 0 <= j < post.links.edges@.len() implies (is_live_current(
        #[trigger] post.links.edges@[j],
        agent,
    ) <==> j == n + 1) by {
        if j < n {
            assert(post.links.edges@[j].base == pre.links.edges@[j].base);
            assert(post.links.edges@[j].tag == pre.links.edges@[j].tag);
            if is_live_current(post.links.edges@[j], agent) {
                assert(stale_for(pre.links.edges@[j], agent, bucket_of(r.title@)));
                assert(post.links.edges@[j].tombstoned);
            }
        }
    }
}

/// Creates the record for `agent`: stores it, ensures its discovery bucket,
/// and installs a live discovery edge and a live current-version edge.  No
/// prior state is consulted; duplicate creates by the same owner are
/// permitted, and only `update` ever constrains the current-version family.
pub fn create_recurrent_event(store: &mut Store, agent: u64, recurrent_event: RecurrentEvent) -> (
    out: AgentRecurrentEvent)
    requires
        old(store).wf(),
        recurrent_event.title@.len() >= 3,
        old(store).content.records@.len() < u64::MAX,
        old(store).links.edges@.len() + 2 < u64::MAX,
    ensures
        final(store).wf(),
        create_transition(
            *old(store),
            *final(store),
            agent,
            recurrent_event,
            put_addr(old(store).content.records@, recurrent_event) as u64,
        ),
        content_eq(
            final(store).content.records@[put_addr(old(store).content.records@, recurrent_event)],
            recurrent_event,
        ),
        out.agent_pub_key == agent,
        out.recurrent_event == recurrent_event,
{
    let addr = store.content.put(&recurrent_event);
    let bucket = prefix_path(recurrent_event.title.as_str());
    store.paths.ensure(bucket);
    store.links.add_edge(
        LinkBase::Bucket(bucket),
        addr,
        LinkTag(recurrent_event.title.clone()),
        agent,
    );
    store.links.add_edge(LinkBase::Agent(agent), addr, link_tag("current"), agent);
    proof {
        lemma_ensure_spec_facts(old(store).paths.buckets@, bucket);
    }
    AgentRecurrentEvent { agent_pub_key: agent, recurrent_event }
}

/// The cleanup phase of `update`: stores the new record, ensures the new
/// bucket, then walks the edge table and tombstones every stale edge — the
/// agent's own discovery edges in the new bucket and all of the agent's
/// current-version edges, however many there are.  Returns the new record's
/// content address.
pub fn update_cleanup(store: &mut Store, agent: u64, recurrent_event: &RecurrentEvent) -> (addr:
    u64)
    requires
        old(store).wf(),
        recurrent_event.title@.len() >= 3,
        old(store).content.records@.len() < u64::MAX,
    ensures
        final(store).wf(),
        cleanup_transition(*old(store), *final(store), agent, *recurrent_event, addr),
        addr < final(store).content.records@.len(),
        content_eq(final(store).content.records@[addr as int], *recurrent_event),
{
    let addr = store.content.put(recurrent_event);
    let bucket = prefix_path(recurrent_event.title.as_str());
    store.paths.ensure(bucket);
    proof {
        lemma_ensure_spec_facts(old(store).paths.buckets@, bucket);
    }
    let current = link_tag("current");
    let n = store.links.edges.len();
    let mut i: usize = 0;
    while i < n
        invariant
            i <= n,
            n == store.links.edges@.len(),
            bucket == bucket_of(recurrent_event.title@),
            current.0@ == current_tag(),
            addr as int == put_addr(old(store).content.records@, *recurrent_event),
            store.content.records@ == put_records(old(store).content.records@, *recurrent_event),
            addr < store.content.records@.len(),
            content_eq(store.content.records@[addr as int], *recurrent_event),
            store.paths.buckets@ == ensure_spec(old(store).paths.buckets@, bucket),
            n == old(store).links.edges@.len(),
            forall|j: int|
                i <= j < n ==> (#[trigger] store.links.edges@[j]) == old(store).links.edges@[j],
            forall|j: int|
                0 <= j < i ==> edge_eq_sans_tomb(
                    #[trigger] store.links.edges@[j],
                    old(store).links.edges@[j],
                ),
            forall|j: int|
                0 <= j < i ==> (#[trigger] store.links.edges@[j]).tombstoned == (old(
                    store,
                ).links.edges@[j].tombstoned || stale_for(
                    old(store).links.edges@[j],
                    agent,
                    bucket,
                )),
        decreases n - i,
    {
        let e = &store.links.edges[i];
        let stale = match e.base {
            LinkBase::Bucket(eb) => eb == bucket && e.author == agent,
            LinkBase::Agent(a) => a == agent && e.tag.0 == current.0,
        };
        if stale && !e.tombstoned {
            store.links.tombstone_edge(i as u64);
        }
        i += 1;
    }
    addr
}

/// The install phase of `update`: appends the new discovery edge and the new
/// current-version edge, both live.  This is the step whose failure the
/// caller must hear about; in this model it always lands, and it is the last
/// step of every update, so after any interleaving of updates the owner is
/// left with at least one live current-version edge.
pub fn update_install(store: &mut Store, agent: u64, recurrent_event: &RecurrentEvent, addr: u64)
    requires
        old(store).wf(),
        recurrent_event.title@.len() >= 3,
        old(store).links.edges@.len() + 2 < u64::MAX,
        addr < old(store).content.records@.len(),
        old(store).paths.buckets@.contains(bucket_of(recurrent_event.title@)),
    ensures
        final(store).wf(),
        install_transition(*old(store), *final(store), agent, *recurrent_event, addr),
        is_live_current(
            final(store).links.edges@[old(store).links.edges@.len() as int + 1],
            agent,
        ),
{
    let bucket = prefix_path(recurrent_event.title.as_str());
    store.links.add_edge(
        LinkBase::Bucket(bucket),
        addr,
        LinkTag(recurrent_event.title.clone()),
        agent,
    );
    store.links.add_edge(LinkBase::Agent(agent), addr, link_tag("current"), agent);
}

/// Updates the record for `agent`: best-effort cleanup of every stale edge,
/// then installation of the new record's edges.  Afterward the agent has
/// exactly one live current-version edge, whatever plurality a prior partial
/// failure had left behind.
pub fn update_recurrent_event(store: &mut Store, agent: u64, recurrent_event: RecurrentEvent) -> (
    out: AgentRecurrentEvent)
    requires
        old(store).wf(),
        recurrent_event.title@.len() >= 3,
        old(store).content.records@.len() < u64::MAX,
        old(store).links.edges@.len() + 2 < u64::MAX,
    ensures
        final(store).wf(),
        update_transition(
            *old(store),
            *final(store),
            agent,
            recurrent_event,
            put_addr(old(store).content.records@, recurrent_event) as u64,
        ),
        content_eq(
            final(store).content.records@[put_addr(old(store).content.records@, recurrent_event)],
            recurrent_event,
        ),
        forall|j: int|
            0 <= j < final(store).links.edges@.len() ==> (is_live_current(
                #[trigger] final(store).links.edges@[j],
                agent,
            ) <==> j == old(store).links.edges@.len() + 1),
        out.agent_pub_key == agent,
        out.recurrent_event == recurrent_event,
{
    let addr = update_cleanup(store, agent, &recurrent_event);
    proof {
        lemma_ensure_spec_facts(old(store).paths.buckets@, bucket_of(recurrent_event.title@));
    }
    update_install(store, agent, &recurrent_event, addr);
    proof {
        assert(update_transition(*old(store), *store, agent, recurrent_event, addr));
        lemma_update_single_current(*old(store), *store, agent, recurrent_event, addr);
    }
    AgentRecurrentEvent { agent_pub_key: agent, recurrent_event }
}

/// The entries a full enumeration yields for bucket `b`, over the first `n`
/// edges: every live discovery edge in the bucket whose target
/// dereferences, paired with the author recorded on the edge.
pub open spec fn bucket_events(
    edges: Seq<Edge>,
    records: Seq<RecurrentEvent>,
    b: BucketKey,
    n: int,
) -> Seq<AgentRecurrentEvent>
    decreases n,
{
    if n <= 0 {
        Seq::empty()
    } else {
        let pre = bucket_events(edges, records, b, n - 1);
        let e = edges[n - 1];
        if is_live_discovery(e, b) && e.target < records.len() {
            pre.push(
                AgentRecurrentEvent {
                    agent_pub_key: e.author,
                    recurrent_event: records[e.target as int],
                },
            )
        } else {
            pre
        }
    }
}

/// The full enumeration over the first `k` buckets.
pub open spec fn all_events_upto(s: Store, k: int) -> Seq<AgentRecurrentEvent>
    decreases k,
{
    if k <= 0 {
        Seq::empty()
    } else {
        all_events_upto(s, k - 1) + bucket_events(
            s.links.edges@,
            s.content.records@,
            s.paths.buckets@[k - 1],
            s.links.edges@.len() as int,
        )
    }
}

/// Everything a full enumeration of the store yields: for each bucket in
/// creation order, each live discovery edge in edge order, dereferenced and
/// paired with its author.  Superseded versions that still carry a live
/// discovery edge are included: this is a historical index, not a
/// latest-only view.
pub open spec fn all_events(s: Store) -> Seq<AgentRecurrentEvent> {
    all_events_upto(s, s.paths.buckets@.len() as int)
}

/// Enumerates every record that still has a live discovery edge, including
/// superseded versions.  A full index scan — documented as non-scalable.
/// A dangling edge whose target does not dereference is skipped, not an
/// error: eventual consistency makes that a legal transient.
pub fn get_all_recurrent_events(store: &Store) -> (out: Vec<AgentRecurrentEvent>)
    ensures
        out@ == all_events(*store),
{
    let mut out: Vec<AgentRecurrentEvent> = Vec::new();
    let nb = store.paths.buckets.len();
    let ne = store.links.edges.len();
    let mut k: usize = 0;
    while k < nb
        invariant
            k <= nb,
            nb == store.paths.buckets@.len(),
            ne == store.links.edges@.len(),
            out@ == all_events_upto(*store, k as int),
        decreases nb - k,
    {
        let b = store.paths.buckets[k];
        let mut i: usize = 0;
        while i < ne
            invariant
                i <= ne,
                k < nb,
                nb == store.paths.buckets@.len(),
                ne == store.links.edges@.len(),
                b == store.paths.buckets@[k as int],
                out@ == all_events_upto(*store, k as int) + bucket_events(
                    store.links.edges@,
                    store.content.records@,
                    b,
                    i as int,
                ),
            decreases ne - i,
        {
            let e = &store.links.edges[i];
            let in_bucket = match e.base {
                LinkBase::Bucket(eb) => eb == b,
                LinkBase::Agent(_) => false,
            };
            if in_bucket && !e.tombstoned {
                match store.content.get(e.target) {
                    Some(rec) => {
                        out.push(
                            AgentRecurrentEvent {
                                agent_pub_key: e.author,
                                recurrent_event: rec.clone(),
                            },
                        );
                    },
                    None => {
                        // dangling target: skip this edge
                    },
                }
            }
            i += 1;
        }
        k += 1;
    }
    out
}

} // verus!
