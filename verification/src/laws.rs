//! The laws of the reconciliation protocol, proved against the transition
//! predicates that the handlers' contracts establish.

use vstd::prelude::*;
use crate::handlers::{
    all_events, all_events_upto, bucket_events, cleanup_transition, create_transition, edge_is,
    install_transition, is_live_current, lemma_ensure_spec_facts, lemma_update_single_current,
    update_transition,
};
use crate::path::{bucket_of, BucketKey};
use crate::store::{first_match, lemma_first_match, Edge, LinkBase, Store};
use crate::types::{content_eq, AgentRecurrentEvent, RecurrentEvent};

verus! {

/// How many enumeration entries pair owner `agent` with a record equal to
/// `r`.
pub open spec fn count_matching(s: Seq<AgentRecurrentEvent>, agent: u64, r: RecurrentEvent) -> int
    decreases s.len(),
{
    if s.len() == 0 {
        0
    } else {
        count_matching(s.drop_last(), agent, r) + (
        if s.last().agent_pub_key == agent && content_eq(s.last().recurrent_event, r) {
            1int
        } else {
            0int
        })
    }
}

proof fn lemma_count_concat(a: Seq<AgentRecurrentEvent>, b: Seq<AgentRecurrentEvent>, agent: u64, r: RecurrentEvent)
    ensures
        count_matching(a + b, agent, r) == count_matching(a, agent, r) + count_matching(
            b,
            agent,
            r,
        ),
    decreases b.len(),
{
    if b.len() == 0 {
        assert(a + b =~= a);
    } else {
        lemma_count_concat(a, b.drop_last(), agent, r);
        assert((a + b).drop_last() =~= a + b.drop_last());
        assert((a + b).last() == b.last());
    }
}

proof fn lemma_bucket_events_agree(
    e1: Seq<Edge>,
    r1: Seq<RecurrentEvent>,
    e2: Seq<Edge>,
    r2: Seq<RecurrentEvent>,
    b: BucketKey,
    n: int,
)
    requires
        0 <= n <= e1.len(),
        n <= e2.len(),
        forall|j: int| 0 <= j < n ==> #[trigger] e2[j] == e1[j],
        r1.len() <= r2.len(),
        forall|i: int| 0 <= i < r1.len() ==> #[trigger] r2[i] == r1[i],
        forall|j: int| 0 <= j < n ==> (#[trigger] e1[j]).target < r1.len(),
    ensures
        bucket_events(e2, r2, b, n) == bucket_events(e1, r1, b, n),
    decreases n,
{
    if n > 0 {
        lemma_bucket_events_agree(e1, r1, e2, r2, b, n - 1);
    }
}

proof fn lemma_bucket_events_absent(
    edges: Seq<Edge>,
    records: Seq<RecurrentEvent>,
    b: BucketKey,
    n: int,
)
    requires
        n <= edges.len(),
        forall|j: int| 0 <= j < n ==> (#[trigger] edges[j]).base != LinkBase::Bucket(b),
    ensures
        bucket_events(edges, records, b, n) == Seq::<AgentRecurrentEvent>::empty(),
    decreases n,
{
    if n > 0 {
        lemma_bucket_events_absent(edges, records, b, n - 1);
    }
}

/// What one `create` does to one bucket's enumeration: the new bucket gains
/// exactly the created entry at the end, every other bucket's entries are
/// untouched.
proof fn lemma_bucket_events_create(
    pre: Store,
    post: Store,
    agent: u64,
    r: RecurrentEvent,
    addr: u64,
    b: BucketKey,
)
    requires
        pre.wf(),
        create_transition(pre, post, agent, r, addr),
    ensures
        bucket_events(post.links.edges@, post.content.records@, b, post.links.edges@.len() as int)
            == bucket_events(pre.links.edges@, pre.content.records@, b, pre.links.edges@.len() as int)
            + (if b == bucket_of(r.title@) {
                seq![
                    (AgentRecurrentEvent {
                        agent_pub_key: agent,
                        recurrent_event: post.content.records@[addr as int],
                    }),
                ]
            } else {
                Seq::<AgentRecurrentEvent>::empty()
            }),
{
    let n = pre.links.edges@.len() as int;
    lemma_first_match(pre.content.records@, r);
    lemma_bucket_events_agree(
        pre.links.edges@,
        pre.content.records@,
        post.links.edges@,
        post.content.records@,
        b,
        n,
    );
    let base_events = bucket_events(pre.links.edges@, pre.content.records@, b, n);
    assert(bucket_events(post.links.edges@, post.content.records@, b, n) == base_events);
    let entry = AgentRecurrentEvent {
        agent_pub_key: agent,
        recurrent_event: post.content.records@[addr as int],
    };
    if b == bucket_of(r.title@) {
        assert(bucket_events(post.links.edges@, post.content.records@, b, n + 1) == base_events.push(
            entry,
        ));
        assert(bucket_events(post.links.edges@, post.content.records@, b, n + 2) == base_events.push(
            entry,
        ));
        assert(base_events + seq![entry] =~= base_events.push(entry));
    } else {
        assert(bucket_events(post.links.edges@, post.content.records@, b, n + 1) == base_events);
        assert(bucket_events(post.links.edges@, post.content.records@, b, n + 2) == base_events);
        assert(base_events + Seq::<AgentRecurrentEvent>::empty() =~= base_events);
    }
}

proof fn lemma_all_events_upto_create(
    pre: Store,
    post: Store,
    agent: u64,
    r: RecurrentEvent,
    addr: u64,
    k: int,
)
    requires
        pre.wf(),
        create_transition(pre, post, agent, r, addr),
        0 <= k <= pre.paths.buckets@.len(),
    ensures
        count_matching(all_events_upto(post, k), agent, r) == count_matching(
            all_events_upto(pre, k),
            agent,
            r,
        ) + (if exists|i: int| 0 <= i < k && pre.paths.buckets@[i] == bucket_of(r.title@) {
            1int
        } else {
            0int
        }),
    decreases k,
{
    let b_star = bucket_of(r.title@);
    lemma_ensure_spec_facts(pre.paths.buckets@, b_star);
    lemma_first_match(pre.content.records@, r);
    if k > 0 {
        lemma_all_events_upto_create(pre, post, agent, r, addr, k - 1);
        let b = pre.paths.buckets@[k - 1];
        assert(post.paths.buckets@[k - 1] == b);
        lemma_bucket_events_create(pre, post, agent, r, addr, b);
        let pre_bucket = bucket_events(
            pre.links.edges@,
            pre.content.records@,
            b,
            pre.links.edges@.len() as int,
        );
        let post_bucket = bucket_events(
            post.links.edges@,
            post.content.records@,
            b,
            post.links.edges@.len() as int,
        );
        lemma_count_concat(all_events_upto(pre, k - 1), pre_bucket, agent, r);
        lemma_count_concat(all_events_upto(post, k - 1), post_bucket, agent, r);
        if b == b_star {
            let entry = AgentRecurrentEvent {
                agent_pub_key: agent,
                recurrent_event: post.content.records@[addr as int],
            };
            lemma_count_concat(pre_bucket, seq![entry], agent, r);
            assert(seq![entry].drop_last() =~= Seq::<AgentRecurrentEvent>::empty());
            assert(content_eq(post.content.records@[addr as int], r));
            assert(seq![entry].len() == 1);
            assert(seq![entry].last() == entry);
            assert(count_matching(Seq::<AgentRecurrentEvent>::empty(), agent, r) == 0);
            assert(count_matching(seq![entry], agent, r) == 1);
            // bucket uniqueness: b_star cannot also occur before k - 1
            assert(!(exists|i: int| 0 <= i < k - 1 && pre.paths.buckets@[i] == b_star));
        } else {
            lemma_count_concat(pre_bucket, Seq::<AgentRecurrentEvent>::empty(), agent, r);
            assert(pre_bucket + Seq::<AgentRecurrentEvent>::empty() =~= pre_bucket);
            assert((exists|i: int| 0 <= i < k && pre.paths.buckets@[i] == b_star) <==> (exists|i: int|
                0 <= i < k - 1 && pre.paths.buckets@[i] == b_star));
        }
    }
}

/// Every create adds exactly one enumeration entry pairing the creating
/// owner with a record equal to the draft: on a store where no such entry
/// existed, the listing afterwards contains it exactly once.
pub proof fn lemma_create_adds_one_listing(
    pre: Store,
    post: Store,
    agent: u64,
    r: RecurrentEvent,
    addr: u64,
)
    requires
        pre.wf(),
        create_transition(pre, post, agent, r, addr),
    ensures
        count_matching(all_events(post), agent, r) == count_matching(all_events(pre), agent, r)
            + 1,
{
    let b_star = bucket_of(r.title@);
    let nb = pre.paths.buckets@.len() as int;
    lemma_ensure_spec_facts(pre.paths.buckets@, b_star);
    lemma_first_match(pre.content.records@, r);
    lemma_all_events_upto_create(pre, post, agent, r, addr, nb);
    if pre.paths.buckets@.contains(b_star) {
        assert(post.paths.buckets@ == pre.paths.buckets@);
        assert(exists|i: int| 0 <= i < nb && pre.paths.buckets@[i] == b_star);
        assert(all_events(post) == all_events_upto(post, nb));
    } else {
        assert(post.paths.buckets@ == pre.paths.buckets@.push(b_star));
        assert(post.paths.buckets@.len() == nb + 1);
        assert(!(exists|i: int| 0 <= i < nb && pre.paths.buckets@[i] == b_star));
        let post_bucket = bucket_events(
            post.links.edges@,
            post.content.records@,
            b_star,
            post.links.edges@.len() as int,
        );
        assert(post.paths.buckets@[nb] == b_star);
        assert(all_events(post) == all_events_upto(post, nb) + post_bucket);
        lemma_bucket_events_create(pre, post, agent, r, addr, b_star);
        assert forall|j: int| 0 <= j < pre.links.edges@.len() implies (#[trigger] pre.links.edges@[j]).base
            != LinkBase::Bucket(b_star) by {
            match pre.links.edges@[j].base {
                LinkBase::Bucket(bb) => {
                    assert(pre.paths.buckets@.contains(bb));
                },
                LinkBase::Agent(_) => {},
            }
        }
        lemma_bucket_events_absent(
            pre.links.edges@,
            pre.content.records@,
            b_star,
            pre.links.edges@.len() as int,
        );
        let entry = AgentRecurrentEvent {
            agent_pub_key: agent,
            recurrent_event: post.content.records@[addr as int],
        };
        assert(post_bucket =~= seq![entry]);
        lemma_count_concat(all_events_upto(post, nb), post_bucket, agent, r);
        assert(seq![entry].drop_last() =~= Seq::<AgentRecurrentEvent>::empty());
        assert(content_eq(post.content.records@[addr as int], r));
        assert(seq![entry].len() == 1);
        assert(seq![entry].last() == entry);
        assert(count_matching(Seq::<AgentRecurrentEvent>::empty(), agent, r) == 0);
        assert(count_matching(post_bucket, agent, r) == 1);
    }
}

proof fn lemma_bucket_events_has_edge(
    edges: Seq<Edge>,
    records: Seq<RecurrentEvent>,
    b: BucketKey,
    n: int,
    j: int,
)
    requires
        0 <= j < n <= edges.len(),
        edges[j].base == LinkBase::Bucket(b),
        !edges[j].tombstoned,
        edges[j].target < records.len(),
    ensures
        bucket_events(edges, records, b, n).contains(
            (AgentRecurrentEvent {
                agent_pub_key: edges[j].author,
                recurrent_event: records[edges[j].target as int],
            }),
        ),
    decreases n,
{
    let entry = AgentRecurrentEvent {
        agent_pub_key: edges[j].author,
        recurrent_event: records[edges[j].target as int],
    };
    if j == n - 1 {
        assert(bucket_events(edges, records, b, n).last() == entry);
    } else {
        lemma_bucket_events_has_edge(edges, records, b, n - 1, j);
        let pre = bucket_events(edges, records, b, n - 1);
        let i = choose|i: int| 0 <= i < pre.len() && pre[i] == entry;
        assert(bucket_events(edges, records, b, n)[i] == entry);
    }
}

proof fn lemma_all_events_upto_has_bucket(s: Store, k: int, m: int, entry: AgentRecurrentEvent)
    requires
        0 <= k < m <= s.paths.buckets@.len(),
        bucket_events(
            s.links.edges@,
            s.content.records@,
            s.paths.buckets@[k],
            s.links.edges@.len() as int,
        ).contains(entry),
    ensures
        all_events_upto(s, m).contains(entry),
    decreases m,
{
    let chunk = bucket_events(
        s.links.edges@,
        s.content.records@,
        s.paths.buckets@[m - 1],
        s.links.edges@.len() as int,
    );
    if k == m - 1 {
        let i = choose|i: int| 0 <= i < chunk.len() && chunk[i] == entry;
        assert(all_events_upto(s, m)[all_events_upto(s, m - 1).len() + i] == entry);
    } else {
        lemma_all_events_upto_has_bucket(s, k, m - 1, entry);
        let i = choose|i: int|
            0 <= i < all_events_upto(s, m - 1).len() && #[trigger] all_events_upto(s, m - 1)[i]
                == entry;
        assert(all_events_upto(s, m)[i] == entry);
    }
}

/// The enumeration is a faithful historical index: every record that still
/// has a live discovery edge pointing at it — superseded versions included —
/// appears in the full enumeration, paired with the author recorded on that
/// edge.
pub proof fn lemma_live_discovery_edge_is_listed(s: Store, j: int, b: BucketKey)
    requires
        s.wf(),
        0 <= j < s.links.edges@.len(),
        s.links.edges@[j].base == LinkBase::Bucket(b),
        !s.links.edges@[j].tombstoned,
    ensures
        all_events(s).contains(
            (AgentRecurrentEvent {
                agent_pub_key: s.links.edges@[j].author,
                recurrent_event: s.content.records@[s.links.edges@[j].target as int],
            }),
        ),
{
    assert(s.paths.buckets@.contains(b));
    let k = choose|k: int| 0 <= k < s.paths.buckets@.len() && s.paths.buckets@[k] == b;
    lemma_bucket_events_has_edge(
        s.links.edges@,
        s.content.records@,
        b,
        s.links.edges@.len() as int,
        j,
    );
    lemma_all_events_upto_has_bucket(
        s,
        k,
        s.paths.buckets@.len() as int,
        AgentRecurrentEvent {
            agent_pub_key: s.links.edges@[j].author,
            recurrent_event: s.content.records@[s.links.edges@[j].target as int],
        },
    );
}

/// A create followed by an update of the same owner leaves exactly one live
/// current-version edge, pointing at the updated record; the first record's
/// discovery edge is still in the table (history preserved), live when the
/// two titles land in different buckets and tombstoned when they share one;
/// the updated record's discovery edge is live.
pub proof fn lemma_create_then_update(
    s0: Store,
    s1: Store,
    s2: Store,
    o: u64,
    r1: RecurrentEvent,
    r2: RecurrentEvent,
    a1: u64,
    a2: u64,
)
    requires
        s0.wf(),
        create_transition(s0, s1, o, r1, a1),
        update_transition(s1, s2, o, r2, a2),
    ensures
        forall|j: int|
            0 <= j < s2.links.edges@.len() ==> (is_live_current(#[trigger] s2.links.edges@[j], o)
                <==> j == s1.links.edges@.len() + 1),
        s2.links.edges@[s1.links.edges@.len() as int + 1].target == a2,
        content_eq(s2.content.records@[a2 as int], r2),
        ({
            let d1 = s2.links.edges@[s0.links.edges@.len() as int];
            &&& d1.base == LinkBase::Bucket(bucket_of(r1.title@))
            &&& d1.target == a1
            &&& d1.tag.0@ == r1.title@
            &&& d1.author == o
            &&& (d1.tombstoned <==> bucket_of(r1.title@) == bucket_of(r2.title@))
        }),
        content_eq(s2.content.records@[a1 as int], r1),
        edge_is(
            s2.links.edges@[s1.links.edges@.len() as int],
            LinkBase::Bucket(bucket_of(r2.title@)),
            a2,
            r2.title@,
            o,
            false,
        ),
        s2.wf() ==> all_events(s2).contains(
            (AgentRecurrentEvent { agent_pub_key: o, recurrent_event: s2.content.records@[a2 as int] }),
        ),
        s2.wf() && bucket_of(r1.title@) != bucket_of(r2.title@) ==> all_events(s2).contains(
            (AgentRecurrentEvent { agent_pub_key: o, recurrent_event: s2.content.records@[a1 as int] }),
        ),
{
    lemma_update_single_current(s1, s2, o, r2, a2);
    lemma_first_match(s0.content.records@, r1);
    lemma_first_match(s1.content.records@, r2);
    let n0 = s0.links.edges@.len() as int;
    let n1 = s1.links.edges@.len() as int;
    assert(crate::handlers::edge_eq_sans_tomb(s2.links.edges@[n0], s1.links.edges@[n0]));
    assert(a1 < s1.content.records@.len());
    assert(content_eq(s1.content.records@[a1 as int], r1));
    assert(content_eq(s2.content.records@[a1 as int], r1));
    if s2.wf() {
        lemma_live_discovery_edge_is_listed(s2, n1, bucket_of(r2.title@));
        if bucket_of(r1.title@) != bucket_of(r2.title@) {
            lemma_live_discovery_edge_is_listed(s2, n0, bucket_of(r1.title@));
        }
    }
}

/// Updating twice with the same draft converges: the second call stores
/// nothing new, resolves to the same content address, and the single live
/// current-version edge targets the same record as after the first call.
pub proof fn lemma_update_idempotent(
    s0: Store,
    s1: Store,
    s2: Store,
    o: u64,
    r: RecurrentEvent,
    a1: u64,
    a2: u64,
)
    requires
        update_transition(s0, s1, o, r, a1),
        update_transition(s1, s2, o, r, a2),
    ensures
        a2 == a1,
        s1.content.records@ == s2.content.records@,
        s2.links.edges@[s1.links.edges@.len() as int + 1].target == a1,
{
    lemma_first_match(s0.content.records@, r);
    lemma_first_match(s1.content.records@, r);
    match first_match(s0.content.records@, r) {
        Some(i) => {
            assert(s1.content.records@ == s0.content.records@);
        },
        None => {
            let len0 = s0.content.records@.len() as int;
            assert(s1.content.records@ == s0.content.records@.push(r));
            assert(content_eq(s1.content.records@[len0], r));
            match first_match(s1.content.records@, r) {
                Some(k) => {
                    if k < len0 {
                        assert(s1.content.records@[k] == s0.content.records@[k]);
                        assert(false);
                    }
                },
                None => {
                    assert(!content_eq(s1.content.records@[len0], r));
                    assert(false);
                },
            }
        },
    }
    lemma_update_single_current(s1, s2, o, r, a2);
}

/// The documented race: two updates by the same owner interleave so that
/// both cleanup passes run before either install.  Both calls complete, and
/// afterwards the owner still has a live current-version edge — in fact both
/// installs' edges survive, the accepted transient plurality that the next
/// update's cleanup pass collapses.  Any interleaving whatever ends with
/// some call's install phase, which always leaves its fresh current-version
/// edge live.
pub proof fn lemma_racing_updates_keep_current(
    s0: Store,
    s1: Store,
    s2: Store,
    s3: Store,
    s4: Store,
    o: u64,
    r_a: RecurrentEvent,
    r_b: RecurrentEvent,
    a_a: u64,
    a_b: u64,
)
    requires
        cleanup_transition(s0, s1, o, r_a, a_a),
        cleanup_transition(s1, s2, o, r_b, a_b),
        install_transition(s2, s3, o, r_a, a_a),
        install_transition(s3, s4, o, r_b, a_b),
    ensures
        is_live_current(s4.links.edges@[s2.links.edges@.len() as int + 1], o),
        is_live_current(s4.links.edges@[s3.links.edges@.len() as int + 1], o),
        s4.links.edges@[s2.links.edges@.len() as int + 1].target == a_a,
        s4.links.edges@[s3.links.edges@.len() as int + 1].target == a_b,
{
    let m = s2.links.edges@.len() as int;
    assert(s4.links.edges@[m + 1] == s3.links.edges@[m + 1]);
}

} // verus!
