use vstd::prelude::*;
use crate::manifest::models::CapabilityManifest;
use crate::resolver::{
    count_in, dependency_edges, edges_upto, manifest_edges, manifest_unresolved, node_of,
    names_in_order, provider_nodes, providers_upto, requirement_edges, unresolved_of,
    unresolved_upto,
};
use crate::resolver::graph::{is_topological_order, EdgeEntry};
use crate::text::seq_has;

verus! {

proof fn lemma_count_in_has(values: Seq<Seq<char>>, s: Seq<char>)
    ensures
        count_in(values, s) > 0 <==> seq_has(values, s),
    decreases values.len(),
{
    if values.len() > 0 {
        let d = values.drop_last();
        lemma_count_in_has(d, s);
        if seq_has(d, s) {
            let w = choose|i: int| 0 <= i < d.len() && d[i] == s;
            assert(values[w] == s);
        }
        if seq_has(values, s) && !seq_has(d, s) {
            let w = choose|i: int| 0 <= i < values.len() && values[i] == s;
            if w < d.len() {
                assert(d[w] == s);
            }
        }
    }
}

/// What a provider node stands for: a manifest among the first `k` that lists the contract.
proof fn lemma_provider_member(ms: Seq<CapabilityManifest>, k: nat, c: Seq<char>, t: int)
    requires
        k <= ms.len(),
        0 <= t < providers_upto(ms, k, c).len(),
    ensures
        exists|a: int|
            0 <= a < k && seq_has(ms[a].capabilities.deep_view(), c) && node_of(ms, a)
                == #[trigger] providers_upto(ms, k, c)[t],
    decreases k,
{
    let prev = providers_upto(ms, (k - 1) as nat, c);
    if t < prev.len() {
        lemma_provider_member(ms, (k - 1) as nat, c, t);
        let a = choose|a: int|
            0 <= a < k - 1 && seq_has(ms[a].capabilities.deep_view(), c) && node_of(ms, a)
                == #[trigger] providers_upto(ms, (k - 1) as nat, c)[t];
        assert(providers_upto(ms, k, c)[t] == prev[t]);
        assert(0 <= a < k && seq_has(ms[a].capabilities.deep_view(), c) && node_of(ms, a)
            == providers_upto(ms, k, c)[t]);
    } else {
        lemma_count_in_has(ms[k - 1].capabilities.deep_view(), c);
        assert(providers_upto(ms, k, c)[t] == node_of(ms, k - 1));
        assert(0 <= k - 1 < k && seq_has(ms[k - 1].capabilities.deep_view(), c) && node_of(
            ms,
            k - 1,
        ) == providers_upto(ms, k, c)[t]);
    }
}

/// A contract with no provider node is listed by no manifest.
proof fn lemma_no_provider(ms: Seq<CapabilityManifest>, k: nat, c: Seq<char>, a: int)
    requires
        k <= ms.len(),
        providers_upto(ms, k, c).len() == 0,
        0 <= a < k,
    ensures
        !seq_has(ms[a].capabilities.deep_view(), c),
    decreases k,
{
    lemma_count_in_has(ms[k - 1].capabilities.deep_view(), c);
    if a < k - 1 {
        lemma_no_provider(ms, (k - 1) as nat, c, a);
    }
}

/// An edge is justified when a manifest at its source lists its contract among its
/// capabilities and a manifest at its target lists it among its dependencies.
pub open spec fn edge_justified(ms: Seq<CapabilityManifest>, e: (usize, usize, Seq<char>)) -> bool {
    &&& exists|a: int|
        0 <= a < ms.len() && seq_has(ms[a].capabilities.deep_view(), e.2) && #[trigger] node_of(
            ms,
            a,
        ) == e.0
    &&& exists|b: int|
        0 <= b < ms.len() && seq_has(ms[b].dependencies.deep_view(), e.2) && #[trigger] node_of(
            ms,
            b,
        ) == e.1
}

proof fn lemma_manifest_edges_justified(ms: Seq<CapabilityManifest>, i: int, j: nat, k: int)
    requires
        0 <= i < ms.len(),
        j <= ms[i].dependencies@.len(),
        0 <= k < manifest_edges(ms, i, j).len(),
    ensures
        edge_justified(ms, manifest_edges(ms, i, j)[k]),
    decreases j,
{
    let prev = manifest_edges(ms, i, (j - 1) as nat);
    let c = ms[i].dependencies.deep_view()[j - 1];
    if k < prev.len() {
        lemma_manifest_edges_justified(ms, i, (j - 1) as nat, k);
        assert(manifest_edges(ms, i, j)[k] == prev[k]);
    } else {
        let more = requirement_edges(ms, i, c);
        let e = manifest_edges(ms, i, j)[k];
        assert(e == more[k - prev.len()]);
        lemma_provider_member(ms, ms.len(), c, k - prev.len());
        assert(seq_has(ms[i].dependencies.deep_view(), c));
        assert(node_of(ms, i) == e.1);
    }
}

proof fn lemma_edges_upto_justified(ms: Seq<CapabilityManifest>, i: nat, k: int)
    requires
        i <= ms.len(),
        0 <= k < edges_upto(ms, i).len(),
    ensures
        edge_justified(ms, edges_upto(ms, i)[k]),
    decreases i,
{
    let prev = edges_upto(ms, (i - 1) as nat);
    if k < prev.len() {
        lemma_edges_upto_justified(ms, (i - 1) as nat, k);
        assert(edges_upto(ms, i)[k] == prev[k]);
    } else {
        lemma_manifest_edges_justified(
            ms,
            i - 1,
            ms[i - 1].dependencies@.len(),
            k - prev.len(),
        );
    }
}

/// Every edge of a dependency graph runs from a manifest that offers the edge's contract
/// to a manifest that requires it.
pub proof fn law_edges_are_justified(ms: Seq<CapabilityManifest>)
    ensures
        forall|k: int|
            0 <= k < dependency_edges(ms).len() ==> edge_justified(
                ms,
                #[trigger] dependency_edges(ms)[k],
            ),
{
    assert forall|k: int| 0 <= k < dependency_edges(ms).len() implies edge_justified(
        ms,
        #[trigger] dependency_edges(ms)[k],
    ) by {
        lemma_edges_upto_justified(ms, ms.len(), k);
    }
}

/// An unresolved requirement is one that some manifest has and that no manifest offers.
pub open spec fn requirement_unprovided(ms: Seq<CapabilityManifest>, u: Seq<char>) -> bool {
    &&& exists|b: int| 0 <= b < ms.len() && #[trigger] seq_has(ms[b].dependencies.deep_view(), u)
    &&& forall|a: int| 0 <= a < ms.len() ==> !#[trigger] seq_has(ms[a].capabilities.deep_view(), u)
}

proof fn lemma_manifest_unresolved_member(ms: Seq<CapabilityManifest>, i: int, j: nat, t: int)
    requires
        0 <= i < ms.len(),
        j <= ms[i].dependencies@.len(),
        0 <= t < manifest_unresolved(ms, i, j).len(),
    ensures
        requirement_unprovided(ms, manifest_unresolved(ms, i, j)[t]),
    decreases j,
{
    let prev = manifest_unresolved(ms, i, (j - 1) as nat);
    let c = ms[i].dependencies.deep_view()[j - 1];
    if t < prev.len() {
        lemma_manifest_unresolved_member(ms, i, (j - 1) as nat, t);
        assert(manifest_unresolved(ms, i, j)[t] == prev[t]);
    } else {
        assert(manifest_unresolved(ms, i, j)[t] == c);
        assert(seq_has(ms[i].dependencies.deep_view(), c));
        assert forall|a: int| 0 <= a < ms.len() implies !#[trigger] seq_has(
            ms[a].capabilities.deep_view(),
            c,
        ) by {
            lemma_no_provider(ms, ms.len(), c, a);
        }
    }
}

proof fn lemma_unresolved_upto_member(ms: Seq<CapabilityManifest>, i: nat, t: int)
    requires
        i <= ms.len(),
        0 <= t < unresolved_upto(ms, i).len(),
    ensures
        requirement_unprovided(ms, unresolved_upto(ms, i)[t]),
    decreases i,
{
    let prev = unresolved_upto(ms, (i - 1) as nat);
    if t < prev.len() {
        lemma_unresolved_upto_member(ms, (i - 1) as nat, t);
        assert(unresolved_upto(ms, i)[t] == prev[t]);
    } else {
        lemma_manifest_unresolved_member(
            ms,
            i - 1,
            ms[i - 1].dependencies@.len(),
            t - prev.len(),
        );
    }
}

/// Every requirement a dependency graph reports unresolved is required by some manifest and
/// offered by none.
pub proof fn law_unresolved_are_unprovided(ms: Seq<CapabilityManifest>)
    ensures
        forall|t: int|
            0 <= t < unresolved_of(ms).len() ==> requirement_unprovided(
                ms,
                #[trigger] unresolved_of(ms)[t],
            ),
{
    assert forall|t: int| 0 <= t < unresolved_of(ms).len() implies requirement_unprovided(
        ms,
        #[trigger] unresolved_of(ms)[t],
    ) by {
        lemma_unresolved_upto_member(ms, ms.len(), t);
    }
}


proof fn lemma_names_in_order_map(names: Seq<Seq<char>>, order: Seq<usize>)
    requires
        forall|i: int| 0 <= i < order.len() ==> #[trigger] order[i] < names.len(),
    ensures
        names_in_order(names, order).len() == order.len(),
        forall|i: int| 0 <= i < order.len() ==> #[trigger] names_in_order(names, order)[i]
            == names[order[i] as int],
    decreases order.len(),
{
    if order.len() > 0 {
        let d = order.drop_last();
        assert forall|i: int| 0 <= i < d.len() implies #[trigger] d[i] < names.len() by {
            assert(d[i] == order[i]);
        }
        lemma_names_in_order_map(names, d);
        assert forall|i: int| 0 <= i < order.len() implies #[trigger] names_in_order(names, order)[i]
            == names[order[i] as int] by {
            if i < d.len() {
                assert(d[i] == order[i]);
            }
        }
    }
}

/// Whether, in a list of names, the provider of an edge comes before its dependent.
pub open spec fn provider_listed_first(listed: Seq<Seq<char>>, names: Seq<Seq<char>>, e: EdgeEntry) -> bool {
    exists|i: int, j: int|
        0 <= i < j < listed.len() && #[trigger] listed[i] == names[e.0 as int] && #[trigger] listed[j]
            == names[e.1 as int]
}

/// In the names a topological order gives, the provider of every edge comes before the
/// manifest that depends on it.
pub proof fn law_order_puts_providers_first(
    names: Seq<Seq<char>>,
    edges: Seq<EdgeEntry>,
    order: Seq<usize>,
)
    requires
        is_topological_order(names.len(), edges, order),
    ensures
        names_in_order(names, order).len() == names.len(),
        forall|k: int|
            0 <= k < edges.len() ==> provider_listed_first(
                names_in_order(names, order),
                names,
                #[trigger] edges[k],
            ),
{
    lemma_names_in_order_map(names, order);
    let listed = names_in_order(names, order);
    assert forall|k: int| 0 <= k < edges.len() implies provider_listed_first(
        listed,
        names,
        #[trigger] edges[k],
    ) by {
        let (i, j) = choose|i: int, j: int|
            0 <= i < j < order.len() && order[i] == edges[k].0 && order[j] == edges[k].1;
        assert(listed[i] == names[order[i] as int]);
        assert(listed[j] == names[order[j] as int]);
    }
}

} // verus!
