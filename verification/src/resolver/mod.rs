pub mod graph;
pub mod laws;

use vstd::prelude::*;
use petgraph::graph::Graph;
use petgraph::Directed;
use crate::error::{EpistemError, ErrorView};
use crate::manifest::models::CapabilityManifest;
use crate::models::domain::DependencyEdge;
use self::graph::{
    graph_edges, graph_nodes, has_topological_order, index_limit, is_topological_order,
    toposort_of, EdgeEntry,
};

verus! {

/// The names of the manifests, in order: the nodes of their dependency graph.
pub open spec fn manifest_names(ms: Seq<CapabilityManifest>) -> Seq<Seq<char>> {
    Seq::new(ms.len(), |i: int| ms[i].name@)
}

/// The position of the last entry equal to `name`, or -1 when there is none.
pub open spec fn last_position(names: Seq<Seq<char>>, name: Seq<char>) -> int
    decreases names.len(),
{
    if names.len() == 0 {
        -1
    } else if names.last() == name {
        names.len() - 1
    } else {
        last_position(names.drop_last(), name)
    }
}

/// How many entries equal `s`.
pub open spec fn count_in(values: Seq<Seq<char>>, s: Seq<char>) -> nat
    decreases values.len(),
{
    if values.len() == 0 {
        0
    } else {
        count_in(values.drop_last(), s) + if values.last() == s {
            1nat
        } else {
            0nat
        }
    }
}

/// The node that stands for the manifest at position `j`: one node per manifest, but a
/// name used twice is found at its last node.
pub open spec fn node_of(ms: Seq<CapabilityManifest>, j: int) -> usize {
    last_position(manifest_names(ms), ms[j].name@) as usize
}

/// The provider nodes of a contract among the first `k` manifests: the node of each manifest
/// once for every time it lists the contract among its capabilities.
pub open spec fn providers_upto(ms: Seq<CapabilityManifest>, k: nat, c: Seq<char>) -> Seq<usize>
    decreases k,
{
    if k == 0 {
        Seq::empty()
    } else {
        providers_upto(ms, (k - 1) as nat, c) + Seq::new(
            count_in(ms[k - 1].capabilities.deep_view(), c),
            |t: int| node_of(ms, k - 1),
        )
    }
}

/// The provider nodes of a contract, in manifest order.
pub open spec fn provider_nodes(ms: Seq<CapabilityManifest>, c: Seq<char>) -> Seq<usize> {
    providers_upto(ms, ms.len(), c)
}

/// The edges that the requirement `c` of the manifest at position `i` gives: one from each
/// provider of `c`.
pub open spec fn requirement_edges(ms: Seq<CapabilityManifest>, i: int, c: Seq<char>) -> Seq<
    EdgeEntry,
> {
    provider_nodes(ms, c).map_values(|p: usize| (p, node_of(ms, i), c))
}

/// The edges the first `j` requirements of the manifest at position `i` give.
pub open spec fn manifest_edges(ms: Seq<CapabilityManifest>, i: int, j: nat) -> Seq<EdgeEntry>
    decreases j,
{
    if j == 0 {
        Seq::empty()
    } else {
        manifest_edges(ms, i, (j - 1) as nat) + requirement_edges(
            ms,
            i,
            ms[i].dependencies.deep_view()[j - 1],
        )
    }
}

/// The edges the first `i` manifests give.
pub open spec fn edges_upto(ms: Seq<CapabilityManifest>, i: nat) -> Seq<EdgeEntry>
    decreases i,
{
    if i == 0 {
        Seq::empty()
    } else {
        edges_upto(ms, (i - 1) as nat) + manifest_edges(
            ms,
            i - 1,
            ms[i - 1].dependencies@.len(),
        )
    }
}

/// The edges of the dependency graph of the manifests, in the order they are added.
pub open spec fn dependency_edges(ms: Seq<CapabilityManifest>) -> Seq<EdgeEntry> {
    edges_upto(ms, ms.len())
}

/// The requirements among the first `j` of the manifest at position `i` that no manifest
/// provides.
pub open spec fn manifest_unresolved(ms: Seq<CapabilityManifest>, i: int, j: nat) -> Seq<Seq<char>>
    decreases j,
{
    if j == 0 {
        Seq::empty()
    } else {
        manifest_unresolved(ms, i, (j - 1) as nat) + if provider_nodes(
            ms,
            ms[i].dependencies.deep_view()[j - 1],
        ).len() == 0 {
            seq![ms[i].dependencies.deep_view()[j - 1]]
        } else {
            Seq::empty()
        }
    }
}

/// The unprovided requirements of the first `i` manifests.
pub open spec fn unresolved_upto(ms: Seq<CapabilityManifest>, i: nat) -> Seq<Seq<char>>
    decreases i,
{
    if i == 0 {
        Seq::empty()
    } else {
        unresolved_upto(ms, (i - 1) as nat) + manifest_unresolved(
            ms,
            i - 1,
            ms[i - 1].dependencies@.len(),
        )
    }
}

/// The requirements no manifest provides, in the order they are met.
pub open spec fn unresolved_of(ms: Seq<CapabilityManifest>) -> Seq<Seq<char>> {
    unresolved_upto(ms, ms.len())
}

/// The names of the nodes in `order`, skipping indices that name no node.
pub open spec fn names_in_order(nodes: Seq<Seq<char>>, order: Seq<usize>) -> Seq<Seq<char>>
    decreases order.len(),
{
    if order.len() == 0 {
        Seq::empty()
    } else {
        names_in_order(nodes, order.drop_last()) + if order.last() < nodes.len() {
            seq![nodes[order.last() as int]]
        } else {
            Seq::empty()
        }
    }
}

/// What the ordering of a graph comes to, given what the topological sort returned.
pub open spec fn order_outcome(nodes: Seq<Seq<char>>, sorted: Result<Seq<usize>, usize>) -> Result<
    Seq<Seq<char>>,
    ErrorView,
> {
    match sorted {
        Ok(order) => Ok(names_in_order(nodes, order)),
        Err(n) => Err(
            ErrorView::Resolution(
                "dependency cycle detected at "@ + if n < nodes.len() {
                    nodes[n as int]
                } else {
                    "<unknown>"@
                },
            ),
        ),
    }
}

/// A dependency graph: one node per manifest, and an edge from each provider of a contract
/// to each manifest that requires it.
pub struct PetgraphDependencyGraph {
    graph: Graph<String, String, Directed, u32>,
    unresolved: Vec<String>,
}

/// Builds dependency graphs with petgraph.
#[derive(Debug, Default, Clone, Copy)]
pub struct PetgraphDependencyResolver;

/// The operations of a dependency graph.
pub trait DependencyGraph {
    fn nodes(&self) -> Vec<String>;

    fn edges(&self) -> Vec<DependencyEdge>;

    fn topological_order(&self) -> Result<Vec<String>, EpistemError>;

    fn unresolved_requirements(&self) -> Vec<String>;
}

/// Builds the dependency graph of a set of manifests.
pub trait DependencyResolver {
    type Graph;

    fn build(&self, manifests: &[CapabilityManifest]) -> Result<Self::Graph, EpistemError>
        requires
            manifests@.len() < index_limit(),
            dependency_edges(manifests@).len() < index_limit(),
    ;
}

impl PetgraphDependencyGraph {
    /// The node names, in node order.
    pub closed spec fn node_names(&self) -> Seq<Seq<char>> {
        graph_nodes(self.graph)
    }

    /// The edges as (provider node, dependent node, contract), in edge order.
    pub closed spec fn edge_list(&self) -> Seq<EdgeEntry> {
        graph_edges(self.graph)
    }

    /// The requirements no manifest provides.
    pub closed spec fn unresolved_list(&self) -> Seq<Seq<char>> {
        self.unresolved.deep_view()
    }

    #[verifier::type_invariant]
    closed spec fn well_formed(&self) -> bool {
        &&& graph_nodes(self.graph).len() < index_limit()
        &&& forall|k: int|
            0 <= k < graph_edges(self.graph).len() ==> (#[trigger] graph_edges(self.graph)[k]).0
                < graph_nodes(self.graph).len() && graph_edges(self.graph)[k].1 < graph_nodes(
                self.graph,
            ).len()
    }

    /// The ordering of the nodes, given what the topological sort of the graph returned:
    /// the names of the nodes in the sorted order, or a cycle error naming the node the sort
    /// reported.
    pub fn order_from_toposort(&self, sorted: Result<Vec<usize>, usize>) -> (r: Result<
        Vec<String>,
        EpistemError,
    >)
        ensures
            match r {
                Ok(v) => order_outcome(
                    self.node_names(),
                    match sorted {
                        Ok(o) => Ok(o@),
                        Err(n) => Err(n),
                    },
                ) == Ok::<Seq<Seq<char>>, ErrorView>(v.deep_view()),
                Err(e) => order_outcome(
                    self.node_names(),
                    match sorted {
                        Ok(o) => Ok(o@),
                        Err(n) => Err(n),
                    },
                ) == Err::<Seq<Seq<char>>, ErrorView>(e@),
            },
    {
        proof {
            use_type_invariant(self);
        }
        let count = graph::graph_node_count(&self.graph);
        match sorted {
            Ok(order) => {
                let mut names: Vec<String> = Vec::new();
                let mut i: usize = 0;
                while i < order.len()
                    invariant
                        i <= order@.len(),
                        count == graph_nodes(self.graph).len(),
                        names.deep_view() == names_in_order(
                            graph_nodes(self.graph),
                            order@.take(i as int),
                        ),
                    decreases order@.len() - i,
                {
                    let ghost before = names.deep_view();
                    let ghost prefix = order@.take(i + 1);
                    assert(prefix.drop_last() =~= order@.take(i as int));
                    assert(prefix.last() == order@[i as int]);
                    if order[i] < count {
                        let w = graph::graph_node_weight(&self.graph, order[i]);
                        names.push(w);
                        assert(names.deep_view() =~= before.push(
                            graph_nodes(self.graph)[order@[i as int] as int],
                        ));
                    } else {
                        assert(names_in_order(graph_nodes(self.graph), prefix) =~= before);
                    }
                    i = i + 1;
                }
                assert(order@.take(order@.len() as int) =~= order@);
                Ok(names)
            },
            Err(n) => {
                let name = if n < count {
                    graph::graph_node_weight(&self.graph, n)
                } else {
                    crate::text::owned("<unknown>")
                };
                Err(
                    EpistemError::Resolution(
                        crate::text::concat("dependency cycle detected at ", name.as_str()),
                    ),
                )
            },
        }
    }
}


proof fn lemma_last_position_is(names: Seq<Seq<char>>, name: Seq<char>, t: int)
    requires
        0 <= t < names.len(),
        names[t] == name,
        forall|u: int| t < u < names.len() ==> names[u] != name,
    ensures
        last_position(names, name) == t,
    decreases names.len(),
{
    if t < names.len() - 1 {
        assert(names.last() != name);
        let d = names.drop_last();
        assert forall|u: int| t < u < d.len() implies d[u] != name by {
            assert(d[u] == names[u]);
        }
        lemma_last_position_is(d, name, t);
    }
}

proof fn lemma_last_position_bounds(names: Seq<Seq<char>>, j: int)
    requires
        0 <= j < names.len(),
    ensures
        j <= last_position(names, names[j]) < names.len(),
    decreases names.len(),
{
    if names.last() != names[j] {
        let d = names.drop_last();
        assert(d[j] == names[j]);
        lemma_last_position_bounds(d, j);
    }
}

proof fn lemma_node_of_bounds(ms: Seq<CapabilityManifest>, j: int)
    requires
        0 <= j < ms.len(),
        ms.len() < index_limit(),
    ensures
        j <= node_of(ms, j) < ms.len(),
{
    let names = manifest_names(ms);
    assert(names[j] == ms[j].name@);
    lemma_last_position_bounds(names, j);
}

proof fn lemma_providers_bounded(ms: Seq<CapabilityManifest>, k: nat, c: Seq<char>)
    requires
        k <= ms.len(),
        ms.len() < index_limit(),
    ensures
        forall|t: int|
            0 <= t < providers_upto(ms, k, c).len() ==> #[trigger] providers_upto(ms, k, c)[t]
                < ms.len(),
    decreases k,
{
    if k > 0 {
        lemma_providers_bounded(ms, (k - 1) as nat, c);
        lemma_node_of_bounds(ms, k - 1);
        let prev = providers_upto(ms, (k - 1) as nat, c);
        let more = Seq::new(
            count_in(ms[k - 1].capabilities.deep_view(), c),
            |t: int| node_of(ms, k - 1),
        );
        assert forall|t: int| 0 <= t < providers_upto(ms, k, c).len() implies #[trigger] providers_upto(
            ms,
            k,
            c,
        )[t] < ms.len() by {
            if t < prev.len() {
                assert(providers_upto(ms, k, c)[t] == prev[t]);
            } else {
                assert(providers_upto(ms, k, c)[t] == more[t - prev.len()]);
            }
        }
    }
}

/// Every edge of the graph of the manifests joins two of their nodes.
proof fn lemma_manifest_edges_bounded(ms: Seq<CapabilityManifest>, i: int, j: nat)
    requires
        0 <= i < ms.len(),
        ms.len() < index_limit(),
        j <= ms[i].dependencies@.len(),
    ensures
        forall|k: int|
            0 <= k < manifest_edges(ms, i, j).len() ==> (#[trigger] manifest_edges(ms, i, j)[k]).0
                < ms.len() && manifest_edges(ms, i, j)[k].1 < ms.len(),
    decreases j,
{
    if j > 0 {
        lemma_manifest_edges_bounded(ms, i, (j - 1) as nat);
        let c = ms[i].dependencies.deep_view()[j - 1];
        lemma_providers_bounded(ms, ms.len(), c);
        lemma_node_of_bounds(ms, i);
        let prev = manifest_edges(ms, i, (j - 1) as nat);
        let more = requirement_edges(ms, i, c);
        assert forall|k: int| 0 <= k < manifest_edges(ms, i, j).len() implies (
        #[trigger] manifest_edges(ms, i, j)[k]).0 < ms.len() && manifest_edges(ms, i, j)[k].1
            < ms.len() by {
            if k < prev.len() {
                assert(manifest_edges(ms, i, j)[k] == prev[k]);
            } else {
                assert(manifest_edges(ms, i, j)[k] == more[k - prev.len()]);
                assert(provider_nodes(ms, c)[k - prev.len()] < ms.len());
            }
        }
    }
}

proof fn lemma_edges_upto_bounded(ms: Seq<CapabilityManifest>, i: nat)
    requires
        i <= ms.len(),
        ms.len() < index_limit(),
    ensures
        forall|k: int|
            0 <= k < edges_upto(ms, i).len() ==> (#[trigger] edges_upto(ms, i)[k]).0 < ms.len()
                && edges_upto(ms, i)[k].1 < ms.len(),
    decreases i,
{
    if i > 0 {
        lemma_edges_upto_bounded(ms, (i - 1) as nat);
        lemma_manifest_edges_bounded(ms, i - 1, ms[i - 1].dependencies@.len());
        let prev = edges_upto(ms, (i - 1) as nat);
        let more = manifest_edges(ms, i - 1, ms[i - 1].dependencies@.len());
        assert forall|k: int| 0 <= k < edges_upto(ms, i).len() implies (#[trigger] edges_upto(
            ms,
            i,
        )[k]).0 < ms.len() && edges_upto(ms, i)[k].1 < ms.len() by {
            if k < prev.len() {
                assert(edges_upto(ms, i)[k] == prev[k]);
            } else {
                assert(edges_upto(ms, i)[k] == more[k - prev.len()]);
            }
        }
    }
}

proof fn lemma_manifest_edges_grow(ms: Seq<CapabilityManifest>, i: int, j: nat, m: nat)
    requires
        j <= m,
    ensures
        manifest_edges(ms, i, j).len() <= manifest_edges(ms, i, m).len(),
    decreases m,
{
    if j < m {
        lemma_manifest_edges_grow(ms, i, j, (m - 1) as nat);
    }
}

proof fn lemma_edges_upto_grow(ms: Seq<CapabilityManifest>, i: nat, m: nat)
    requires
        i <= m,
    ensures
        edges_upto(ms, i).len() <= edges_upto(ms, m).len(),
    decreases m,
{
    if i < m {
        lemma_edges_upto_grow(ms, i, (m - 1) as nat);
    }
}

/// The node of each manifest: the position of the last manifest with its name.
fn nodes_of_manifests(ms: &[CapabilityManifest]) -> (v: Vec<usize>)
    ensures
        v@.len() == ms@.len(),
        forall|j: int| 0 <= j < ms@.len() ==> #[trigger] v@[j] == node_of(ms@, j),
{
    let n = ms.len();
    let ghost names = manifest_names(ms@);
    let mut v: Vec<usize> = Vec::new();
    let mut j: usize = 0;
    while j < n
        invariant
            n == ms@.len(),
            j <= n,
            names == manifest_names(ms@),
            v@.len() == j,
            forall|t: int| 0 <= t < j ==> #[trigger] v@[t] == node_of(ms@, t),
        decreases n - j,
    {
        let mut k: usize = n;
        while k > 0 && !crate::text::str_eq(ms[k - 1].name.as_str(), ms[j].name.as_str())
            invariant
                n == ms@.len(),
                j < n,
                j < k <= n,
                names == manifest_names(ms@),
                forall|u: int| k <= u < n ==> names[u] != ms@[j as int].name@,
            decreases k,
        {
            assert(names[k - 1] == ms@[k - 1].name@);
            k = k - 1;
        }
        proof {
            assert(k > j);
            assert(names[k - 1] == ms@[j as int].name@);
            lemma_last_position_is(names, ms@[j as int].name@, k - 1);
        }
        v.push(k - 1);
        j = j + 1;
    }
    v
}

/// The provider nodes of a contract.
fn provider_nodes_of(ms: &[CapabilityManifest], nodes: &Vec<usize>, c: &str) -> (r: Vec<usize>)
    requires
        nodes@.len() == ms@.len(),
        forall|j: int| 0 <= j < ms@.len() ==> #[trigger] nodes@[j] == node_of(ms@, j),
    ensures
        r@ == provider_nodes(ms@, c@),
{
    let n = ms.len();
    let mut r: Vec<usize> = Vec::new();
    let mut j: usize = 0;
    while j < n
        invariant
            n == ms@.len(),
            j <= n,
            nodes@.len() == ms@.len(),
            forall|t: int| 0 <= t < ms@.len() ==> #[trigger] nodes@[t] == node_of(ms@, t),
            r@ == providers_upto(ms@, j as nat, c@),
        decreases n - j,
    {
        let caps = &ms[j].capabilities;
        let ghost capv = caps.deep_view();
        let ghost base = r@;
        let mut k: usize = 0;
        while k < caps.len()
            invariant
                j < n,
                n == ms@.len(),
                capv == caps.deep_view(),
                nodes@.len() == ms@.len(),
                forall|t: int| 0 <= t < ms@.len() ==> #[trigger] nodes@[t] == node_of(ms@, t),
                k <= caps@.len(),
                r@ == base + Seq::new(
                    count_in(capv.take(k as int), c@),
                    |t: int| node_of(ms@, j as int),
                ),
            decreases caps@.len() - k,
        {
            let ghost before = r@;
            assert(capv.take(k + 1).drop_last() =~= capv.take(k as int));
            assert(capv.take(k + 1).last() == caps@[k as int]@);
            if crate::text::str_eq(caps[k].as_str(), c) {
                r.push(nodes[j]);
                assert(r@ =~= base + Seq::new(
                    count_in(capv.take(k + 1), c@),
                    |t: int| node_of(ms@, j as int),
                ));
            } else {
                assert(r@ =~= base + Seq::new(
                    count_in(capv.take(k + 1), c@),
                    |t: int| node_of(ms@, j as int),
                ));
            }
            k = k + 1;
        }
        assert(capv.take(caps@.len() as int) =~= capv);
        assert(ms@[j as int].capabilities.deep_view() == capv);
        j = j + 1;
    }
    r
}

impl DependencyResolver for PetgraphDependencyResolver {
    type Graph = PetgraphDependencyGraph;

    /// The dependency graph of the manifests: their names as nodes, an edge from each
    /// provider of a required contract to the manifest requiring it, and the requirements
    /// no manifest provides.
    fn build(&self, manifests: &[CapabilityManifest]) -> (r: Result<
        PetgraphDependencyGraph,
        EpistemError,
    >)
        ensures
            r matches Ok(g) && g.node_names() == manifest_names(manifests@) && g.edge_list()
                == dependency_edges(manifests@) && g.unresolved_list() == unresolved_of(
                manifests@,
            ),
    {
        let ms = manifests;
        let n = ms.len();
        let mut g = graph::graph_new();
        let mut i: usize = 0;
        while i < n
            invariant
                n == ms@.len(),
                n < index_limit(),
                i <= n,
                graph_nodes(g) == manifest_names(ms@).take(i as int),
                graph_edges(g) == Seq::<EdgeEntry>::empty(),
            decreases n - i,
        {
            let name = ms[i].name.clone();
            graph::graph_add_node(&mut g, name);
            assert(graph_nodes(g) =~= manifest_names(ms@).take(i + 1));
            i = i + 1;
        }
        assert(manifest_names(ms@).take(n as int) =~= manifest_names(ms@));
        let nodes = nodes_of_manifests(ms);
        let mut unresolved: Vec<String> = Vec::new();
        let mut i: usize = 0;
        while i < n
            invariant
                n == ms@.len(),
                n < index_limit(),
                i <= n,
                dependency_edges(ms@).len() < index_limit(),
                nodes@.len() == ms@.len(),
                forall|t: int| 0 <= t < ms@.len() ==> #[trigger] nodes@[t] == node_of(ms@, t),
                graph_nodes(g) == manifest_names(ms@),
                graph_edges(g) == edges_upto(ms@, i as nat),
                unresolved.deep_view() == unresolved_upto(ms@, i as nat),
            decreases n - i,
        {
            let deps = &ms[i].dependencies;
            let ghost depv = deps.deep_view();
            proof {
                lemma_node_of_bounds(ms@, i as int);
                lemma_edges_upto_grow(ms@, (i + 1) as nat, n as nat);
            }
            let mut j: usize = 0;
            while j < deps.len()
                invariant
                    n == ms@.len(),
                    n < index_limit(),
                    i < n,
                    depv == deps.deep_view(),
                    deps@ == ms@[i as int].dependencies@,
                    j <= deps@.len(),
                    nodes@.len() == ms@.len(),
                    forall|t: int| 0 <= t < ms@.len() ==> #[trigger] nodes@[t] == node_of(ms@, t),
                    nodes@[i as int] < n,
                    edges_upto(ms@, (i + 1) as nat).len() < index_limit(),
                    graph_nodes(g) == manifest_names(ms@),
                    graph_edges(g) == edges_upto(ms@, i as nat) + manifest_edges(ms@, i as int, j as nat),
                    unresolved.deep_view() == unresolved_upto(ms@, i as nat) + manifest_unresolved(
                        ms@,
                        i as int,
                        j as nat,
                    ),
                decreases deps@.len() - j,
            {
                let d = deps[j].as_str();
                assert(depv[j as int] == d@);
                let providers = provider_nodes_of(ms, &nodes, d);
                proof {
                    lemma_providers_bounded(ms@, n as nat, d@);
                    lemma_manifest_edges_grow(ms@, i as int, (j + 1) as nat, deps@.len() as nat);
                }
                if providers.len() == 0 {
                    let ghost before = unresolved.deep_view();
                    unresolved.push(crate::text::owned(d));
                    assert(unresolved.deep_view() =~= before.push(d@));
                    assert(unresolved.deep_view() =~= unresolved_upto(ms@, i as nat)
                        + manifest_unresolved(ms@, i as int, (j + 1) as nat));
                    assert(requirement_edges(ms@, i as int, d@) =~= Seq::<EdgeEntry>::empty());
                    assert(graph_edges(g) =~= edges_upto(ms@, i as nat) + manifest_edges(
                        ms@,
                        i as int,
                        (j + 1) as nat,
                    ));
                } else {
                    let ghost base = graph_edges(g);
                    let ghost more = requirement_edges(ms@, i as int, d@);
                    let mut t: usize = 0;
                    while t < providers.len()
                        invariant
                            n == ms@.len(),
                            n < index_limit(),
                            i < n,
                            nodes@.len() == ms@.len(),
                            nodes@[i as int] == node_of(ms@, i as int),
                            nodes@[i as int] < n,
                            providers@ == provider_nodes(ms@, d@),
                            forall|u: int| 0 <= u < providers@.len() ==> #[trigger] providers@[u] < n,
                            more == requirement_edges(ms@, i as int, d@),
                            base.len() + more.len() < index_limit(),
                            t <= providers@.len(),
                            graph_nodes(g) == manifest_names(ms@),
                            graph_edges(g) == base + more.take(t as int),
                        decreases providers@.len() - t,
                    {
                        let ghost before = graph_edges(g);
                        graph::graph_add_edge(&mut g, providers[t], nodes[i], crate::text::owned(d));
                        assert(more[t as int] == (providers@[t as int], nodes@[i as int], d@));
                        assert(graph_edges(g) =~= base + more.take(t + 1));
                        t = t + 1;
                    }
                    assert(more.take(providers@.len() as int) =~= more);
                    assert(unresolved.deep_view() =~= unresolved_upto(ms@, i as nat)
                        + manifest_unresolved(ms@, i as int, (j + 1) as nat));
                    assert(graph_edges(g) =~= edges_upto(ms@, i as nat) + manifest_edges(
                        ms@,
                        i as int,
                        (j + 1) as nat,
                    ));
                }
                j = j + 1;
            }
            assert(ms@[i as int].dependencies@.len() == deps@.len());
            assert(graph_edges(g) =~= edges_upto(ms@, (i + 1) as nat));
            assert(unresolved.deep_view() =~= unresolved_upto(ms@, (i + 1) as nat));
            i = i + 1;
        }
        proof {
            lemma_edges_upto_bounded(ms@, n as nat);
        }
        Ok(PetgraphDependencyGraph { graph: g, unresolved })
    }
}

impl DependencyGraph for PetgraphDependencyGraph {
    /// The node names, one per manifest, in manifest order.
    fn nodes(&self) -> (r: Vec<String>)
        ensures
            r.deep_view() == self.node_names(),
    {
        let count = graph::graph_node_count(&self.graph);
        let mut r: Vec<String> = Vec::new();
        let mut i: usize = 0;
        while i < count
            invariant
                i <= count,
                count == graph_nodes(self.graph).len(),
                r.deep_view() == graph_nodes(self.graph).take(i as int),
            decreases count - i,
        {
            let ghost before = r.deep_view();
            let w = graph::graph_node_weight(&self.graph, i);
            r.push(w);
            assert(r.deep_view() =~= before.push(graph_nodes(self.graph)[i as int]));
            assert(graph_nodes(self.graph).take(i + 1) =~= graph_nodes(self.graph).take(
                i as int,
            ).push(graph_nodes(self.graph)[i as int]));
            i = i + 1;
        }
        assert(graph_nodes(self.graph).take(count as int) =~= graph_nodes(self.graph));
        r
    }

    /// The edges, in the order they were added: each with the name of its provider, the
    /// name of its dependent and the contract that joins them.
    fn edges(&self) -> (r: Vec<DependencyEdge>)
        ensures
            r.deep_view() == self.edge_list().map_values(
                |e: EdgeEntry| (self.node_names()[e.0 as int], self.node_names()[e.1 as int], e.2),
            ),
    {
        proof {
            use_type_invariant(self);
        }
        let count = graph::graph_edge_count(&self.graph);
        let ghost nodes = graph_nodes(self.graph);
        let ghost spec_edges = graph_edges(self.graph).map_values(
            |e: EdgeEntry| (nodes[e.0 as int], nodes[e.1 as int], e.2),
        );
        let mut r: Vec<DependencyEdge> = Vec::new();
        let mut i: usize = 0;
        while i < count
            invariant
                i <= count,
                count == graph_edges(self.graph).len(),
                nodes == graph_nodes(self.graph),
                spec_edges == graph_edges(self.graph).map_values(
                    |e: EdgeEntry| (nodes[e.0 as int], nodes[e.1 as int], e.2),
                ),
                forall|k: int|
                    0 <= k < graph_edges(self.graph).len() ==> (#[trigger] graph_edges(
                        self.graph,
                    )[k]).0 < nodes.len() && graph_edges(self.graph)[k].1 < nodes.len(),
                r.deep_view() == spec_edges.take(i as int),
            decreases count - i,
        {
            let (source, target, contract) = graph::graph_edge(&self.graph, i);
            let ghost e = graph_edges(self.graph)[i as int];
            assert(e.0 < nodes.len() && e.1 < nodes.len());
            let provider = graph::graph_node_weight(&self.graph, source);
            let dependent = graph::graph_node_weight(&self.graph, target);
            let ghost before = r.deep_view();
            let edge = DependencyEdge { provider, dependent, contract };
            assert(edge.deep_view() == spec_edges[i as int]);
            r.push(edge);
            assert(r.deep_view() =~= before.push(spec_edges[i as int]));
            assert(spec_edges.take(i + 1) =~= spec_edges.take(i as int).push(spec_edges[i as int]));
            i = i + 1;
        }
        assert(spec_edges.take(count as int) =~= spec_edges);
        r
    }

    /// The node names in topological order (every provider before the manifests that depend
    /// on it), or a cycle error naming a node on a cycle.
    fn topological_order(&self) -> (r: Result<Vec<String>, EpistemError>)
        ensures
            match r {
                Ok(v) => order_outcome(
                    self.node_names(),
                    toposort_of(self.node_names(), self.edge_list()),
                ) == Ok::<Seq<Seq<char>>, ErrorView>(v.deep_view()) && exists|order: Seq<usize>|
                    is_topological_order(self.node_names().len(), self.edge_list(), order)
                        && v.deep_view() == names_in_order(self.node_names(), order),
                Err(e) => order_outcome(
                    self.node_names(),
                    toposort_of(self.node_names(), self.edge_list()),
                ) == Err::<Seq<Seq<char>>, ErrorView>(e@) && !has_topological_order(
                    self.node_names().len(),
                    self.edge_list(),
                ),
            },
    {
        let sorted = graph::graph_toposort(&self.graph);
        let ghost s = match sorted {
            Ok(ref o) => Ok::<Seq<usize>, usize>(o@),
            Err(n) => Err::<Seq<usize>, usize>(n),
        };
        let r = self.order_from_toposort(sorted);
        proof {
            match s {
                Ok(o) => {
                    assert(is_topological_order(self.node_names().len(), self.edge_list(), o));
                },
                Err(n) => {},
            }
        }
        r
    }

    /// The requirements no manifest provides, in the order they were met.
    fn unresolved_requirements(&self) -> (r: Vec<String>)
        ensures
            r.deep_view() == self.unresolved_list(),
    {
        crate::text::copy_texts(&self.unresolved)
    }
}


/// Whether the dependency graph of the manifests can be built: it has fewer nodes, and
/// fewer edges, than a graph indexed by `u32` holds.
pub fn graph_fits(manifests: &[CapabilityManifest]) -> (b: bool)
    ensures
        b == (manifests@.len() < index_limit() && dependency_edges(manifests@).len()
            < index_limit()),
{
    let ms = manifests;
    let n = ms.len();
    if n >= 0xffff_ffff {
        return false;
    }
    let limit: usize = 0xffff_ffff;
    let nodes = nodes_of_manifests(ms);
    let mut total: usize = 0;
    let mut i: usize = 0;
    while i < n
        invariant
            ms@ == manifests@,
            n == ms@.len(),
            n < index_limit(),
            limit == index_limit(),
            i <= n,
            nodes@.len() == ms@.len(),
            forall|t: int| 0 <= t < ms@.len() ==> #[trigger] nodes@[t] == node_of(ms@, t),
            total == edges_upto(ms@, i as nat).len(),
            total < limit,
        decreases n - i,
    {
        let deps = &ms[i].dependencies;
        let ghost depv = deps.deep_view();
        let mut j: usize = 0;
        while j < deps.len()
            invariant
                ms@ == manifests@,
                n == ms@.len(),
                i < n,
                limit == index_limit(),
                depv == deps.deep_view(),
                deps@ == ms@[i as int].dependencies@,
                j <= deps@.len(),
                nodes@.len() == ms@.len(),
                forall|t: int| 0 <= t < ms@.len() ==> #[trigger] nodes@[t] == node_of(ms@, t),
                total == edges_upto(ms@, i as nat).len() + manifest_edges(ms@, i as int, j as nat).len(),
                total < limit,
            decreases deps@.len() - j,
        {
            let d = deps[j].as_str();
            assert(depv[j as int] == d@);
            let providers = provider_nodes_of(ms, &nodes, d);
            let count = providers.len();
            assert(requirement_edges(ms@, i as int, d@).len() == count);
            if count >= limit - total {
                proof {
                    lemma_manifest_edges_grow(ms@, i as int, (j + 1) as nat, deps@.len() as nat);
                    lemma_edges_upto_grow(ms@, (i + 1) as nat, n as nat);
                    assert(manifest_edges(ms@, i as int, (j + 1) as nat).len() == manifest_edges(
                        ms@,
                        i as int,
                        j as nat,
                    ).len() + count);
                    assert(edges_upto(ms@, (i + 1) as nat).len() == edges_upto(ms@, i as nat).len()
                        + manifest_edges(ms@, i as int, deps@.len() as nat).len());
                }
                return false;
            }
            total = total + count;
            assert(manifest_edges(ms@, i as int, (j + 1) as nat).len() == manifest_edges(
                ms@,
                i as int,
                j as nat,
            ).len() + count);
            j = j + 1;
        }
        assert(edges_upto(ms@, (i + 1) as nat).len() == edges_upto(ms@, i as nat).len()
            + manifest_edges(ms@, i as int, deps@.len() as nat).len());
        i = i + 1;
    }
    true
}

} // verus!
