use vstd::prelude::*;
use petgraph::graph::{Graph, NodeIndex};
use petgraph::Directed;

verus! {

#[verifier::external_type_specification]
#[verifier::external_body]
#[verifier::reject_recursive_types(N)]
#[verifier::reject_recursive_types(E)]
#[verifier::reject_recursive_types(Ty)]
#[verifier::reject_recursive_types(Ix)]
pub struct ExGraph<N, E, Ty, Ix>(Graph<N, E, Ty, Ix>);

#[verifier::external_type_specification]
#[verifier::external_body]
pub struct ExDirected(Directed);

/// An edge of a dependency graph as plain values: source node, target node, and weight.
pub type EdgeEntry = (usize, usize, Seq<char>);

/// Names the node weights of a petgraph graph, in node-index order.
pub uninterp spec fn graph_nodes(g: Graph<String, String, Directed, u32>) -> Seq<Seq<char>>;

/// Names the edges of a petgraph graph, in edge-index order.
pub uninterp spec fn graph_edges(g: Graph<String, String, Directed, u32>) -> Seq<EdgeEntry>;

/// Names what `petgraph::algo::toposort` returns for a graph with these nodes and edges:
/// the node indices in order, or the index of a node on a cycle. The sort also follows each
/// node's adjacency lists, which removing edges can reorder; the graphs here are only ever
/// built by adding nodes and edges, so their nodes and edges fix those lists, and the sort
/// is a function of them.
pub uninterp spec fn toposort_of(nodes: Seq<Seq<char>>, edges: Seq<EdgeEntry>) -> Result<
    Seq<usize>,
    usize,
>;

/// An order of the node indices `0..n`, each exactly once, in which the source of every
/// edge comes before its target.
pub open spec fn is_topological_order(n: nat, edges: Seq<EdgeEntry>, order: Seq<usize>) -> bool {
    &&& order.len() == n
    &&& forall|i: int| 0 <= i < order.len() ==> #[trigger] order[i] < n
    &&& forall|i: int, j: int| 0 <= i < j < order.len() ==> order[i] != order[j]
    &&& forall|k: int|
        0 <= k < edges.len() ==> exists|i: int, j: int|
            0 <= i < j < order.len() && order[i] == (#[trigger] edges[k]).0 && order[j]
                == edges[k].1
}

/// Whether the nodes `0..n` can be ordered topologically: the graph is acyclic.
pub open spec fn has_topological_order(n: nat, edges: Seq<EdgeEntry>) -> bool {
    exists|order: Seq<usize>| is_topological_order(n, edges, order)
}

/// The largest number of nodes, and of edges, a graph indexed by `u32` can hold.
pub open spec fn index_limit() -> nat {
    0xffff_ffff
}

/// `Graph::new`: a directed graph without nodes or edges.
#[verifier::external_body]
pub(crate) fn graph_new() -> (g: Graph<String, String, Directed, u32>)
    ensures
        graph_nodes(g) == Seq::<Seq<char>>::empty(),
        graph_edges(g) == Seq::<EdgeEntry>::empty(),
{
    Graph::new()
}

/// `Graph::add_node`: the weight becomes the last node, whose index is returned. It panics
/// when the graph already holds as many nodes as its index type allows, which `requires`
/// rules out.
#[verifier::external_body]
pub(crate) fn graph_add_node(g: &mut Graph<String, String, Directed, u32>, weight: String) -> (i: usize)
    requires
        graph_nodes(*old(g)).len() < index_limit(),
    ensures
        graph_nodes(*final(g)) == graph_nodes(*old(g)).push(weight@),
        graph_edges(*final(g)) == graph_edges(*old(g)),
        i == graph_nodes(*old(g)).len(),
{
    g.add_node(weight).index()
}

/// `Graph::add_edge`: the edge from `a` to `b` becomes the last edge. It panics when a node
/// is missing or the graph already holds as many edges as its index type allows, which
/// `requires` rules out.
#[verifier::external_body]
pub(crate) fn graph_add_edge(g: &mut Graph<String, String, Directed, u32>, a: usize, b: usize, weight: String)
    requires
        a < graph_nodes(*old(g)).len(),
        b < graph_nodes(*old(g)).len(),
        graph_nodes(*old(g)).len() < index_limit(),
        graph_edges(*old(g)).len() < index_limit(),
    ensures
        graph_nodes(*final(g)) == graph_nodes(*old(g)),
        graph_edges(*final(g)) == graph_edges(*old(g)).push((a, b, weight@)),
{
    g.add_edge(NodeIndex::new(a), NodeIndex::new(b), weight);
}

/// `Graph::node_count`.
#[verifier::external_body]
pub(crate) fn graph_node_count(g: &Graph<String, String, Directed, u32>) -> (n: usize)
    ensures
        n == graph_nodes(*g).len(),
{
    g.node_count()
}

/// `Graph::edge_count`.
#[verifier::external_body]
pub(crate) fn graph_edge_count(g: &Graph<String, String, Directed, u32>) -> (n: usize)
    ensures
        n == graph_edges(*g).len(),
{
    g.edge_count()
}

/// `Graph::node_weight` of an existing node, cloned.
#[verifier::external_body]
pub(crate) fn graph_node_weight(g: &Graph<String, String, Directed, u32>, i: usize) -> (w: String)
    requires
        i < graph_nodes(*g).len(),
    ensures
        w@ == graph_nodes(*g)[i as int],
{
    g[NodeIndex::new(i)].clone()
}

/// `Graph::raw_edges`, one existing edge: its source, its target and its weight, cloned.
#[verifier::external_body]
pub(crate) fn graph_edge(g: &Graph<String, String, Directed, u32>, i: usize) -> (e: (usize, usize, String))
    requires
        i < graph_edges(*g).len(),
    ensures
        (e.0, e.1, e.2@) == graph_edges(*g)[i as int],
{
    let edge = &g.raw_edges()[i];
    (edge.source().index(), edge.target().index(), edge.weight.clone())
}

/// `petgraph::algo::toposort`. Its result is named `toposort_of`; as its documentation
/// says, `Ok` holds the nodes in topological order (each before its successors), and `Err`
/// comes only from a graph that is not acyclic, naming one of its nodes.
#[verifier::external_body]
pub(crate) fn graph_toposort(g: &Graph<String, String, Directed, u32>) -> (r: Result<Vec<usize>, usize>)
    ensures
        match r {
            Ok(order) => toposort_of(graph_nodes(*g), graph_edges(*g)) == Ok::<Seq<usize>, usize>(
                order@,
            ) && is_topological_order(graph_nodes(*g).len(), graph_edges(*g), order@),
            Err(n) => toposort_of(graph_nodes(*g), graph_edges(*g)) == Err::<Seq<usize>, usize>(n)
                && n < graph_nodes(*g).len() && !has_topological_order(
                graph_nodes(*g).len(),
                graph_edges(*g),
            ),
        },
{
    match petgraph::algo::toposort(g, None) {
        Ok(order) => Ok(order.into_iter().map(|n| n.index()).collect()),
        Err(cycle) => Err(cycle.node_id().index()),
    }
}

} // verus!
