//! The directed graph of package names, kept in a `petgraph` graph.
use vstd::prelude::*;

verus! {

/// `petgraph::Directed`, the marker of graphs whose edges have a direction.
#[verifier::external_type_specification]
#[verifier::external_body]
pub struct ExDirected(petgraph::Directed);

/// `petgraph::graph::Graph`, of which nothing is known but what the
/// functions below say of its nodes and edges.
#[verifier::external_type_specification]
#[verifier::external_body]
#[verifier::reject_recursive_types(N)]
#[verifier::reject_recursive_types(E)]
#[verifier::reject_recursive_types(Ty)]
#[verifier::reject_recursive_types(Ix)]
pub struct ExGraph<N, E, Ty, Ix>(petgraph::graph::Graph<N, E, Ty, Ix>);

/// The names on the nodes of a graph, by node index.
pub uninterp spec fn graph_nodes(g: petgraph::graph::DiGraph<String, (), usize>) -> Seq<Seq<char>>;

/// The edges of a graph as pairs (source, target) of node indices, by edge
/// index.
pub uninterp spec fn graph_edges(g: petgraph::graph::DiGraph<String, (), usize>) -> Seq<(int, int)>;

/// `Graph::with_capacity`, with no capacity asked for: a graph without
/// nodes or edges. Its nodes and edges are numbered with `usize`, so the
/// graph sets no limit of its own on their number.
#[verifier::external_body]
pub(crate) fn graph_new() -> (g: petgraph::graph::DiGraph<String, (), usize>)
    ensures
        graph_nodes(g) == Seq::<Seq<char>>::empty(),
        graph_edges(g) == Seq::<(int, int)>::empty(),
{
    petgraph::graph::DiGraph::with_capacity(0, 0)
}

/// `Graph::add_node`: the new node gets the next index and carries `name`;
/// the edges stay as they are.
#[verifier::external_body]
pub(crate) fn graph_add_node(g: &mut petgraph::graph::DiGraph<String, (), usize>, name: String) -> (index:
    usize)
    ensures
        index == graph_nodes(*old(g)).len(),
        graph_nodes(*final(g)) == graph_nodes(*old(g)).push(name@),
        graph_edges(*final(g)) == graph_edges(*old(g)),
{
    g.add_node(name).index()
}

/// `Graph::add_edge`: the new edge gets the next index and runs from node
/// `source` to node `target`; the nodes stay as they are. The graph panics
/// on a node index that is out of bounds, so such a call is left out.
#[verifier::external_body]
pub(crate) fn graph_add_edge(
    g: &mut petgraph::graph::DiGraph<String, (), usize>,
    source: usize,
    target: usize,
)
    requires
        source < graph_nodes(*old(g)).len(),
        target < graph_nodes(*old(g)).len(),
    ensures
        graph_nodes(*final(g)) == graph_nodes(*old(g)),
        graph_edges(*final(g)) == graph_edges(*old(g)).push((source as int, target as int)),
{
    g.add_edge(
        petgraph::graph::NodeIndex::new(source),
        petgraph::graph::NodeIndex::new(target),
        (),
    );
}

/// `Graph::node_count`: the number of nodes.
#[verifier::external_body]
pub(crate) fn graph_node_count(g: &petgraph::graph::DiGraph<String, (), usize>) -> (n: usize)
    ensures
        n == graph_nodes(*g).len(),
{
    g.node_count()
}

/// `Graph::edge_count`: the number of edges.
#[verifier::external_body]
pub(crate) fn graph_edge_count(g: &petgraph::graph::DiGraph<String, (), usize>) -> (n: usize)
    ensures
        n == graph_edges(*g).len(),
{
    g.edge_count()
}

/// The graph's `Index<NodeIndex>`: the name on node `node`. It panics on an
/// index out of bounds, so such a call is left out.
#[verifier::external_body]
pub(crate) fn graph_node_name(g: &petgraph::graph::DiGraph<String, (), usize>, node: usize) -> (name:
    &String)
    requires
        node < graph_nodes(*g).len(),
    ensures
        name@ == graph_nodes(*g)[node as int],
{
    &g[petgraph::graph::NodeIndex::new(node)]
}

/// `Graph::edge_endpoints`: the source and the target of edge `edge`, and
/// nothing for an index that no edge has.
#[verifier::external_body]
pub(crate) fn graph_edge_endpoints(g: &petgraph::graph::DiGraph<String, (), usize>, edge: usize) -> (ends:
    Option<(usize, usize)>)
    ensures
        ends is Some <==> edge < graph_edges(*g).len(),
        ends matches Some(pair) ==> graph_edges(*g)[edge as int] == (pair.0 as int, pair.1 as int),
{
    match g.edge_endpoints(petgraph::graph::EdgeIndex::new(edge)) {
        Some((source, target)) => Some((source.index(), target.index())),
        None => None,
    }
}

} // verus!
