//! The causal graph: a directed graph of the `petgraph` crate whose nodes
//! carry feature vectors and whose edges carry causal links.
//!
//! Nothing in this file is proved. It declares the graph type, names what
//! a graph holds, and gives each graph method that the world model calls a
//! contract over those names.

use vstd::prelude::*;
use crate::cwm::{CausalEdge, CausalEdgeKind};

verus! {

#[verifier::external_type_specification]
#[verifier::external_body]
#[verifier::reject_recursive_types(N)]
#[verifier::reject_recursive_types(E)]
#[verifier::reject_recursive_types(Ty)]
#[verifier::reject_recursive_types(Ix)]
pub struct ExGraph<N, E, Ty, Ix>(petgraph::graph::Graph<N, E, Ty, Ix>);

#[verifier::external_type_specification]
#[verifier::external_body]
pub struct ExDirected(petgraph::Directed);

/// The feature vectors of the nodes of `graph`, by node index. Each
/// feature is the bit pattern of a single-precision number.
pub uninterp spec fn graph_nodes(graph: petgraph::graph::Graph<Vec<u32>, CausalEdge>) -> Seq<Seq<u32>>;

/// An edge as a value: where it starts, where it ends, and what it
/// carries.
pub struct Link {
    pub from: int,
    pub to: int,
    pub kind: CausalEdgeKind,
    pub weight_bits: u32,
    pub metadata: Option<Seq<char>>,
}

impl Link {
    /// The link from node `from` to node `to` that carries `edge`.
    pub open spec fn of(from: int, to: int, edge: CausalEdge) -> Link {
        Link {
            from,
            to,
            kind: edge.kind,
            weight_bits: edge.weight_bits,
            metadata: match edge.metadata {
                Some(text) => Some(text@),
                None => None,
            },
        }
    }
}

/// The edges of `graph`, by edge index.
pub uninterp spec fn graph_links(graph: petgraph::graph::Graph<Vec<u32>, CausalEdge>) -> Seq<Link>;

/// Whether some edge leads from node `from` to node `to`.
pub open spec fn linked(links: Seq<Link>, from: int, to: int) -> bool {
    exists|i: int| 0 <= i < links.len() && (#[trigger] links[i]).from == from && links[i].to == to
}

/// `petgraph::graph::Graph::new`: a directed graph without nodes or edges.
#[verifier::external_body]
pub(crate) fn graph_new() -> (graph: petgraph::graph::Graph<Vec<u32>, CausalEdge>)
    ensures
        graph_nodes(graph) == Seq::<Seq<u32>>::empty(),
        graph_links(graph) == Seq::<Link>::empty(),
{
    petgraph::graph::Graph::new()
}

/// `petgraph::graph::Graph::add_node`: the new node comes after all the
/// others, and its index is returned. The graph must have room for it.
#[verifier::external_body]
pub(crate) fn graph_add_node(
    graph: &mut petgraph::graph::Graph<Vec<u32>, CausalEdge>,
    features: Vec<u32>,
) -> (index: usize)
    requires
        graph_nodes(*old(graph)).len() < u32::MAX,
    ensures
        index == graph_nodes(*old(graph)).len(),
        graph_nodes(*final(graph)) == graph_nodes(*old(graph)).push(features@),
        graph_links(*final(graph)) == graph_links(*old(graph)),
{
    graph.add_node(features).index()
}

/// `petgraph::graph::Graph::add_edge`: the new edge comes after all the
/// others, and its index is returned. Both nodes must exist, and the graph
/// must have room for the edge.
#[verifier::external_body]
pub(crate) fn graph_add_edge(
    graph: &mut petgraph::graph::Graph<Vec<u32>, CausalEdge>,
    from: usize,
    to: usize,
    edge: CausalEdge,
) -> (index: usize)
    requires
        from < graph_nodes(*old(graph)).len(),
        to < graph_nodes(*old(graph)).len(),
        graph_nodes(*old(graph)).len() <= u32::MAX,
        graph_links(*old(graph)).len() < u32::MAX,
    ensures
        index == graph_links(*old(graph)).len(),
        graph_links(*final(graph)) == graph_links(*old(graph)).push(
            Link::of(from as int, to as int, edge),
        ),
        graph_nodes(*final(graph)) == graph_nodes(*old(graph)),
{
    graph.add_edge(
        petgraph::graph::NodeIndex::new(from),
        petgraph::graph::NodeIndex::new(to),
        edge,
    ).index()
}

/// `petgraph::graph::Graph::node_count`: the number of nodes.
#[verifier::external_body]
pub(crate) fn graph_node_count(graph: &petgraph::graph::Graph<Vec<u32>, CausalEdge>) -> (count: usize)
    ensures
        count == graph_nodes(*graph).len(),
{
    graph.node_count()
}

/// `petgraph::graph::Graph::edge_count`: the number of edges.
#[verifier::external_body]
pub(crate) fn graph_edge_count(graph: &petgraph::graph::Graph<Vec<u32>, CausalEdge>) -> (count: usize)
    ensures
        count == graph_links(*graph).len(),
{
    graph.edge_count()
}

/// `petgraph::graph::Graph::find_edge`: whether some edge leads from the
/// one node to the other. Both must exist.
#[verifier::external_body]
pub(crate) fn graph_has_edge(
    graph: &petgraph::graph::Graph<Vec<u32>, CausalEdge>,
    from: usize,
    to: usize,
) -> (found: bool)
    requires
        from < graph_nodes(*graph).len(),
        to < graph_nodes(*graph).len(),
        graph_nodes(*graph).len() <= u32::MAX,
    ensures
        found == linked(graph_links(*graph), from as int, to as int),
{
    graph.find_edge(
        petgraph::graph::NodeIndex::new(from),
        petgraph::graph::NodeIndex::new(to),
    ).is_some()
}

/// `petgraph::graph::Graph::node_weight`: a copy of the features of a
/// node. The node must exist.
#[verifier::external_body]
pub(crate) fn graph_node_features(
    graph: &petgraph::graph::Graph<Vec<u32>, CausalEdge>,
    index: usize,
) -> (features: Vec<u32>)
    requires
        index < graph_nodes(*graph).len(),
        graph_nodes(*graph).len() <= u32::MAX,
    ensures
        features@ == graph_nodes(*graph)[index as int],
{
    graph.node_weight(petgraph::graph::NodeIndex::new(index)).cloned().unwrap_or_default()
}

} // verus!
