//! The causal world model's vocabulary.

use vstd::prelude::*;
use crate::causal_graph::{
    graph_add_edge, graph_add_node, graph_edge_count, graph_has_edge, graph_links, graph_new,
    graph_node_count, graph_node_features, graph_nodes, linked, Link,
};
use crate::error::{ErrorModel, PandoraError};
use crate::flow::{DataEidos, EpistemologicalFlow};

verus! {

/// How one thing is taken to cause another.
#[derive(Debug, Clone, Copy, PartialEq, Eq, Structural)]
pub enum CausalEdgeType {
    Direct,
    Indirect,
    Conditional,
    Inhibitory,
}

/// The kind of an edge in the causal graph.
#[derive(Debug, Clone, Copy, PartialEq, Eq, Structural)]
pub enum CausalEdgeKind {
    Cause,
    Enable,
    Precondition,
    Inhibit,
}

impl CausalEdgeType {
    /// The kind of graph edge that stands for a causal link of this type.
    pub open spec fn kind(self) -> CausalEdgeKind {
        match self {
            CausalEdgeType::Direct => CausalEdgeKind::Cause,
            CausalEdgeType::Indirect => CausalEdgeKind::Enable,
            CausalEdgeType::Conditional => CausalEdgeKind::Precondition,
            CausalEdgeType::Inhibitory => CausalEdgeKind::Inhibit,
        }
    }

    /// The kind of graph edge that stands for a causal link of this type.
    pub fn edge_kind(&self) -> (kind: CausalEdgeKind)
        ensures
            kind == self.kind(),
    {
        match self {
            CausalEdgeType::Direct => CausalEdgeKind::Cause,
            CausalEdgeType::Indirect => CausalEdgeKind::Enable,
            CausalEdgeType::Conditional => CausalEdgeKind::Precondition,
            CausalEdgeType::Inhibitory => CausalEdgeKind::Inhibit,
        }
    }
}

/// Simple state predictor for forward modeling.
#[derive(Debug, Clone, Copy)]
pub struct StatePredictor {
    input_dims: usize,
    output_dims: usize,
}

impl StatePredictor {
    /// The width of the embeddings that the predictor reads.
    pub closed spec fn input_width(&self) -> usize {
        self.input_dims
    }

    /// The width of the embeddings that the predictor writes.
    pub closed spec fn output_width(&self) -> usize {
        self.output_dims
    }

    /// Creates a new StatePredictor
    pub fn new(input_dims: usize, output_dims: usize) -> (predictor: Self)
        ensures
            predictor.input_width() == input_dims,
            predictor.output_width() == output_dims,
    {
        StatePredictor { input_dims, output_dims }
    }

    /// The width of the embeddings that the predictor writes.
    pub fn output_dims(&self) -> (width: usize)
        ensures
            width == self.output_width(),
    {
        self.output_dims
    }
}

/// The trainer of world model predictors.
#[derive(Debug, Clone, Copy)]
pub struct WorldModelTrainer;


/// A causal link between two nodes. The weight is the bit pattern of a
/// single-precision number.
#[derive(Debug)]
pub struct CausalEdge {
    pub kind: CausalEdgeKind,
    pub weight_bits: u32,
    pub metadata: Option<String>,
}

impl CausalEdge {
    /// An edge without metadata.
    pub fn new(kind: CausalEdgeKind, weight_bits: u32) -> (edge: Self)
        ensures
            edge.kind == kind,
            edge.weight_bits == weight_bits,
            edge.metadata.is_none(),
    {
        CausalEdge { kind, weight_bits, metadata: None }
    }

    /// An edge with a note attached.
    pub fn with_metadata(kind: CausalEdgeKind, weight_bits: u32, metadata: String) -> (edge: Self)
        ensures
            edge.kind == kind,
            edge.weight_bits == weight_bits,
            edge.metadata == Some(metadata),
    {
        CausalEdge { kind, weight_bits, metadata: Some(metadata) }
    }
}

/// The shape of the network: the width of the node features, the width of
/// the hidden layers, and the number of layers.
#[derive(Debug, Clone, Copy)]
pub struct GnnConfig {
    pub input_dims: usize,
    pub hidden_dims: usize,
    pub num_layers: usize,
}

impl GnnConfig {
    pub fn new(input_dims: usize, hidden_dims: usize, num_layers: usize) -> (config: Self)
        ensures
            config.input_dims == input_dims,
            config.hidden_dims == hidden_dims,
            config.num_layers == num_layers,
    {
        GnnConfig { input_dims, hidden_dims, num_layers }
    }

    /// A shape is valid when no width and no count is zero.
    pub open spec fn valid(self) -> bool {
        self.input_dims > 0 && self.hidden_dims > 0 && self.num_layers > 0
    }

    /// Accepts a valid shape; any other is a configuration error.
    pub fn validate(&self) -> (outcome: Result<(), PandoraError>)
        ensures
            self.valid() <==> outcome is Ok,
            outcome matches Err(error) ==> error@ == ErrorModel::Config(
                "GNN dimensions and layer count must be positive"@,
            ),
    {
        if self.input_dims > 0 && self.hidden_dims > 0 && self.num_layers > 0 {
            Ok(())
        } else {
            Err(PandoraError::config("GNN dimensions and layer count must be positive"))
        }
    }
}

/// The graph of the world model.
pub type CausalGraph = petgraph::graph::Graph<Vec<u32>, CausalEdge>;

/// Graph Neural Network for causal reasoning and world modeling.
pub struct GraphNeuralNetwork {
    /// The underlying causal graph
    pub graph: petgraph::graph::Graph<Vec<u32>, CausalEdge>,
    /// Configuration parameters
    pub config: GnnConfig,
}

/// The message of the error for an edge between nodes that do not exist.
pub open spec fn missing_node_message() -> Seq<char> {
    "Node indices must exist in the graph"@
}

impl GraphNeuralNetwork {
    /// The feature vectors of the nodes, by node index.
    pub open spec fn nodes(&self) -> Seq<Seq<u32>> {
        graph_nodes(self.graph)
    }

    /// The edges, by edge index.
    pub open spec fn links(&self) -> Seq<Link> {
        graph_links(self.graph)
    }

    /// The graph has no more nodes and edges than it can number.
    pub open spec fn wf(&self) -> bool {
        self.nodes().len() <= u32::MAX && self.links().len() <= u32::MAX
    }

    /// Creates a new GraphNeuralNetwork with the given configuration: an
    /// empty graph where the configuration is valid, else its error.
    pub fn new(config: GnnConfig) -> (outcome: Result<Self, PandoraError>)
        ensures
            config.valid() <==> outcome is Ok,
            outcome matches Ok(gnn) ==> gnn.wf() && gnn.config == config && gnn.nodes().len() == 0
                && gnn.links().len() == 0,
    {
        match config.validate() {
            Ok(()) => Ok(GraphNeuralNetwork { graph: graph_new(), config }),
            Err(error) => Err(error),
        }
    }

    /// Adds a new node to the graph with the given features; returns its
    /// index.
    pub fn add_node(&mut self, features: Vec<u32>) -> (index: usize)
        requires
            old(self).wf(),
            old(self).nodes().len() < u32::MAX,
        ensures
            final(self).wf(),
            final(self).config == old(self).config,
            index == old(self).nodes().len(),
            final(self).nodes() == old(self).nodes().push(features@),
            final(self).links() == old(self).links(),
    {
        graph_add_node(&mut self.graph, features)
    }

    /// Adds a causal edge between two nodes; returns its index, or an error
    /// where one of the nodes does not exist.
    pub fn add_edge(&mut self, from: usize, to: usize, edge: CausalEdge) -> (outcome: Result<
        usize,
        PandoraError,
    >)
        requires
            old(self).wf(),
            old(self).links().len() < u32::MAX,
        ensures
            final(self).wf(),
            final(self).config == old(self).config,
            final(self).nodes() == old(self).nodes(),
            match outcome {
                Ok(index) => {
                    &&& from < old(self).nodes().len() && to < old(self).nodes().len()
                    &&& index == old(self).links().len()
                    &&& final(self).links() == old(self).links().push(
                        Link::of(from as int, to as int, edge),
                    )
                },
                Err(error) => {
                    &&& from >= old(self).nodes().len() || to >= old(self).nodes().len()
                    &&& error@ == ErrorModel::Config(missing_node_message())
                    &&& final(self).links() == old(self).links()
                },
            },
    {
        let count = graph_node_count(&self.graph);
        if from >= count || to >= count {
            return Err(PandoraError::config("Node indices must exist in the graph"));
        }
        Ok(graph_add_edge(&mut self.graph, from, to, edge))
    }

    /// Returns the number of nodes in the graph.
    pub fn node_count(&self) -> (count: usize)
        ensures
            count == self.nodes().len(),
    {
        graph_node_count(&self.graph)
    }

    /// Returns the number of edges in the graph.
    pub fn edge_count(&self) -> (count: usize)
        ensures
            count == self.links().len(),
    {
        graph_edge_count(&self.graph)
    }

    /// Returns a reference to the underlying graph.
    pub fn graph(&self) -> (graph: &petgraph::graph::Graph<Vec<u32>, CausalEdge>)
        ensures
            *graph == self.graph,
    {
        &self.graph
    }

    /// Returns a mutable reference to the underlying graph.
    pub fn graph_mut(&mut self) -> (graph: &mut petgraph::graph::Graph<Vec<u32>, CausalEdge>)
        ensures
            *graph == old(self).graph,
            *final(self) == (GraphNeuralNetwork { graph: *final(graph), config: old(self).config }),
    {
        &mut self.graph
    }

    /// Whether an edge leads from node `from` to node `to`; false where
    /// one of them does not exist.
    pub fn has_edge(&self, from: usize, to: usize) -> (found: bool)
        requires
            self.wf(),
        ensures
            found == (from < self.nodes().len() && to < self.nodes().len() && linked(
                self.links(),
                from as int,
                to as int,
            )),
    {
        let count = graph_node_count(&self.graph);
        if from >= count || to >= count {
            return false;
        }
        graph_has_edge(&self.graph, from, to)
    }

    /// The features of every node, by node index.
    pub fn node_features(&self) -> (all: Vec<Vec<u32>>)
        requires
            self.wf(),
        ensures
            all@.len() == self.nodes().len(),
            forall|i: int| 0 <= i < all@.len() ==> (#[trigger] all@[i])@ == self.nodes()[i],
    {
        let count = graph_node_count(&self.graph);
        let mut all: Vec<Vec<u32>> = Vec::new();
        let mut i: usize = 0;
        while i < count
            invariant
                i <= count,
                count == self.nodes().len(),
                self.wf(),
                all@.len() == i,
                forall|j: int| 0 <= j < i ==> (#[trigger] all@[j])@ == self.nodes()[j],
            decreases count - i,
        {
            all.push(graph_node_features(&self.graph, i));
            i += 1;
        }
        all
    }
}

/// The hash of an intent, from its bytes: each byte is added to 31 times
/// the hash of the bytes before it, in 32-bit arithmetic that wraps round.
pub open spec fn intent_hash_of(bytes: Seq<u8>) -> u32
    decreases bytes.len(),
{
    if bytes.len() == 0 {
        0
    } else {
        ((intent_hash_of(bytes.drop_last()) * 31 + bytes.last()) % 0x1_0000_0000) as u32
    }
}

/// The hash of the bytes of an intent.
pub fn intent_hash(bytes: &Vec<u8>) -> (hash: u32)
    ensures
        hash == intent_hash_of(bytes@),
{
    let mut hash: u32 = 0;
    let mut i: usize = 0;
    assert(bytes@.take(0) =~= Seq::<u8>::empty());
    while i < bytes.len()
        invariant
            i <= bytes@.len(),
            hash == intent_hash_of(bytes@.take(i as int)),
        decreases bytes.len() - i,
    {
        proof {
            let seen = bytes@.take(i + 1);
            assert(seen.drop_last() == bytes@.take(i as int));
            assert(seen.last() == bytes@[i as int]);
        }
        let wide: u64 = (hash as u64 * 31 + bytes[i] as u64) % 0x1_0000_0000;
        hash = wide as u32;
        i += 1;
    }
    assert(bytes@.take(bytes@.len() as int) == bytes@);
    hash
}

/// Represents the Interdependent-Causal World Model: a graph of what
/// causes what, and a predictor of the next state.
pub struct InterdependentCausalModel {
    gnn: GraphNeuralNetwork,
    predictor: StatePredictor,
}

/// The indices by which a flow's pattern tells the state of the world.
pub const DOOR_LOCKED: u32 = 1;

pub const DOOR_UNLOCKED: u32 = 2;

pub const HAS_KEY: u32 = 3;

pub const POSITION_FORWARD: u32 = 4;

pub const POSITION_BACKWARD: u32 = 5;

impl InterdependentCausalModel {
    /// The network of the model.
    pub closed spec fn network(&self) -> GraphNeuralNetwork {
        self.gnn
    }

    /// The predictor of the model.
    pub closed spec fn state_predictor(&self) -> StatePredictor {
        self.predictor
    }

    /// The graph has no more nodes and edges than it can number.
    pub open spec fn wf(&self) -> bool {
        self.network().wf()
    }

    /// Creates a new InterdependentCausalModel with the given
    /// configuration: an empty graph and a predictor from the input width
    /// to the hidden width, where the configuration is valid.
    pub fn new(config: GnnConfig) -> (outcome: Result<Self, PandoraError>)
        ensures
            config.valid() <==> outcome is Ok,
            outcome matches Ok(model) ==> {
                &&& model.wf()
                &&& model.network().config == config
                &&& model.network().nodes().len() == 0
                &&& model.network().links().len() == 0
                &&& model.state_predictor().input_width() == config.input_dims
                &&& model.state_predictor().output_width() == config.hidden_dims
            },
    {
        match GraphNeuralNetwork::new(config) {
            Ok(gnn) => {
                let predictor = StatePredictor::new(config.input_dims, config.hidden_dims);
                Ok(InterdependentCausalModel { gnn, predictor })
            },
            Err(error) => Err(error),
        }
    }

    /// Updates the graph from what a flow has to teach. There is nothing
    /// yet that a flow teaches: the model stays as it is.
    pub fn learn_relations(&mut self, _flow: &EpistemologicalFlow) -> (outcome: Result<
        (),
        PandoraError,
    >)
        ensures
            outcome is Ok,
            final(self).network() == old(self).network(),
            final(self).state_predictor() == old(self).state_predictor(),
    {
        Ok(())
    }

    /// Enriches a flow with what the graph knows of its context. There is
    /// nothing yet that the graph adds: the flow stays as it is.
    pub fn infer_context(&self, _flow: &mut EpistemologicalFlow) -> (outcome: Result<
        (),
        PandoraError,
    >)
        ensures
            outcome is Ok,
            *final(_flow) == *old(_flow),
    {
        Ok(())
    }

    /// Returns a reference to the underlying Graph Neural Network.
    pub fn gnn(&self) -> (gnn: &GraphNeuralNetwork)
        ensures
            *gnn == self.network(),
    {
        &self.gnn
    }

    /// Returns a mutable reference to the underlying Graph Neural Network.
    pub fn gnn_mut(&mut self) -> (gnn: &mut GraphNeuralNetwork)
        ensures
            *gnn == old(self).network(),
            final(self).network() == *final(gnn),
            final(self).state_predictor() == old(self).state_predictor(),
    {
        &mut self.gnn
    }

    /// The predictor of the model.
    pub fn predictor(&self) -> (predictor: &StatePredictor)
        ensures
            *predictor == self.state_predictor(),
    {
        &self.predictor
    }

    /// Checks if a causal link exists between two nodes.
    pub fn has_causal_link(&self, from_node: usize, to_node: usize) -> (found: bool)
        requires
            self.wf(),
        ensures
            found == (from_node < self.network().nodes().len() && to_node
                < self.network().nodes().len() && linked(
                self.network().links(),
                from_node as int,
                to_node as int,
            )),
    {
        self.gnn.has_edge(from_node, to_node)
    }

    /// The node that a hypothesis about node `index` speaks of: that node
    /// where it exists, else a new node whose features are all zero.
    fn node_for(&mut self, index: usize) -> (node: usize)
        requires
            old(self).wf(),
            old(self).network().nodes().len() < u32::MAX,
        ensures
            final(self).wf(),
            final(self).network().config == old(self).network().config,
            final(self).state_predictor() == old(self).state_predictor(),
            final(self).network().links() == old(self).network().links(),
            node < final(self).network().nodes().len(),
            if index < old(self).network().nodes().len() {
                node == index && final(self).network().nodes() == old(self).network().nodes()
            } else {
                node == old(self).network().nodes().len() && final(self).network().nodes()
                    == old(self).network().nodes().push(
                    Seq::new(old(self).network().config.input_dims as nat, |i: int| 0u32),
                )
            },
    {
        if index < self.gnn.node_count() {
            index
        } else {
            let width = self.gnn.config.input_dims;
            let mut zeros: Vec<u32> = Vec::new();
            let mut i: usize = 0;
            while i < width
                invariant
                    i <= width,
                    zeros@.len() == i,
                    forall|j: int| 0 <= j < i ==> zeros@[j] == 0,
                decreases width - i,
            {
                zeros.push(0);
                i += 1;
            }
            assert(zeros@ =~= Seq::new(width as nat, |i: int| 0u32));
            self.gnn.add_node(zeros)
        }
    }

    /// The node that stands for index `index` in a graph of `count` nodes:
    /// the node itself where it exists, else the next node to be made.
    pub open spec fn node_standing_for(index: usize, count: nat) -> int {
        if index < count {
            index as int
        } else {
            count as int
        }
    }

    /// The number of nodes once the node for `index` exists.
    pub open spec fn count_with(index: usize, count: nat) -> nat {
        if index < count {
            count
        } else {
            count + 1
        }
    }

    /// Permanently adds a causal link to the model's graph: from the node
    /// `from_index` to the node `to_index`, each made anew with zero
    /// features where it does not exist yet, with the edge kind that stands
    /// for `edge_type`, the given weight and the given note.
    pub fn crystallize_causal_link(
        &mut self,
        from_index: usize,
        to_index: usize,
        edge_type: CausalEdgeType,
        weight_bits: u32,
        note: String,
    ) -> (outcome: Result<(), PandoraError>)
        requires
            old(self).wf(),
            old(self).network().nodes().len() + 2 <= u32::MAX,
            old(self).network().links().len() < u32::MAX,
        ensures
            final(self).wf(),
            outcome is Ok,
            final(self).network().config == old(self).network().config,
            final(self).state_predictor() == old(self).state_predictor(),
            ({
                let before = old(self).network().nodes().len();
                let between = Self::count_with(from_index, before);
                let zeros = Seq::new(old(self).network().config.input_dims as nat, |i: int| 0u32);
                &&& final(self).network().links() == old(self).network().links().push(
                    Link {
                        from: Self::node_standing_for(from_index, before),
                        to: Self::node_standing_for(to_index, between),
                        kind: edge_type.kind(),
                        weight_bits,
                        metadata: Some(note@),
                    },
                )
                &&& final(self).network().nodes().len() == Self::count_with(to_index, between)
                &&& final(self).network().nodes().take(before as int) == old(
                    self
                ).network().nodes()
                &&& forall|i: int|
                    before <= i < final(self).network().nodes().len() ==> (
                    #[trigger] final(self).network().nodes()[i]) == zeros
            }),
    {
        let from_node = self.node_for(from_index);
        let to_node = self.node_for(to_index);
        let edge = CausalEdge::with_metadata(edge_type.edge_kind(), weight_bits, note);
        let outcome = match self.gnn.add_edge(from_node, to_node, edge) {
            Ok(_) => Ok(()),
            Err(error) => Err(error),
        };
        assert(self.network().nodes().take(old(self).network().nodes().len() as int) =~= old(
            self
        ).network().nodes());
        outcome
    }

    /// Writes the state of the door into the flow's pattern.
    pub fn update_sanna_for_door_state(&self, flow: &mut EpistemologicalFlow, is_locked: bool)
        requires
            old(flow).wf(),
        ensures
            final(flow).wf(),
            final(flow).rupa == old(flow).rupa,
            final(flow).vedana == old(flow).vedana,
            final(flow).related_eidos == old(flow).related_eidos,
            final(flow).sankhara == old(flow).sankhara,
            final(flow).sanna matches Some(eidos) && eidos.indices() == (match old(flow).sanna {
                Some(before) => before.indices(),
                None => Set::empty(),
            }).insert(
                if is_locked {
                    DOOR_LOCKED
                } else {
                    DOOR_UNLOCKED
                },
            ).remove(
                if is_locked {
                    DOOR_UNLOCKED
                } else {
                    DOOR_LOCKED
                },
            ),
            final(flow).sanna matches Some(eidos) && eidos.dims() == (match old(flow).sanna {
                Some(before) => before.dims(),
                None => 32,
            }),
    {
        let mut eidos = match flow.sanna.take() {
            Some(eidos) => eidos,
            None => DataEidos::new(32),
        };
        if is_locked {
            eidos.insert(DOOR_LOCKED);
            eidos.remove(DOOR_UNLOCKED);
        } else {
            eidos.insert(DOOR_UNLOCKED);
            eidos.remove(DOOR_LOCKED);
        }
        flow.sanna = Some(eidos);
    }

    /// Writes into the flow's pattern whether the agent holds the key. A
    /// flow without a pattern gets one only where there is a key to tell
    /// of.
    pub fn update_sanna_for_key_state(&self, flow: &mut EpistemologicalFlow, has_key: bool)
        requires
            old(flow).wf(),
        ensures
            final(flow).wf(),
            final(flow).rupa == old(flow).rupa,
            final(flow).vedana == old(flow).vedana,
            final(flow).related_eidos == old(flow).related_eidos,
            final(flow).sankhara == old(flow).sankhara,
            match old(flow).sanna {
                Some(before) => final(flow).sanna matches Some(eidos) && eidos.dims()
                    == before.dims() && eidos.indices() == if has_key {
                    before.indices().insert(HAS_KEY)
                } else {
                    before.indices().remove(HAS_KEY)
                },
                None => if has_key {
                    final(flow).sanna matches Some(eidos) && eidos.dims() == 32 && eidos.indices()
                        == Set::<u32>::empty().insert(HAS_KEY)
                } else {
                    final(flow).sanna.is_none()
                },
            },
    {
        match flow.sanna.take() {
            Some(eidos) => {
                let mut eidos = eidos;
                if has_key {
                    eidos.insert(HAS_KEY);
                } else {
                    eidos.remove(HAS_KEY);
                }
                flow.sanna = Some(eidos);
            },
            None => {
                if has_key {
                    let mut eidos = DataEidos::new(32);
                    eidos.insert(HAS_KEY);
                    flow.sanna = Some(eidos);
                }
            },
        }
    }

    /// The position marks after a move in `direction`: forward for a
    /// positive one, backward for a negative one, none for zero.
    pub open spec fn positioned(indices: Set<u32>, direction: i32) -> Set<u32> {
        let cleared = indices.remove(POSITION_FORWARD).remove(POSITION_BACKWARD);
        if direction > 0 {
            cleared.insert(POSITION_FORWARD)
        } else if direction < 0 {
            cleared.insert(POSITION_BACKWARD)
        } else {
            cleared
        }
    }

    /// Writes a move into the flow's pattern. A flow without a pattern
    /// gets one only where there is a move to tell of.
    pub fn update_sanna_for_position(&self, flow: &mut EpistemologicalFlow, direction: i32)
        requires
            old(flow).wf(),
        ensures
            final(flow).wf(),
            final(flow).rupa == old(flow).rupa,
            final(flow).vedana == old(flow).vedana,
            final(flow).related_eidos == old(flow).related_eidos,
            final(flow).sankhara == old(flow).sankhara,
            match old(flow).sanna {
                Some(before) => final(flow).sanna matches Some(eidos) && eidos.dims()
                    == before.dims() && eidos.indices() == Self::positioned(
                    before.indices(),
                    direction,
                ),
                None => if direction != 0 {
                    final(flow).sanna matches Some(eidos) && eidos.dims() == 32 && eidos.indices()
                        == Self::positioned(Set::empty(), direction)
                } else {
                    final(flow).sanna.is_none()
                },
            },
    {
        match flow.sanna.take() {
            Some(eidos) => {
                let mut eidos = eidos;
                eidos.remove(POSITION_FORWARD);
                eidos.remove(POSITION_BACKWARD);
                if direction > 0 {
                    eidos.insert(POSITION_FORWARD);
                } else if direction < 0 {
                    eidos.insert(POSITION_BACKWARD);
                }
                flow.sanna = Some(eidos);
            },
            None => {
                if direction != 0 {
                    let mut eidos = DataEidos::new(32);
                    if direction > 0 {
                        eidos.insert(POSITION_FORWARD);
                    } else {
                        eidos.insert(POSITION_BACKWARD);
                    }
                    assert(eidos.indices() =~= Self::positioned(Set::empty(), direction));
                    flow.sanna = Some(eidos);
                }
            },
        }
    }
}


/// The index that stands for dimension `dim` in a pattern: the dimension
/// counted round 32 bits.
pub open spec fn index_of_dim(dim: usize) -> u32 {
    (dim as int % 0x1_0000_0000) as u32
}

/// The indices of the first `count` of `dims`.
pub open spec fn leading_indices(dims: Seq<usize>, count: int) -> Set<u32> {
    Set::new(|x: u32| exists|i: int| 0 <= i < count && i < dims.len() && x == index_of_dim(#[trigger] dims[i]))
}

/// The pattern that stands for one significant change: the index of its
/// dimension and, where the change is strong, the indices next to it on
/// either side, as far as there are any.
pub open spec fn change_pattern(dim: usize, strong: bool) -> Set<u32> {
    let index = index_of_dim(dim);
    if strong {
        Set::<u32>::empty().insert(index).insert(
            if index == 0 {
                0u32
            } else {
                (index - 1) as u32
            },
        ).insert(
            if index == u32::MAX {
                u32::MAX
            } else {
                (index + 1) as u32
            },
        )
    } else {
        Set::<u32>::empty().insert(index)
    }
}

fn dim_index(dim: usize) -> (index: u32)
    ensures
        index == index_of_dim(dim),
{
    (dim as u64 % 0x1_0000_0000) as u32
}

impl InterdependentCausalModel {
    /// Writes the dimensions of the most significant changes into the
    /// flow's pattern: the first five of `dims`. Without changes the flow
    /// stays as it is.
    pub fn update_sanna_generic(&self, flow: &mut EpistemologicalFlow, dims: &Vec<usize>)
        requires
            old(flow).wf(),
        ensures
            final(flow).wf(),
            final(flow).rupa == old(flow).rupa,
            final(flow).vedana == old(flow).vedana,
            final(flow).related_eidos == old(flow).related_eidos,
            final(flow).sankhara == old(flow).sankhara,
            dims@.len() == 0 ==> final(flow).sanna == old(flow).sanna,
            dims@.len() > 0 ==> (final(flow).sanna matches Some(eidos) && eidos.indices() == (
            match old(flow).sanna {
                Some(before) => before.indices(),
                None => Set::empty(),
            }).union(leading_indices(dims@, 5)) && eidos.dims() == (match old(flow).sanna {
                Some(before) => before.dims(),
                None => 32,
            })),
    {
        if dims.len() == 0 {
            return;
        }
        let mut eidos = match flow.sanna.take() {
            Some(eidos) => eidos,
            None => DataEidos::new(32),
        };
        let ghost start = eidos.indices();
        let mut i: usize = 0;
        assert(eidos.indices() =~= start.union(leading_indices(dims@, 0)));
        while i < dims.len() && i < 5
            invariant
                i <= dims@.len(),
                i <= 5,
                eidos.wf(),
                eidos.dims() == (match old(flow).sanna {
                    Some(before) => before.dims(),
                    None => 32,
                }),
                eidos.indices() == start.union(leading_indices(dims@, i as int)),
            decreases dims.len() - i,
        {
            let ghost before = eidos.indices();
            eidos.insert(dim_index(dims[i]));
            proof {
                assert forall|x: u32|
                    leading_indices(dims@, i + 1).contains(x) <==> (leading_indices(
                        dims@,
                        i as int,
                    ).contains(x) || x == index_of_dim(dims@[i as int])) by {
                    if leading_indices(dims@, i + 1).contains(x) {
                        let k = choose|k: int|
                            0 <= k < i + 1 && k < dims@.len() && x == index_of_dim(
                                #[trigger] dims@[k],
                            );
                        if k < i {
                            assert(0 <= k < i && k < dims@.len() && x == index_of_dim(dims@[k]));
                        }
                    }
                    if leading_indices(dims@, i as int).contains(x) {
                        let k = choose|k: int|
                            0 <= k < i && k < dims@.len() && x == index_of_dim(#[trigger] dims@[k]);
                        assert(0 <= k < i + 1 && k < dims@.len() && x == index_of_dim(dims@[k]));
                    }
                    if x == index_of_dim(dims@[i as int]) {
                        assert(0 <= i < i + 1 && i < dims@.len() && x == index_of_dim(
                            dims@[i as int],
                        ));
                    }
                }
                assert(eidos.indices() =~= start.union(leading_indices(dims@, i + 1)));
            }
            i += 1;
        }
        proof {
            assert forall|x: u32|
                leading_indices(dims@, i as int).contains(x) <==> leading_indices(
                    dims@,
                    5,
                ).contains(x) by {
                if leading_indices(dims@, i as int).contains(x) {
                    let k = choose|k: int|
                        0 <= k < i && k < dims@.len() && x == index_of_dim(#[trigger] dims@[k]);
                    assert(0 <= k < 5 && k < dims@.len() && x == index_of_dim(dims@[k]));
                }
                if leading_indices(dims@, 5).contains(x) {
                    let k = choose|k: int|
                        0 <= k < 5 && k < dims@.len() && x == index_of_dim(#[trigger] dims@[k]);
                    assert(0 <= k < i && k < dims@.len() && x == index_of_dim(dims@[k]));
                }
            }
            assert(leading_indices(dims@, i as int) =~= leading_indices(dims@, 5));
        }
        flow.sanna = Some(eidos);
    }

    /// Replaces the flow's related patterns by one pattern for each of the
    /// first three significant changes, each given by its dimension and
    /// whether it is strong. Without changes the flow stays as it is.
    pub fn update_related_eidos(&self, flow: &mut EpistemologicalFlow, changes: &Vec<(usize, bool)>)
        requires
            old(flow).wf(),
        ensures
            final(flow).wf(),
            final(flow).rupa == old(flow).rupa,
            final(flow).vedana == old(flow).vedana,
            final(flow).sanna == old(flow).sanna,
            final(flow).sankhara == old(flow).sankhara,
            changes@.len() == 0 ==> final(flow).related_eidos == old(flow).related_eidos,
            changes@.len() > 0 ==> (final(flow).related_eidos matches Some(related) && {
                &&& related@.len() == if changes@.len() < 3 {
                    changes@.len()
                } else {
                    3
                }
                &&& forall|i: int|
                    0 <= i < related@.len() ==> (#[trigger] related@[i]).dims() == 32
                        && related@[i].indices() == change_pattern(changes@[i].0, changes@[i].1)
            }),
    {
        if changes.len() == 0 {
            return;
        }
        let mut related: Vec<DataEidos> = Vec::new();
        let mut i: usize = 0;
        while i < changes.len() && i < 3
            invariant
                i <= changes@.len(),
                i <= 3,
                related@.len() == i,
                forall|j: int|
                    0 <= j < i ==> (#[trigger] related@[j]).wf() && related@[j].dims() == 32
                        && related@[j].indices() == change_pattern(changes@[j].0, changes@[j].1),
            decreases changes.len() - i,
        {
            let index = dim_index(changes[i].0);
            let mut eidos = DataEidos::new(32);
            eidos.insert(index);
            if changes[i].1 {
                eidos.insert(
                    if index == 0 {
                        0
                    } else {
                        index - 1
                    },
                );
                eidos.insert(
                    if index == u32::MAX {
                        u32::MAX
                    } else {
                        index + 1
                    },
                );
            }
            related.push(eidos);
            i += 1;
        }
        flow.related_eidos = Some(related);
    }
}

} // verus!
