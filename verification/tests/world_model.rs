use pandora::cwm::{
    intent_hash, CausalEdge, CausalEdgeKind, CausalEdgeType, GnnConfig, GraphNeuralNetwork,
    InterdependentCausalModel,
};
use pandora::flow::{DataEidos, EpistemologicalFlow, Vedana};
use pandora::skandha::{
    BasicRupaSkandha, BasicSankharaSkandha, BasicSannaSkandha, BasicVedanaSkandha,
    BasicVinnanaSkandha, RupaSkandha, SankharaSkandha, SannaSkandha, Skandha, SkandhaProcessor,
    VedanaSkandha, VinnanaSkandha,
};
use pandora::skills::{LogicNode, LogicalReasoningSkill};
use petgraph::graph::NodeIndex;

fn bits(values: &[f32]) -> Vec<u32> {
    values.iter().map(|v| v.to_bits()).collect()
}

fn sorted(eidos: &DataEidos) -> Vec<u32> {
    let mut list = eidos.to_vec();
    list.sort();
    list
}

#[test]
fn test_gnn_creation() {
    let config = GnnConfig::new(64, 128, 3);
    let gnn = GraphNeuralNetwork::new(config);
    assert!(gnn.is_ok());

    let gnn = gnn.unwrap();
    assert_eq!(gnn.node_count(), 0);
    assert_eq!(gnn.edge_count(), 0);
}

#[test]
fn test_add_node() {
    let config = GnnConfig::new(64, 128, 3);
    let mut gnn = GraphNeuralNetwork::new(config).unwrap();

    let features = bits(&[1.0, 2.0, 3.0]);
    let node_idx = gnn.add_node(features);

    assert_eq!(gnn.node_count(), 1);
    assert_eq!(gnn.graph[NodeIndex::new(node_idx)], bits(&[1.0, 2.0, 3.0]));
    assert_eq!(gnn.node_features(), vec![bits(&[1.0, 2.0, 3.0])]);
}

#[test]
fn test_add_edge() {
    let config = GnnConfig::new(64, 128, 3);
    let mut gnn = GraphNeuralNetwork::new(config).unwrap();

    let node1 = gnn.add_node(bits(&[1.0, 2.0]));
    let node2 = gnn.add_node(bits(&[3.0, 4.0]));

    let edge = CausalEdge::new(CausalEdgeKind::Cause, 0.9f32.to_bits());
    let edge_idx = gnn.add_edge(node1, node2, edge);

    assert!(edge_idx.is_ok());
    assert_eq!(gnn.edge_count(), 1);
    assert!(gnn.has_edge(node1, node2));
    assert!(!gnn.has_edge(node2, node1));
    assert!(!gnn.has_edge(node1, 7));
    assert_eq!(gnn.graph().edge_count(), 1);
    gnn.graph_mut().clear_edges();
    assert_eq!(gnn.edge_count(), 0);
}

#[test]
fn test_add_edge_invalid_nodes() {
    let config = GnnConfig::new(64, 128, 3);
    let mut gnn = GraphNeuralNetwork::new(config).unwrap();

    let node1 = gnn.add_node(bits(&[1.0, 2.0]));
    let invalid_node = 999; // Non-existent node

    let edge = CausalEdge::new(CausalEdgeKind::Cause, 0.9f32.to_bits());
    let result = gnn.add_edge(node1, invalid_node, edge);

    assert!(result.is_err());
    assert_eq!(
        result.unwrap_err().to_string(),
        "Configuration Error: Node indices must exist in the graph"
    );
    assert_eq!(gnn.edge_count(), 0);
}

#[test]
fn invalid_shapes_are_rejected() {
    assert!(GnnConfig::new(64, 128, 3).validate().is_ok());
    for config in [GnnConfig::new(0, 128, 3), GnnConfig::new(64, 0, 3), GnnConfig::new(64, 128, 0)] {
        assert!(config.validate().is_err());
        assert!(GraphNeuralNetwork::new(config).is_err());
        assert!(InterdependentCausalModel::new(config).is_err());
    }
}

#[test]
fn test_model_creation() {
    let config = GnnConfig::new(64, 128, 3);

    let model = InterdependentCausalModel::new(config);
    assert!(model.is_ok());
}

#[test]
fn crystallized_links_create_missing_nodes() {
    let mut model = InterdependentCausalModel::new(GnnConfig::new(2, 4, 1)).unwrap();
    assert!(!model.has_causal_link(0, 1));
    model
        .crystallize_causal_link(5, 9, CausalEdgeType::Inhibitory, 1.0f32.to_bits(), "note".to_string())
        .unwrap();
    assert_eq!(model.gnn().node_count(), 2);
    assert_eq!(model.gnn().edge_count(), 1);
    assert!(model.has_causal_link(0, 1));
    assert!(!model.has_causal_link(1, 0));
    assert_eq!(model.gnn().node_features(), vec![vec![0, 0], vec![0, 0]]);
    model
        .crystallize_causal_link(1, 0, CausalEdgeType::Direct, 0, String::new())
        .unwrap();
    assert_eq!(model.gnn().node_count(), 2);
    assert!(model.has_causal_link(1, 0));
    let edge = model.gnn().graph().edge_weights().next().unwrap();
    assert_eq!(edge.kind, CausalEdgeKind::Inhibit);
    assert_eq!(edge.metadata.as_deref(), Some("note"));
    model.gnn_mut().add_node(vec![1, 2]);
    assert_eq!(model.gnn().node_count(), 3);
    assert_eq!(model.predictor().output_dims(), 4);
}

#[test]
fn intent_hash_wraps_round() {
    assert_eq!(intent_hash(&Vec::new()), 0);
    assert_eq!(intent_hash(&b"a".to_vec()), 97);
    assert_eq!(intent_hash(&b"ab".to_vec()), 97 * 31 + 98);
    let mut expected = 0u32;
    for byte in b"unlock_door_and_more" {
        expected = expected.wrapping_mul(31).wrapping_add(*byte as u32);
    }
    assert_eq!(intent_hash(&b"unlock_door_and_more".to_vec()), expected);
}

#[test]
fn sparse_patterns_behave_as_sets() {
    let mut eidos = DataEidos::new(32);
    assert_eq!(eidos.dimensionality(), 32);
    assert!(eidos.insert(7));
    assert!(!eidos.insert(7));
    assert!(eidos.insert(3));
    assert_eq!(eidos.len(), 2);
    assert!(eidos.contains(3));
    assert!(eidos.remove(7));
    assert!(!eidos.remove(7));
    assert!(!eidos.contains(7));
    assert_eq!(eidos.to_vec(), vec![3]);
    eidos.insert(2047);
    let wider = eidos.shifted(1);
    assert_eq!(sorted(&wider), vec![0, 3, 4, 2047]);
    assert_eq!(sorted(&eidos.duplicate()), vec![3, 2047]);
}

#[test]
fn door_key_and_position_marks() {
    let model = InterdependentCausalModel::new(GnnConfig::new(64, 128, 3)).unwrap();
    let mut flow = EpistemologicalFlow::default();
    model.update_sanna_for_key_state(&mut flow, false);
    assert!(flow.sanna.is_none());
    model.update_sanna_for_position(&mut flow, 0);
    assert!(flow.sanna.is_none());
    model.update_sanna_for_door_state(&mut flow, true);
    assert_eq!(sorted(flow.sanna.as_ref().unwrap()), vec![1]);
    assert_eq!(flow.sanna.as_ref().unwrap().dimensionality(), 32);
    model.update_sanna_for_door_state(&mut flow, false);
    assert_eq!(sorted(flow.sanna.as_ref().unwrap()), vec![2]);
    model.update_sanna_for_key_state(&mut flow, true);
    model.update_sanna_for_position(&mut flow, 1);
    assert_eq!(sorted(flow.sanna.as_ref().unwrap()), vec![2, 3, 4]);
    model.update_sanna_for_position(&mut flow, -1);
    assert_eq!(sorted(flow.sanna.as_ref().unwrap()), vec![2, 3, 5]);
    model.update_sanna_for_position(&mut flow, 0);
    model.update_sanna_for_key_state(&mut flow, false);
    assert_eq!(sorted(flow.sanna.as_ref().unwrap()), vec![2]);
    let mut fresh = EpistemologicalFlow::default();
    model.update_sanna_for_position(&mut fresh, -3);
    assert_eq!(sorted(fresh.sanna.as_ref().unwrap()), vec![5]);
}

#[test]
fn stages_of_one_cycle() {
    let rupa = BasicRupaSkandha;
    let mut flow = rupa.process_event(b"disk error at 3".to_vec());
    assert_eq!(flow.rupa.as_deref(), Some(&b"disk error at 3"[..]));
    BasicVedanaSkandha.feel(&mut flow);
    assert_eq!(flow.vedana, Some(Vedana::Unpleasant { karma_weight_milli: -1000 }));
    BasicSannaSkandha.perceive(&mut flow);
    let eidos = flow.sanna.as_ref().unwrap();
    assert_eq!(eidos.dimensionality(), 2048);
    assert!(eidos.contains(100)); // 'd' at position 0
    assert!(eidos.contains((7 + 105) % 2048)); // 'i' at position 1
    assert!(eidos.contains(65)); // the keyword "error"
    assert!(!eidos.contains(91));
    let related = flow.related_eidos.as_ref().unwrap();
    assert_eq!(related.len(), 3);
    for (i, pattern) in related.iter().enumerate() {
        assert!(pattern.contains(100));
        assert!(pattern.contains(100 + i as u32 + 1));
    }
    BasicSankharaSkandha.form_intent(&mut flow);
    assert_eq!(flow.sankhara.as_deref(), Some("REPORT_ERROR"));
    let reborn = BasicVinnanaSkandha.synthesize(&flow).unwrap();
    assert_eq!(reborn, b"Synthesized consciousness: Intent is 'REPORT_ERROR'".to_vec());
    assert_eq!(rupa.name(), "Basic Rupa (Form)");
    assert_eq!(BasicVedanaSkandha.name(), "Basic Vedana (Feeling)");
    assert_eq!(BasicSannaSkandha.name(), "Basic Sanna (Perception)");
    assert_eq!(BasicSankharaSkandha.name(), "Basic Sankhara (Formations)");
    assert_eq!(BasicVinnanaSkandha.name(), "Basic Vinnana (Consciousness)");
}

#[test]
fn perception_skips_zero_bytes_and_folds_case() {
    let mut flow = EpistemologicalFlow::from_bytes(vec![0, 0, 1]);
    BasicSannaSkandha.perceive(&mut flow);
    assert_eq!(sorted(flow.sanna.as_ref().unwrap()), vec![15]);
    let mut loud = EpistemologicalFlow::from_bytes(b"CRITICAL".to_vec());
    BasicSannaSkandha.perceive(&mut loud);
    assert!(loud.sanna.as_ref().unwrap().contains(104));
    let mut empty = EpistemologicalFlow::default();
    BasicSannaSkandha.perceive(&mut empty);
    assert_eq!(empty.sanna.as_ref().unwrap().len(), 0);
    assert_eq!(empty.related_eidos.as_ref().unwrap().len(), 3);
    let related = BasicSannaSkandha.find_related_patterns(flow.sanna.as_ref().unwrap());
    assert_eq!(sorted(&related[0]), vec![15, 16]);
    assert_eq!(sorted(&related[1]), vec![15, 17]);
    assert_eq!(sorted(&related[2]), vec![15, 18]);
}

#[test]
fn full_cycle_reports_errors_and_ends_quietly_otherwise() {
    let processor = SkandhaProcessor::new(
        BasicRupaSkandha,
        BasicVedanaSkandha,
        BasicSannaSkandha,
        BasicSankharaSkandha,
        BasicVinnanaSkandha,
    );
    let reborn = processor.run_epistemological_cycle(b"an error occurred".to_vec());
    assert_eq!(reborn, Some(b"Synthesized consciousness: Intent is 'REPORT_ERROR'".to_vec()));
    assert_eq!(processor.run_epistemological_cycle(b"all is well".to_vec()), None);
    // feeling looks at the text as it is, not at its lowercase form
    assert_eq!(processor.run_epistemological_cycle(b"ERROR".to_vec()), None);
    assert_eq!(processor.run_epistemological_cycle(vec![0xff, 0xfe]), None);
}

#[test]
fn intents_can_be_set() {
    let mut flow = EpistemologicalFlow::default();
    flow.set_static_intent("unlock_door");
    assert_eq!(flow.sankhara.as_deref(), Some("unlock_door"));
    flow.set_interned_intent("move_forward".to_string());
    assert_eq!(flow.sankhara.as_deref(), Some("move_forward"));
    assert!(BasicVinnanaSkandha.synthesize(&EpistemologicalFlow::default()).is_none());
}

fn var(name: &str) -> LogicNode {
    LogicNode::Var(name.to_string())
}

#[test]
fn test_simple_and_true() {
    let skill = LogicalReasoningSkill;
    let context = vec![("is_raining".to_string(), true)];
    let ast = LogicNode::And(vec![var("is_raining"), LogicNode::Const(true)]);
    assert_eq!(skill.evaluate_node(&ast, &context), Ok(true));
}

#[test]
fn test_simple_and_false() {
    let skill = LogicalReasoningSkill;
    let context = vec![("is_raining".to_string(), false)];
    let ast = LogicNode::And(vec![var("is_raining"), LogicNode::Const(true)]);
    assert_eq!(skill.evaluate_node(&ast, &context), Ok(false));
}

#[test]
fn test_simple_or_true() {
    let skill = LogicalReasoningSkill;
    let context = vec![("is_raining".to_string(), false)];
    let ast = LogicNode::Or(vec![var("is_raining"), LogicNode::Const(true)]);
    assert_eq!(skill.evaluate_node(&ast, &context), Ok(true));
}

#[test]
fn logic_short_circuits_and_reports_missing_variables() {
    let skill = LogicalReasoningSkill;
    let context = vec![("a".to_string(), true), ("b".to_string(), false), ("a".to_string(), false)];
    assert_eq!(LogicalReasoningSkill::lookup(&context, "a"), Some(true));
    assert_eq!(LogicalReasoningSkill::lookup(&context, "c"), None);
    assert_eq!(skill.evaluate_node(&LogicNode::Not(Box::new(var("b"))), &context), Ok(true));
    assert_eq!(skill.evaluate_node(&LogicNode::And(vec![]), &context), Ok(true));
    assert_eq!(skill.evaluate_node(&LogicNode::Or(vec![]), &context), Ok(false));
    let missing = Err("Không tìm thấy biến 'c' trong context".to_string());
    assert_eq!(skill.evaluate_node(&var("c"), &context), missing);
    assert_eq!(skill.evaluate_node(&LogicNode::And(vec![var("a"), var("c")]), &context), missing);
    assert_eq!(skill.evaluate_node(&LogicNode::And(vec![var("b"), var("c")]), &context), Ok(false));
    assert_eq!(skill.evaluate_node(&LogicNode::Or(vec![var("a"), var("c")]), &context), Ok(true));
    assert_eq!(skill.evaluate_node(&LogicNode::Or(vec![var("b"), var("c")]), &context), missing);
    let nested = LogicNode::Or(vec![
        LogicNode::And(vec![var("a"), var("b")]),
        LogicNode::Not(Box::new(LogicNode::Or(vec![var("b"), LogicNode::Const(false)]))),
    ]);
    assert_eq!(skill.evaluate_node(&nested, &context), Ok(true));
}

#[test]
fn test_learn_relations() {
    let config = GnnConfig::new(64, 128, 3);

    let mut model = InterdependentCausalModel::new(config).unwrap();
    let flow = EpistemologicalFlow::default();

    let result = model.learn_relations(&flow);
    assert!(result.is_ok());
}

#[test]
fn test_infer_context() {
    let config = GnnConfig::new(64, 128, 3);

    let model = InterdependentCausalModel::new(config).unwrap();
    let mut flow = EpistemologicalFlow::default();

    let result = model.infer_context(&mut flow);
    assert!(result.is_ok());
}
