use pandora::{add, hello};
use pandora::cwm::{CausalEdgeKind, CausalEdgeType, StatePredictor};
use pandora::error::{push_decimal, ErrorContext, PandoraError};
use pandora::learning::{Action, EpsilonGreedyPolicy};
use pandora::mcg::{ActionTrigger, ConfidenceTracker, ObservationBuffer};
use pandora::ontology::{Priority, QualityPreference, RequestContext, ResourceConstraints, TaskType};
use pandora::rm::ResourceManagerError;
use pandora::sie::{
    MetaLearningStrategy, RefinementStrategy, SelfImprovementEngine, SelfModificationStrategy,
};

#[test]
fn lib_it_works() {
    let result = add(2, 2);
    assert_eq!(result, 4);
}

#[test]
fn action_string_conversion() {
    assert_eq!(Action::Noop.as_str(), "noop");
    assert_eq!(Action::UnlockDoor.as_str(), "unlock_door");
    assert_eq!(Action::PickUpKey.as_str(), "pick_up_key");
    assert_eq!(Action::MoveForward.as_str(), "move_forward");
}

#[test]
fn all_actions_are_listed_in_order() {
    assert_eq!(
        Action::all_actions(),
        vec![
            Action::Noop,
            Action::Explore,
            Action::Exploit,
            Action::UnlockDoor,
            Action::PickUpKey,
            Action::MoveForward,
        ]
    );
    assert_eq!(Action::Explore.as_str(), "explore");
    assert_eq!(Action::Exploit.as_str(), "exploit");
}

#[test]
fn epsilon_greedy_switches_mode() {
    let pol = EpsilonGreedyPolicy::default();
    assert_eq!(pol.select_action(0.1 > 0.0), Action::Explore);
    assert_eq!(pol.select_action(0.0 > 0.0), Action::Exploit);
}

#[test]
fn test_error_context() {
    let result: Result<(), std::io::Error> =
        Err(std::io::Error::new(std::io::ErrorKind::NotFound, "file not found"));

    let with_context = result.context("Failed to read config file");
    assert!(with_context.is_err());

    let err = with_context.unwrap_err();
    assert!(err.to_string().contains("Failed to read config file"));
    assert!(err.source().is_some());
}

#[test]
fn test_lazy_context() {
    let filename = "config.json";
    let result: Result<(), std::io::Error> =
        Err(std::io::Error::new(std::io::ErrorKind::NotFound, "not found"));

    let with_context = result.with_context(|| format!("Failed to read {}", filename));
    assert!(with_context.is_err());
}

#[test]
fn context_keeps_a_success_and_describes_the_cause() {
    let fine: Result<u8, std::io::Error> = Ok(7);
    assert_eq!(fine.context("unused").unwrap(), 7);
    let broken: Result<u8, std::io::Error> =
        Err(std::io::Error::new(std::io::ErrorKind::NotFound, "not found"));
    let err = broken.with_context(|| "Failed to read config.json").unwrap_err();
    assert_eq!(err.to_string(), "Configuration Error: Failed to read config.json: not found");
    assert_eq!(err.source().unwrap(), "not found");
    assert!(!err.is_retryable());
}

#[test]
fn error_messages() {
    assert_eq!(PandoraError::config("bad").to_string(), "Configuration Error: bad");
    assert_eq!(
        PandoraError::skill_exec("arithmetic", "boom").to_string(),
        "Skill Execution Error: arithmetic - boom"
    );
    assert_eq!(
        PandoraError::SkillNotFound { skill_name: "x".to_string() }.to_string(),
        "Skill not found: x"
    );
    assert_eq!(
        PandoraError::InvalidSkillInput { skill_name: "x".to_string(), message: "m".to_string() }
            .to_string(),
        "Invalid input for skill x: m"
    );
    assert_eq!(
        PandoraError::Timeout { operation: "skill:slow".to_string(), timeout_ms: 100 }.to_string(),
        "Timeout while executing skill:slow after 100ms"
    );
    assert_eq!(
        PandoraError::Timeout { operation: "op".to_string(), timeout_ms: u64::MAX }.to_string(),
        "Timeout while executing op after 18446744073709551615ms"
    );
    assert_eq!(
        PandoraError::CircuitOpen { resource: "r".to_string() }.to_string(),
        "Circuit breaker open for r"
    );
    assert_eq!(PandoraError::Ffi("f".to_string()).to_string(), "FFI Interface Error: f");
    assert_eq!(PandoraError::Unknown("u".to_string()).to_string(), "Unknown error: u");
    assert!(PandoraError::config("bad").source().is_none());
}

#[test]
fn decimal_numerals() {
    let mut text = String::from("n=");
    push_decimal(&mut text, 0);
    push_decimal(&mut text, 9);
    push_decimal(&mut text, 10);
    push_decimal(&mut text, 1234567890);
    assert_eq!(text, "n=09101234567890");
}

#[test]
fn which_errors_are_retryable() {
    assert!(PandoraError::skill_exec("s", "m").is_retryable());
    assert!(PandoraError::Timeout { operation: "o".to_string(), timeout_ms: 1 }.is_retryable());
    assert!(PandoraError::Unknown("u".to_string()).is_retryable());
    assert!(!PandoraError::SkillNotFound { skill_name: "s".to_string() }.is_retryable());
    assert!(!PandoraError::InvalidSkillInput { skill_name: "s".to_string(), message: "m".to_string() }
        .is_retryable());
    assert!(!PandoraError::CircuitOpen { resource: "r".to_string() }.is_retryable());
    assert!(!PandoraError::config("c").is_retryable());
    assert!(!PandoraError::Ffi("f".to_string()).is_retryable());
    let copy = PandoraError::skill_exec("s", "m").duplicate();
    assert_eq!(copy.to_string(), "Skill Execution Error: s - m");
}

#[test]
fn test_confidence_tracker() {
    let mut tracker = ConfidenceTracker::new(10);
    for _ in 0..7 {
        tracker.update(true);
    }
    for _ in 0..3 {
        tracker.update(false);
    }
    let success_rate = tracker.success_count() as f32 / tracker.total_count() as f32;
    assert!(success_rate > 0.6);
}

#[test]
fn confidence_window_slides() {
    let mut tracker = ConfidenceTracker::new(3);
    tracker.update(true);
    tracker.update(true);
    tracker.update(false);
    assert_eq!((tracker.success_count(), tracker.total_count()), (2, 3));
    tracker.update(false);
    assert_eq!((tracker.success_count(), tracker.total_count()), (1, 3));
    tracker.update(false);
    assert_eq!((tracker.success_count(), tracker.total_count()), (0, 3));
    tracker.update(true);
    assert_eq!((tracker.success_count(), tracker.total_count()), (1, 3));
    let mut tiny = ConfidenceTracker::new(0);
    tiny.update(true);
    tiny.update(false);
    assert_eq!((tiny.success_count(), tiny.total_count()), (0, 1));
}

#[test]
fn ontology_defaults() {
    assert_eq!(Priority::default(), Priority::Normal);
    assert_eq!(QualityPreference::default(), QualityPreference::Balanced);
    assert_ne!(TaskType::Arithmetic, TaskType::MetaAnalysis);
    let context = RequestContext::default();
    assert!(context.location.is_none());
    assert!(context.device_state.is_empty());
    assert!(context.user_preferences.is_empty());
    let limits = ResourceConstraints { max_cpu_cores: Some(4), max_memory_mb: None, battery_aware: None };
    assert_eq!(limits.max_cpu_cores, Some(4));
}

#[test]
fn causal_edges_and_predictor() {
    assert_eq!(CausalEdgeType::Direct.edge_kind(), CausalEdgeKind::Cause);
    assert_eq!(CausalEdgeType::Indirect.edge_kind(), CausalEdgeKind::Enable);
    assert_eq!(CausalEdgeType::Conditional.edge_kind(), CausalEdgeKind::Precondition);
    assert_eq!(CausalEdgeType::Inhibitory.edge_kind(), CausalEdgeKind::Inhibit);
    let predictor = StatePredictor::new(64, 128);
    assert_eq!(predictor.output_dims(), 128);
}

#[test]
fn resource_error_message() {
    let error = ResourceManagerError::InsufficientResources("RAM".to_string());
    assert_eq!(error.to_string(), "Tài nguyên không đủ: RAM");
}

#[test]
fn level1_refinement_works() {
    let trig = ActionTrigger::TriggerSelfImprovementLevel1 {
        reason: "noise".into(),
        target_component: "orchestrator".into(),
    };
    assert_eq!(SelfImprovementEngine::new().strategy_level(&trig, 0), Some(1));
    let action = RefinementStrategy.propose_action(&trig).unwrap();
    assert!(action.description.contains("Đề xuất"));
    assert_eq!(
        action.description,
        "Đề xuất: Chạy lại thành phần 'orchestrator' với các tham số dự phòng."
    );
}

#[test]
fn refinement_rejects_other_triggers() {
    let trig = ActionTrigger::TriggerSelfImprovementLevel2 {
        reason: "bottleneck".into(),
        target_component: "world_model".into(),
    };
    let error = RefinementStrategy.propose_action(&trig).unwrap_err();
    assert_eq!(error.to_string(), "Configuration Error: Chiến lược không phù hợp với trigger này.");
    assert_eq!(RefinementStrategy.name(), "Level 1: Refinement Strategy");
}

#[test]
fn strategy_levels_follow_the_trigger_and_the_second() {
    let engine = SelfImprovementEngine::new();
    let level = |n: u8| match n {
        2 => ActionTrigger::TriggerSelfImprovementLevel2 { reason: "r".into(), target_component: "c".into() },
        3 => ActionTrigger::TriggerSelfImprovementLevel3 { reason: "r".into(), target_component: "c".into() },
        _ => ActionTrigger::TriggerSelfImprovementLevel4 { reason: "r".into(), target_component: "c".into() },
    };
    assert_eq!(engine.strategy_level(&level(2), 7), Some(2));
    assert_eq!(engine.strategy_level(&level(3), 7), Some(3));
    assert_eq!(engine.strategy_level(&level(4), 8), Some(4));
    assert_eq!(engine.strategy_level(&level(4), 7), Some(5));
    assert_eq!(engine.strategy_level(&ActionTrigger::NoAction, 7), None);
    assert_eq!(
        engine.strategy_level(&ActionTrigger::RequestMoreInformation { reason: "r".into() }, 7),
        None
    );
}

#[test]
fn meta_learning_suggestions() {
    let strategy = MetaLearningStrategy::new();
    assert_eq!(strategy.name(), "Level 4: Meta-Learning");
    assert_eq!(
        strategy.suggest_meta_improvements(&vec![]),
        "Hệ thống đang hoạt động tối ưu - không cần điều chỉnh meta-policy"
    );
    assert_eq!(
        strategy.suggest_meta_improvements(&vec!["không liên quan".to_string()]),
        "Cần phân tích sâu hơn để đưa ra đề xuất cụ thể"
    );
    let insights = vec![
        "Tần suất khám phá nhân quả quá thấp - cần tăng cường thí nghiệm".to_string(),
        "Tốc độ hội tụ chậm - cần điều chỉnh learning rate hoặc architecture".to_string(),
    ];
    assert_eq!(
        strategy.suggest_meta_improvements(&insights),
        "Đề xuất meta-learning: Tăng cường exploration trong causal discovery algorithm; Cải thiện experimental design với Bayesian optimization; Điều chỉnh adaptive learning rates và regularization"
    );
}

#[test]
fn self_modification_suggestions() {
    let strategy = SelfModificationStrategy::new();
    assert_eq!(strategy.name(), "Level 5: Self-Modification");
    assert_eq!(
        strategy.suggest_self_modifications(&vec![]),
        "Hệ thống hoạt động ổn định - không cần self-modification"
    );
    let issues = vec!["Tỷ lệ lỗi cao - cần cải thiện error handling".to_string()];
    assert_eq!(
        strategy.suggest_self_modifications(&issues),
        "Self-modification đề xuất: Improve error handling và add more validation"
    );
}

#[test]
fn observation_buffer_drops_the_oldest() {
    let mut buffer = ObservationBuffer::new(2, 2);
    assert!(buffer.is_empty());
    assert!(!buffer.is_ready_for_discovery());
    buffer.add(vec![1]);
    buffer.add(vec![2]);
    assert!(buffer.is_ready_for_discovery());
    buffer.add(vec![3]);
    assert_eq!(buffer.len(), 2);
    assert_eq!(buffer.get_data(), &vec![vec![2], vec![3]]);
    assert_eq!(buffer.get_data_and_clear(), vec![vec![2], vec![3]]);
    assert!(buffer.is_empty());
    let mut none = ObservationBuffer::new(0, 0);
    assert!(none.is_ready_for_discovery());
    none.add(vec![1]);
    none.add(vec![2]);
    assert_eq!(none.get_data(), &vec![vec![2]]);
}

#[test]
fn it_works() {
    let result = add(2, 2);
    assert_eq!(result, 4);
}

#[test]
fn level4_meta_learning_works() {
    let trig = ActionTrigger::TriggerSelfImprovementLevel4 {
        reason: "non-stationary".into(),
        target_component: "policy".into(),
    };
    let action = MetaLearningStrategy::new().propose_action(&trig, &vec![]).unwrap();
    assert_eq!(
        action.description,
        "Đề xuất: Điều chỉnh meta-policy cho 'policy'. Phân tích: Hệ thống ổn định | Hành động: Hệ thống đang hoạt động tối ưu - không cần điều chỉnh meta-policy"
    );
    let insights = vec!["Tốc độ hội tụ chậm".to_string(), "khác".to_string()];
    let action = MetaLearningStrategy::new().propose_action(&trig, &insights).unwrap();
    assert_eq!(
        action.description,
        "Đề xuất: Điều chỉnh meta-policy cho 'policy'. Phân tích: Tốc độ hội tụ chậm; khác | Hành động: Đề xuất meta-learning: Điều chỉnh adaptive learning rates và regularization"
    );
    let healthy = SelfModificationStrategy::new().propose_action(&trig, &vec![]).unwrap();
    assert_eq!(
        healthy.description,
        "Đề xuất: Self-modification cho 'policy'. Vấn đề: Không có vấn đề | Sửa chữa: Hệ thống hoạt động ổn định - không cần self-modification"
    );
    let other = ActionTrigger::NoAction;
    assert!(MetaLearningStrategy::new().propose_action(&other, &vec![]).is_err());
    assert!(SelfModificationStrategy::new().propose_action(&other, &vec![]).is_err());
}

#[test]
fn hello_greets_by_name() {
    assert_eq!(hello("Pandora".to_string()), "Hello from Rust, Pandora!");
    assert_eq!(hello(String::new()), "Hello from Rust, !");
}
