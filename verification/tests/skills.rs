use pandora::aca::{
    AcaLayer, PlaceholderCognitionLayer, PlaceholderKnowledgeLayer, PlaceholderManifestationLayer,
    PlaceholderPerceptionLayer, PlaceholderReflectionLayer, PlaceholderValueLayer,
};
use pandora::error::PandoraError;
use pandora::skills::{
    AdaptiveArithmeticEngine, AnalogyReasoningSkill, ArithmeticError, ArithmeticSkill,
    InformationRetrievalSkill, LogicalReasoningSkill, PatternMatchingSkill,
};
use pandora::text::{join, select_where};

fn strings(items: &[&str]) -> Vec<String> {
    items.iter().map(|s| s.to_string()).collect()
}

#[test]
fn test_valid_query() {
    let skill = InformationRetrievalSkill;
    let output = skill.search("test", &strings(&["test document", "another doc", "test again"]));
    assert_eq!(output, strings(&["test document", "test again"]));
}

#[test]
fn test_query_is_empty() {
    let skill = InformationRetrievalSkill;
    let output = skill.search("", &strings(&["a", "b"]));
    assert_eq!(output, strings(&["a", "b"]));
}

#[test]
fn search_ignores_case() {
    let skill = InformationRetrievalSkill;
    let output = skill.search("TeSt", &strings(&["A TEST", "nothing", "contest"]));
    assert_eq!(output, strings(&["A TEST", "contest"]));
    assert!(skill.search("x", &Vec::new()).is_empty());
}

#[test]
fn pattern_matching_skill_test_simple_pattern_match() {
    let skill = PatternMatchingSkill;
    let output = skill.find_matches("a*b", &strings(&["ab", "aab", "b", "acb"])).unwrap();
    assert_eq!(output, strings(&["ab", "aab", "acb"]));
}

#[test]
fn pattern_matching_skill_test_no_match() {
    let skill = PatternMatchingSkill;
    let output = skill.find_matches("x*", &strings(&["a", "b", "c"])).unwrap();
    assert!(output.is_empty());
}

#[test]
fn glob_becomes_an_anchored_expression() {
    assert_eq!(PatternMatchingSkill::expression("a*b"), "^a.*b$");
    assert_eq!(PatternMatchingSkill::expression("**"), "^.*.*$");
    assert_eq!(PatternMatchingSkill::expression(""), "^$");
    assert_eq!(PatternMatchingSkill::expression("plain"), "^plain$");
}

#[test]
fn invalid_pattern_is_a_skill_error() {
    let skill = PatternMatchingSkill;
    for candidates in [strings(&[]), strings(&["a"])] {
        match skill.find_matches("(", &candidates) {
            Err(PandoraError::SkillExecution { skill_name, message }) => {
                assert_eq!(skill_name, "pattern_matching");
                assert!(message.starts_with("Lỗi regex: "));
                assert!(message.len() > "Lỗi regex: ".len());
            }
            other => panic!("Expected a skill error, got: {:?}", other),
        }
    }
}

#[test]
fn test_valid_analogy() {
    let skill = AnalogyReasoningSkill;
    let output = skill.best_match("man", "king", "woman", &strings(&["queen", "prince", "duke"]));
    assert_eq!(output, Some("queen".to_string()));
}

#[test]
fn test_missing_candidates() {
    let skill = AnalogyReasoningSkill;
    assert!(skill.best_match("man", "king", "woman", &Vec::new()).is_none());
}

#[test]
fn closest_picks_the_first_nearest() {
    assert_eq!(AnalogyReasoningSkill::closest(4, &vec![9, 5, 3, 4, 4]), Some(3));
    assert_eq!(AnalogyReasoningSkill::closest(4, &vec![6, 2]), Some(0));
    assert_eq!(AnalogyReasoningSkill::closest(4, &vec![]), None);
    assert_eq!(AnalogyReasoningSkill::closest(0, &vec![usize::MAX]), None);
    assert_eq!(AnalogyReasoningSkill::closest(0, &vec![usize::MAX, usize::MAX - 1]), Some(1));
}

#[test]
fn analogy_uses_edit_distances() {
    let skill = AnalogyReasoningSkill;
    // "kitten" -> "sitting" is 3 edits; "abc" -> "abcdef" is 3, "abc" -> "abd" is 1
    let output = skill.best_match("kitten", "sitting", "abc", &strings(&["abd", "abcdef", "xyzxyz"]));
    assert_eq!(output, Some("abcdef".to_string()));
}

#[test]
fn descriptors_name_the_skills() {
    assert_eq!(InformationRetrievalSkill.descriptor().name, "information_retrieval");
    assert_eq!(LogicalReasoningSkill.descriptor().name, "logical_reasoning");
    assert_eq!(ArithmeticSkill.descriptor().name, "arithmetic");
    assert_eq!(PatternMatchingSkill.descriptor().name, "pattern_matching");
    let analogy = AnalogyReasoningSkill.descriptor();
    assert_eq!(analogy.name, "analogy_reasoning");
    assert_eq!(analogy.description, "Suy luận tương tự: A:B :: C:?");
    assert_eq!(analogy.output_schema, r#"{"type":"object","properties":{"best_match":{"type":"string"}}}"#);
    assert!(analogy.input_schema.contains(r#""required":["a","b","c","candidates"]"#));
}

#[test]
fn simple_expressions_hold_no_letters_and_are_short() {
    let engine = AdaptiveArithmeticEngine::new();
    assert!(engine.is_simple("2 + 2"));
    assert!(engine.is_simple(""));
    assert!(!engine.is_simple("2 + x"));
    assert!(!engine.is_simple("hai cộng hai"));
    assert!(engine.is_simple(&"1".repeat(49)));
    assert!(!engine.is_simple(&"1".repeat(50)));
    // 17 characters of three bytes each: 51 bytes
    assert!(!engine.is_simple(&"\u{2212}".repeat(17)));
    assert!(AdaptiveArithmeticEngine::is_simple_given(&vec![false, false], 49));
    assert!(!AdaptiveArithmeticEngine::is_simple_given(&vec![false, true], 2));
    assert_eq!(
        ArithmeticError::ParseError("x".to_string()).to_string(),
        "Lỗi parse biểu thức: x"
    );
}

#[test]
fn select_and_join() {
    let items = strings(&["a", "b", "c"]);
    assert_eq!(select_where(&items, &vec![true, false, true]), strings(&["a", "c"]));
    assert_eq!(join(&items, "; "), "a; b; c");
    assert_eq!(join(&strings(&["solo"]), "; "), "solo");
    assert_eq!(join(&Vec::new(), "; "), "");
}

#[test]
fn layers_know_their_names() {
    assert_eq!(PlaceholderPerceptionLayer.layer_name(), "PlaceholderPerception");
    assert_eq!(PlaceholderKnowledgeLayer.layer_name(), "PlaceholderKnowledge");
    assert_eq!(PlaceholderCognitionLayer.layer_name(), "PlaceholderCognition");
    assert_eq!(PlaceholderValueLayer.layer_name(), "PlaceholderValue");
    assert_eq!(PlaceholderReflectionLayer.layer_name(), "PlaceholderReflection");
    assert_eq!(PlaceholderManifestationLayer.layer_name(), "PlaceholderManifestation");
}
