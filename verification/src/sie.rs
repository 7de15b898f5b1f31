//! The self-improvement engine's strategies: which strategy answers which
//! trigger, and what each one proposes.

use vstd::prelude::*;
use vstd::string::StringExecFns;
use crate::error::{ErrorModel, PandoraError};
use crate::mcg::ActionTrigger;
use crate::policy::names;
use crate::text::{has_infix, join, joined, str_contains};

verus! {

/// What a strategy proposes to do.
#[derive(Debug)]
pub struct ImprovementAction {
    pub description: String,
}

/// The message of the error that a strategy answers a trigger with that
/// is not meant for it.
pub open spec fn mismatch_message() -> Seq<char> {
    "Chiến lược không phù hợp với trigger này."@
}

fn mismatch<T>() -> (outcome: Result<T, PandoraError>)
    ensures
        outcome matches Err(error) && error@ == ErrorModel::Config(mismatch_message()),
{
    Err(PandoraError::config("Chiến lược không phù hợp với trigger này."))
}

/// A cue and the advice that goes with it.
pub struct Cue {
    pub keyword: &'static str,
    pub advice: &'static str,
}

/// The cues as pairs of character sequences.
pub open spec fn cue_texts(cues: Seq<Cue>) -> Seq<(Seq<char>, Seq<char>)> {
    Seq::new(cues.len(), |i: int| (cues[i].keyword@, cues[i].advice@))
}

/// The advice for one finding: that of each cue whose keyword the finding
/// holds, in the order of the cues.
pub open spec fn advice_for(finding: Seq<char>, cues: Seq<(Seq<char>, Seq<char>)>) -> Seq<Seq<char>>
    decreases cues.len(),
{
    if cues.len() == 0 {
        Seq::empty()
    } else if has_infix(finding, cues.last().0) {
        advice_for(finding, cues.drop_last()).push(cues.last().1)
    } else {
        advice_for(finding, cues.drop_last())
    }
}

/// The advice for all findings, finding by finding.
pub open spec fn advice_for_all(findings: Seq<Seq<char>>, cues: Seq<(Seq<char>, Seq<char>)>) -> Seq<
    Seq<char>,
>
    decreases findings.len(),
{
    if findings.len() == 0 {
        Seq::empty()
    } else {
        advice_for_all(findings.drop_last(), cues) + advice_for(findings.last(), cues)
    }
}

/// The advice for all findings, finding by finding.
pub fn collect_advice(findings: &Vec<String>, cues: &Vec<Cue>) -> (advice: Vec<String>)
    ensures
        names(advice@) == advice_for_all(names(findings@), cue_texts(cues@)),
{
    let mut advice: Vec<String> = Vec::new();
    let ghost texts = cue_texts(cues@);
    let mut i: usize = 0;
    assert(names(findings@).take(0) =~= Seq::<Seq<char>>::empty());
    assert(names(advice@) =~= Seq::<Seq<char>>::empty());
    while i < findings.len()
        invariant
            i <= findings@.len(),
            texts == cue_texts(cues@),
            names(advice@) == advice_for_all(names(findings@).take(i as int), texts),
        decreases findings.len() - i,
    {
        let ghost before = names(advice@);
        let ghost finding = findings@[i as int]@;
        let mut k: usize = 0;
        assert(texts.take(0) =~= Seq::<(Seq<char>, Seq<char>)>::empty());
        assert(before + advice_for(finding, texts.take(0)) =~= before);
        while k < cues.len()
            invariant
                k <= cues@.len(),
                i < findings@.len(),
                texts == cue_texts(cues@),
                finding == findings@[i as int]@,
                names(advice@) == before + advice_for(finding, texts.take(k as int)),
            decreases cues.len() - k,
        {
            let ghost sofar = names(advice@);
            proof {
                let seen = texts.take(k + 1);
                assert(seen.drop_last() == texts.take(k as int));
                assert(seen.last() == (cues@[k as int].keyword@, cues@[k as int].advice@));
            }
            if str_contains(findings[i].as_str(), cues[k].keyword) {
                advice.push(String::from_str(cues[k].advice));
                assert(names(advice@) =~= sofar.push(cues@[k as int].advice@));
                assert(names(advice@) =~= before + advice_for(finding, texts.take(k + 1)));
            }
            k += 1;
        }
        proof {
            assert(texts.take(cues@.len() as int) == texts);
            let seen = names(findings@).take(i + 1);
            assert(seen.drop_last() == names(findings@).take(i as int));
            assert(seen.last() == finding);
        }
        i += 1;
    }
    assert(names(findings@).take(findings@.len() as int) == names(findings@));
    advice
}

/// What is said about findings: `calm` where there is none, `unsure`
/// where no cue fits any of them, else `lead` followed by the advice,
/// separated by "; ".
pub open spec fn advice_text(
    findings: Seq<Seq<char>>,
    cues: Seq<(Seq<char>, Seq<char>)>,
    calm: Seq<char>,
    unsure: Seq<char>,
    lead: Seq<char>,
) -> Seq<char> {
    if findings.len() == 0 {
        calm
    } else if advice_for_all(findings, cues).len() == 0 {
        unsure
    } else {
        lead + joined(advice_for_all(findings, cues), "; "@)
    }
}

fn advise(findings: &Vec<String>, cues: &Vec<Cue>, calm: &str, unsure: &str, lead: &str) -> (text:
    String)
    ensures
        text@ == advice_text(names(findings@), cue_texts(cues@), calm@, unsure@, lead@),
{
    if findings.len() == 0 {
        return String::from_str(calm);
    }
    let advice = collect_advice(findings, cues);
    if advice.len() == 0 {
        String::from_str(unsure)
    } else {
        let listed = join(&advice, "; ");
        String::from_str(lead).concat(listed.as_str())
    }
}

/// The first level: run a component again with fallback parameters.
#[derive(Debug, Clone, Copy)]
pub struct RefinementStrategy;

impl RefinementStrategy {
    pub fn name(&self) -> (name: &'static str)
        ensures
            name@ == "Level 1: Refinement Strategy"@,
    {
        "Level 1: Refinement Strategy"
    }

    /// The proposal for a level-one trigger; any other trigger is not for
    /// this strategy.
    pub fn propose_action(&self, trigger: &ActionTrigger) -> (outcome: Result<
        ImprovementAction,
        PandoraError,
    >)
        ensures
            match *trigger {
                ActionTrigger::TriggerSelfImprovementLevel1 { target_component, .. } => outcome
                    matches Ok(action) && action.description@
                    == "Đề xuất: Chạy lại thành phần '"@ + target_component@
                    + "' với các tham số dự phòng."@,
                _ => outcome matches Err(error) && error@ == ErrorModel::Config(
                    mismatch_message(),
                ),
            },
    {
        match trigger {
            ActionTrigger::TriggerSelfImprovementLevel1 { target_component, .. } => {
                let description = String::from_str("Đề xuất: Chạy lại thành phần '").concat(
                    target_component.as_str(),
                ).concat("' với các tham số dự phòng.");
                Ok(ImprovementAction { description })
            },
            _ => mismatch(),
        }
    }
}

/// The second level: search for a better architecture.
#[derive(Debug, Clone, Copy)]
pub struct ArchitectureSearchStrategy;

impl ArchitectureSearchStrategy {
    pub fn new() -> Self {
        ArchitectureSearchStrategy
    }

    pub fn name(&self) -> (name: &'static str)
        ensures
            name@ == "Level 2: Architecture Search"@,
    {
        "Level 2: Architecture Search"
    }
}

/// The third level: tune hyperparameters.
#[derive(Debug, Clone, Copy)]
pub struct HyperparameterTuningStrategy;

impl HyperparameterTuningStrategy {
    pub fn new() -> Self {
        HyperparameterTuningStrategy
    }

    pub fn name(&self) -> (name: &'static str)
        ensures
            name@ == "Level 3: Hyperparameter Tuning"@,
    {
        "Level 3: Hyperparameter Tuning"
    }
}

/// The fourth level: adjust how the system learns.
#[derive(Debug, Clone, Copy)]
pub struct MetaLearningStrategy;

impl MetaLearningStrategy {
    pub fn new() -> Self {
        MetaLearningStrategy
    }

    pub fn name(&self) -> (name: &'static str)
        ensures
            name@ == "Level 4: Meta-Learning"@,
    {
        "Level 4: Meta-Learning"
    }

    /// The cues by which insights into learning are read.
    pub open spec fn cue_list() -> Seq<(Seq<char>, Seq<char>)> {
        seq![
            ("khám phá nhân quả"@, "Tăng cường exploration trong causal discovery algorithm"@),
            ("thí nghiệm"@, "Cải thiện experimental design với Bayesian optimization"@),
            ("hội tụ"@, "Điều chỉnh adaptive learning rates và regularization"@),
            ("meta-cognitive"@, "Tăng cường self-monitoring và confidence calibration"@),
        ]
    }

    fn cues() -> (cues: Vec<Cue>)
        ensures
            cue_texts(cues@) == Self::cue_list(),
    {
        let mut cues: Vec<Cue> = Vec::new();
        cues.push(
            Cue {
                keyword: "khám phá nhân quả",
                advice: "Tăng cường exploration trong causal discovery algorithm",
            },
        );
        cues.push(
            Cue {
                keyword: "thí nghiệm",
                advice: "Cải thiện experimental design với Bayesian optimization",
            },
        );
        cues.push(
            Cue {
                keyword: "hội tụ",
                advice: "Điều chỉnh adaptive learning rates và regularization",
            },
        );
        cues.push(
            Cue {
                keyword: "meta-cognitive",
                advice: "Tăng cường self-monitoring và confidence calibration",
            },
        );
        assert(cue_texts(cues@) =~= Self::cue_list());
        cues
    }

    /// What to change in how the system learns, given insights into its
    /// learning.
    pub fn suggest_meta_improvements(&self, insights: &Vec<String>) -> (text: String)
        ensures
            text@ == advice_text(
                names(insights@),
                Self::cue_list(),
                "Hệ thống đang hoạt động tối ưu - không cần điều chỉnh meta-policy"@,
                "Cần phân tích sâu hơn để đưa ra đề xuất cụ thể"@,
                "Đề xuất meta-learning: "@,
            ),
    {
        let cues = Self::cues();
        advise(
            insights,
            &cues,
            "Hệ thống đang hoạt động tối ưu - không cần điều chỉnh meta-policy",
            "Cần phân tích sâu hơn để đưa ra đề xuất cụ thể",
            "Đề xuất meta-learning: ",
        )
    }
}

impl MetaLearningStrategy {
    /// What the proposal says of the insights: that the system is stable
    /// where there is none, else the insights separated by "; ".
    pub open spec fn analysis(insights: Seq<Seq<char>>) -> Seq<char> {
        if insights.len() == 0 {
            "Hệ thống ổn định"@
        } else {
            joined(insights, "; "@)
        }
    }

    /// The proposal for a level-four trigger, given the insights into the
    /// system's learning; any other trigger is not for this strategy.
    pub fn propose_action(&self, trigger: &ActionTrigger, insights: &Vec<String>) -> (outcome: Result<
        ImprovementAction,
        PandoraError,
    >)
        ensures
            match *trigger {
                ActionTrigger::TriggerSelfImprovementLevel4 { target_component, .. } => outcome
                    matches Ok(action) && action.description@
                    == "Đề xuất: Điều chỉnh meta-policy cho '"@ + target_component@
                    + "'. Phân tích: "@ + Self::analysis(names(insights@)) + " | Hành động: "@
                    + advice_text(
                    names(insights@),
                    Self::cue_list(),
                    "Hệ thống đang hoạt động tối ưu - không cần điều chỉnh meta-policy"@,
                    "Cần phân tích sâu hơn để đưa ra đề xuất cụ thể"@,
                    "Đề xuất meta-learning: "@,
                ),
                _ => outcome matches Err(error) && error@ == ErrorModel::Config(
                    mismatch_message(),
                ),
            },
    {
        match trigger {
            ActionTrigger::TriggerSelfImprovementLevel4 { target_component, .. } => {
                let suggestion = self.suggest_meta_improvements(insights);
                let analysis = if insights.len() == 0 {
                    String::from_str("Hệ thống ổn định")
                } else {
                    join(insights, "; ")
                };
                let description = String::from_str("Đề xuất: Điều chỉnh meta-policy cho '").concat(
                    target_component.as_str(),
                ).concat("'. Phân tích: ").concat(analysis.as_str()).concat(" | Hành động: ").concat(
                    suggestion.as_str(),
                );
                Ok(ImprovementAction { description })
            },
            _ => mismatch(),
        }
    }
}

impl SelfModificationStrategy {
    /// What the proposal says of the issues: that there is none, or the
    /// issues separated by "; ".
    pub open spec fn diagnosis(issues: Seq<Seq<char>>) -> Seq<char> {
        if issues.len() == 0 {
            "Không có vấn đề"@
        } else {
            joined(issues, "; "@)
        }
    }

    /// The proposal for a level-four trigger, given the issues with the
    /// system's health; any other trigger is not for this strategy.
    pub fn propose_action(&self, trigger: &ActionTrigger, issues: &Vec<String>) -> (outcome: Result<
        ImprovementAction,
        PandoraError,
    >)
        ensures
            match *trigger {
                ActionTrigger::TriggerSelfImprovementLevel4 { target_component, .. } => outcome
                    matches Ok(action) && action.description@
                    == "Đề xuất: Self-modification cho '"@ + target_component@ + "'. Vấn đề: "@
                    + Self::diagnosis(names(issues@)) + " | Sửa chữa: "@ + advice_text(
                    names(issues@),
                    Self::cue_list(),
                    "Hệ thống hoạt động ổn định - không cần self-modification"@,
                    "Cần phân tích sâu hơn để đưa ra self-modification cụ thể"@,
                    "Self-modification đề xuất: "@,
                ),
                _ => outcome matches Err(error) && error@ == ErrorModel::Config(
                    mismatch_message(),
                ),
            },
    {
        match trigger {
            ActionTrigger::TriggerSelfImprovementLevel4 { target_component, .. } => {
                let suggestion = self.suggest_self_modifications(issues);
                let diagnosis = if issues.len() == 0 {
                    String::from_str("Không có vấn đề")
                } else {
                    join(issues, "; ")
                };
                let description = String::from_str("Đề xuất: Self-modification cho '").concat(
                    target_component.as_str(),
                ).concat("'. Vấn đề: ").concat(diagnosis.as_str()).concat(" | Sửa chữa: ").concat(
                    suggestion.as_str(),
                );
                Ok(ImprovementAction { description })
            },
            _ => mismatch(),
        }
    }
}

/// The fifth level: change the system itself.
#[derive(Debug, Clone, Copy)]
pub struct SelfModificationStrategy;

impl SelfModificationStrategy {
    pub fn new() -> Self {
        SelfModificationStrategy
    }

    pub fn name(&self) -> (name: &'static str)
        ensures
            name@ == "Level 5: Self-Modification"@,
    {
        "Level 5: Self-Modification"
    }

    /// The cues by which health issues are read.
    pub open spec fn cue_list() -> Seq<(Seq<char>, Seq<char>)> {
        seq![
            ("dự đoán"@, "Tăng cường training data và model complexity"@),
            ("bộ nhớ"@, "Implement memory pooling và garbage collection"@),
            ("phản hồi"@, "Optimize algorithms và implement caching"@),
            ("lỗi"@, "Improve error handling và add more validation"@),
        ]
    }

    fn cues() -> (cues: Vec<Cue>)
        ensures
            cue_texts(cues@) == Self::cue_list(),
    {
        let mut cues: Vec<Cue> = Vec::new();
        cues.push(
            Cue { keyword: "dự đoán", advice: "Tăng cường training data và model complexity" },
        );
        cues.push(
            Cue { keyword: "bộ nhớ", advice: "Implement memory pooling và garbage collection" },
        );
        cues.push(Cue { keyword: "phản hồi", advice: "Optimize algorithms và implement caching" });
        cues.push(Cue { keyword: "lỗi", advice: "Improve error handling và add more validation" });
        assert(cue_texts(cues@) =~= Self::cue_list());
        cues
    }

    /// What to change in the system, given the issues with its health.
    pub fn suggest_self_modifications(&self, issues: &Vec<String>) -> (text: String)
        ensures
            text@ == advice_text(
                names(issues@),
                Self::cue_list(),
                "Hệ thống hoạt động ổn định - không cần self-modification"@,
                "Cần phân tích sâu hơn để đưa ra self-modification cụ thể"@,
                "Self-modification đề xuất: "@,
            ),
    {
        let cues = Self::cues();
        advise(
            issues,
            &cues,
            "Hệ thống hoạt động ổn định - không cần self-modification",
            "Cần phân tích sâu hơn để đưa ra self-modification cụ thể",
            "Self-modification đề xuất: ",
        )
    }
}

/// The level of the strategy that answers a trigger at `unix_secs`
/// seconds since the epoch. Level-four triggers go to meta-learning in
/// even seconds and to self-modification in odd ones; a trigger that asks
/// for no improvement has no strategy.
pub open spec fn strategy_for(trigger: ActionTrigger, unix_secs: u64) -> Option<u8> {
    match trigger.level_spec() {
        Some(level) => if level == 4 && unix_secs % 2 == 1 {
            Some(5)
        } else {
            Some(level)
        },
        None => None,
    }
}

/// Picks the strategy for a trigger.
#[derive(Debug, Clone, Copy)]
pub struct SelfImprovementEngine;

impl SelfImprovementEngine {
    pub fn new() -> Self {
        SelfImprovementEngine
    }

    /// The level of the strategy that answers `trigger` at `unix_secs`
    /// seconds since the epoch.
    pub fn strategy_level(&self, trigger: &ActionTrigger, unix_secs: u64) -> (level: Option<u8>)
        ensures
            level == strategy_for(*trigger, unix_secs),
    {
        match trigger.level() {
            Some(level) => {
                if level == 4 && unix_secs % 2 == 1 {
                    Some(5)
                } else {
                    Some(level)
                }
            },
            None => None,
        }
    }
}

} // verus!
