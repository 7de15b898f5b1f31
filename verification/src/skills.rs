//! The built-in skills: what each one is called and what it computes.

use vstd::prelude::*;
use vstd::string::{StrSliceExecFns, StringExecFns};
use crate::error::{ErrorModel, PandoraError};
use crate::policy::names;
use crate::text::{
    has_infix, lowercase_of, picked, replaced, select_where, str_contains, str_equal,
    str_replace, str_to_lowercase,
};

verus! {

/// How a skill presents itself: its name, what it does, and the JSON
/// schemas of its input and output.
#[derive(Debug)]
pub struct SkillDescriptor {
    pub name: String,
    pub description: String,
    pub input_schema: String,
    pub output_schema: String,
}

impl SkillDescriptor {
    /// The descriptor made of the four texts.
    pub fn of(name: &str, description: &str, input_schema: &str, output_schema: &str) -> (descriptor:
        SkillDescriptor)
        ensures
            descriptor.name@ == name@,
            descriptor.description@ == description@,
            descriptor.input_schema@ == input_schema@,
            descriptor.output_schema@ == output_schema@,
    {
        SkillDescriptor {
            name: name.to_owned(),
            description: description.to_owned(),
            input_schema: input_schema.to_owned(),
            output_schema: output_schema.to_owned(),
        }
    }
}

/// Finds the documents that mention a query.
#[derive(Debug, Clone, Copy)]
pub struct InformationRetrievalSkill;

/// For each document, whether its lowercase form holds the lowercase form
/// of the query.
pub open spec fn mentions(documents: Seq<Seq<char>>, query: Seq<char>) -> Seq<bool> {
    Seq::new(
        documents.len(),
        |i: int| has_infix(lowercase_of(documents[i]), lowercase_of(query)),
    )
}

impl InformationRetrievalSkill {
    pub fn descriptor(&self) -> (descriptor: SkillDescriptor)
        ensures
            descriptor.name@ == "information_retrieval"@,
            descriptor.description@ == "Tìm kiếm thông tin đơn giản trong một danh sách văn bản."@,
            descriptor.input_schema@
                == r#"{"type":"object","properties":{"query":{"type":"string"},"documents":{"type":"array","items":{"type":"string"}}},"required":["query","documents"]}"#@,
            descriptor.output_schema@
                == r#"{"type":"object","properties":{"matches":{"type":"array","items":{"type":"string"}}}}"#@,
    {
        SkillDescriptor::of(
            "information_retrieval",
            "Tìm kiếm thông tin đơn giản trong một danh sách văn bản.",
            r#"{"type":"object","properties":{"query":{"type":"string"},"documents":{"type":"array","items":{"type":"string"}}},"required":["query","documents"]}"#,
            r#"{"type":"object","properties":{"matches":{"type":"array","items":{"type":"string"}}}}"#,
        )
    }

    /// The documents that mention the query, whatever the case of the
    /// letters, in their old order.
    pub fn search(&self, query: &str, documents: &Vec<String>) -> (matches: Vec<String>)
        ensures
            names(matches@) == picked(names(documents@), mentions(names(documents@), query@)),
    {
        let folded_query = str_to_lowercase(query);
        let mut flags: Vec<bool> = Vec::new();
        let mut i: usize = 0;
        while i < documents.len()
            invariant
                i <= documents@.len(),
                folded_query@ == lowercase_of(query@),
                flags@.len() == i,
                forall|j: int|
                    0 <= j < i ==> flags@[j] == has_infix(
                        lowercase_of(#[trigger] documents@[j]@),
                        lowercase_of(query@),
                    ),
            decreases documents.len() - i,
        {
            let folded = str_to_lowercase(documents[i].as_str());
            flags.push(str_contains(folded.as_str(), folded_query.as_str()));
            i += 1;
        }
        assert(flags@ =~= mentions(names(documents@), query@));
        select_where(documents, &flags)
    }
}

/// A logical expression as a tree.
#[derive(Debug)]
pub enum LogicNode {
    /// A truth value.
    Const(bool),
    /// A variable, to be looked up in the context.
    Var(String),
    /// The negation of an expression.
    Not(Box<LogicNode>),
    /// True when every one of the expressions is.
    And(Vec<LogicNode>),
    /// True when one of the expressions is.
    Or(Vec<LogicNode>),
    /// A node that cannot be read; the text says why. It is an error only
    /// where the evaluation gets to it.
    Invalid(String),
}

/// The value of the first entry of `context` under `name`.
pub open spec fn bound(context: Seq<(String, bool)>, name: Seq<char>) -> Option<bool>
    decreases context.len(),
{
    if context.len() == 0 {
        None
    } else if context[0].0@ == name {
        Some(context[0].1)
    } else {
        bound(context.drop_first(), name)
    }
}

/// The complaint about a variable that the context does not hold.
pub open spec fn unbound_message(name: Seq<char>) -> Seq<char> {
    "Không tìm thấy biến '"@ + name + "' trong context"@
}

/// The value of a logical expression in a context, or the complaint about
/// the first variable met that the context does not hold. The parts of a
/// conjunction are taken from the left until one is false, those of a
/// disjunction until one is true; what comes after is not looked at.
pub open spec fn truth(node: LogicNode, context: Seq<(String, bool)>) -> Result<bool, Seq<char>>
    decreases node, 0nat,
{
    match node {
        LogicNode::Const(value) => Ok(value),
        LogicNode::Var(name) => match bound(context, name@) {
            Some(value) => Ok(value),
            None => Err(unbound_message(name@)),
        },
        LogicNode::Not(child) => match truth(*child, context) {
            Ok(value) => Ok(!value),
            Err(message) => Err(message),
        },
        LogicNode::And(children) => truth_from(children, context, 0, true),
        LogicNode::Or(children) => truth_from(children, context, 0, false),
        LogicNode::Invalid(message) => Err(message@),
    }
}

/// The value of the parts of a conjunction (where `all` is set) or of a
/// disjunction from index `from` on.
pub open spec fn truth_from(children: Vec<LogicNode>, context: Seq<(String, bool)>, from: nat, all: bool) -> Result<
    bool,
    Seq<char>,
>
    decreases children, children@.len() - from,
{
    if from >= children@.len() {
        Ok(all)
    } else {
        match truth(children@[from as int], context) {
            Err(message) => Err(message),
            Ok(value) => if value == all {
                truth_from(children, context, from + 1, all)
            } else {
                Ok(value)
            },
        }
    }
}

/// The view of a result whose error is a text.
pub open spec fn text_result(outcome: Result<bool, String>) -> Result<bool, Seq<char>> {
    match outcome {
        Ok(value) => Ok(value),
        Err(message) => Err(message@),
    }
}

/// Evaluates logical expressions.
#[derive(Debug, Clone, Copy)]
pub struct LogicalReasoningSkill;

impl LogicalReasoningSkill {
    /// The value of the first entry of the context under `name`.
    pub fn lookup(context: &Vec<(String, bool)>, name: &str) -> (value: Option<bool>)
        ensures
            value == bound(context@, name@),
    {
        let mut i: usize = 0;
        assert(context@.skip(0) == context@);
        while i < context.len()
            invariant
                i <= context@.len(),
                bound(context@, name@) == bound(context@.skip(i as int), name@),
            decreases context.len() - i,
        {
            let ghost rest = context@.skip(i as int);
            assert(rest[0] == context@[i as int]);
            assert(rest.drop_first() == context@.skip(i + 1));
            if str_equal(context[i].0.as_str(), name) {
                return Some(context[i].1);
            }
            i += 1;
        }
        assert(context@.skip(context@.len() as int).len() == 0);
        None
    }

    /// The value of a logical expression in a context, or the complaint
    /// about a variable that the context does not hold.
    pub fn evaluate_node(&self, node: &LogicNode, context: &Vec<(String, bool)>) -> (outcome: Result<
        bool,
        String,
    >)
        ensures
            text_result(outcome) == truth(*node, context@),
        decreases node,
    {
        match node {
            LogicNode::Const(value) => Ok(*value),
            LogicNode::Var(name) => match Self::lookup(context, name.as_str()) {
                Some(value) => Ok(value),
                None => Err(
                    String::from_str("Không tìm thấy biến '").concat(name.as_str()).concat(
                        "' trong context",
                    ),
                ),
            },
            LogicNode::Not(child) => match self.evaluate_node(child, context) {
                Ok(value) => Ok(!value),
                Err(message) => Err(message),
            },
            LogicNode::And(children) => self.evaluate_parts(children, context, true),
            LogicNode::Or(children) => self.evaluate_parts(children, context, false),
            LogicNode::Invalid(message) => Err(message.clone()),
        }
    }

    /// The value of the parts of a conjunction (where `all` is set) or of a
    /// disjunction.
    fn evaluate_parts(&self, children: &Vec<LogicNode>, context: &Vec<(String, bool)>, all: bool) -> (outcome:
        Result<bool, String>)
        ensures
            text_result(outcome) == truth_from(*children, context@, 0, all),
        decreases children,
    {
        let mut i: usize = 0;
        while i < children.len()
            invariant
                i <= children@.len(),
                truth_from(*children, context@, 0, all) == truth_from(
                    *children,
                    context@,
                    i as nat,
                    all,
                ),
            decreases children.len() - i,
        {
            match self.evaluate_node(&children[i], context) {
                Err(message) => {
                    return Err(message);
                },
                Ok(value) => {
                    if value != all {
                        return Ok(value);
                    }
                },
            }
            i += 1;
        }
        Ok(all)
    }

    pub fn descriptor(&self) -> (descriptor: SkillDescriptor)
        ensures
            descriptor.name@ == "logical_reasoning"@,
            descriptor.description@
                == "Đánh giá các biểu thức logic dạng cây AST (AND, OR, NOT, VAR, CONST)."@,
            descriptor.input_schema@
                == r#"{"type":"object","properties":{"ast":{"type":"object"},"context":{"type":"object"}},"required":["ast","context"]}"#@,
            descriptor.output_schema@
                == r#"{"type":"object","properties":{"result":{"type":"boolean"}}}"#@,
    {
        SkillDescriptor::of(
            "logical_reasoning",
            "Đánh giá các biểu thức logic dạng cây AST (AND, OR, NOT, VAR, CONST).",
            r#"{"type":"object","properties":{"ast":{"type":"object"},"context":{"type":"object"}},"required":["ast","context"]}"#,
            r#"{"type":"object","properties":{"result":{"type":"boolean"}}}"#,
        )
    }
}

/// Computes arithmetic expressions.
#[derive(Debug, Clone, Copy)]
pub struct ArithmeticSkill;

impl ArithmeticSkill {
    pub fn descriptor(&self) -> (descriptor: SkillDescriptor)
        ensures
            descriptor.name@ == "arithmetic"@,
            descriptor.description@
                == "Thực hiện phép tính số học từ biểu thức chuỗi (ví dụ: '2 + 3 * 4')."@,
            descriptor.input_schema@
                == r#"{"type":"object","properties":{"expression":{"type":"string"}},"required":["expression"]}"#@,
            descriptor.output_schema@
                == r#"{"type":"object","properties":{"result":{"type":"number"}}}"#@,
    {
        SkillDescriptor::of(
            "arithmetic",
            "Thực hiện phép tính số học từ biểu thức chuỗi (ví dụ: '2 + 3 * 4').",
            r#"{"type":"object","properties":{"expression":{"type":"string"}},"required":["expression"]}"#,
            r#"{"type":"object","properties":{"result":{"type":"number"}}}"#,
        )
    }
}

/// What can go wrong while an arithmetic expression is evaluated.
#[derive(Debug)]
pub enum ArithmeticError {
    ParseError(String),
}

impl ArithmeticError {
    /// The message that the error shows to a reader.
    pub fn to_string(&self) -> (text: String)
        ensures
            match self {
                ArithmeticError::ParseError(what) => text@ == "Lỗi parse biểu thức: "@ + what@,
            },
    {
        match self {
            ArithmeticError::ParseError(what) => String::from_str("Lỗi parse biểu thức: ").concat(
                what.as_str(),
            ),
        }
    }
}

/// Whether `c` is alphabetic, as `char::is_alphabetic` tells it.
pub uninterp spec fn alphabetic(c: char) -> bool;

/// `char::is_alphabetic`: whether the character is alphabetic.
#[verifier::external_body]
fn char_is_alphabetic(c: char) -> (answer: bool)
    ensures
        answer == alphabetic(c),
{
    c.is_alphabetic()
}

/// Whether an expression is simple once it is known which of its
/// characters are letters: none is, and it takes fewer than 50 bytes.
pub open spec fn simple_given(letters: Seq<bool>, byte_len: nat) -> bool {
    (forall|i: int| 0 <= i < letters.len() ==> !#[trigger] letters[i]) && byte_len < 50
}

/// Picks the cheapest way to evaluate an arithmetic expression.
#[derive(Debug, Clone, Copy)]
pub struct AdaptiveArithmeticEngine;

impl AdaptiveArithmeticEngine {
    pub fn new() -> Self {
        AdaptiveArithmeticEngine
    }

    /// Whether an expression is simple, given for each of its characters
    /// whether it is a letter, and its length in bytes.
    pub fn is_simple_given(letters: &Vec<bool>, byte_len: usize) -> (simple: bool)
        ensures
            simple == simple_given(letters@, byte_len as nat),
    {
        if byte_len >= 50 {
            return false;
        }
        let mut i: usize = 0;
        while i < letters.len()
            invariant
                i <= letters@.len(),
                forall|j: int| 0 <= j < i ==> !#[trigger] letters@[j],
            decreases letters.len() - i,
        {
            if letters[i] {
                return false;
            }
            i += 1;
        }
        true
    }

    /// Whether an expression is simple: it holds no letter and takes fewer
    /// than 50 bytes.
    pub fn is_simple(&self, expr: &str) -> (simple: bool)
        ensures
            simple == simple_given(
                Seq::new(expr@.len(), |i: int| alphabetic(expr@[i])),
                expr.len() as nat,
            ),
    {
        let count = expr.unicode_len();
        let mut letters: Vec<bool> = Vec::new();
        let mut i: usize = 0;
        while i < count
            invariant
                i <= count,
                count == expr@.len(),
                letters@.len() == i,
                forall|j: int| 0 <= j < i ==> #[trigger] letters@[j] == alphabetic(expr@[j]),
            decreases count - i,
        {
            letters.push(char_is_alphabetic(expr.get_char(i)));
            i += 1;
        }
        assert(letters@ =~= Seq::new(expr@.len(), |i: int| alphabetic(expr@[i])));
        Self::is_simple_given(&letters, expr.len())
    }
}

/// Whether the regular expression `pattern` matches somewhere in `text`,
/// as the `regex` crate decides it.
pub uninterp spec fn regex_accepts(pattern: Seq<char>, text: Seq<char>) -> bool;

/// What the `regex` crate objects to in `pattern`; `None` where it accepts
/// the pattern.
pub uninterp spec fn regex_fault(pattern: Seq<char>) -> Option<Seq<char>>;

/// `regex::Regex::new` and, on the expression it returns,
/// `regex::Regex::is_match`: whether the pattern matches somewhere in the
/// text, or the text of the error that rejects the pattern.
#[verifier::external_body]
fn regex_is_match(pattern: &str, text: &str) -> (verdict: Result<bool, String>)
    ensures
        match verdict {
            Ok(matched) => regex_fault(pattern@).is_none() && matched == regex_accepts(
                pattern@,
                text@,
            ),
            Err(message) => regex_fault(pattern@) == Some(message@),
        },
{
    match regex::Regex::new(pattern) {
        Ok(expression) => Ok(expression.is_match(text)),
        Err(error) => Err(error.to_string()),
    }
}

/// The regular expression that a glob pattern stands for: each `*` is any
/// run of characters, and the whole text must match.
pub open spec fn glob_expression(pattern: Seq<char>) -> Seq<char> {
    "^"@ + replaced(pattern, "*"@, ".*"@) + "$"@
}

/// For each candidate, whether the expression accepts it.
pub open spec fn accepted(expression: Seq<char>, candidates: Seq<Seq<char>>) -> Seq<bool> {
    Seq::new(candidates.len(), |i: int| regex_accepts(expression, candidates[i]))
}

/// Matches strings against a pattern with the wildcard `*`.
#[derive(Debug, Clone, Copy)]
pub struct PatternMatchingSkill;

impl PatternMatchingSkill {
    pub fn descriptor(&self) -> (descriptor: SkillDescriptor)
        ensures
            descriptor.name@ == "pattern_matching"@,
            descriptor.description@
                == "Khớp mẫu đơn giản giữa các chuỗi với wildcard '*' (dạng glob)."@,
            descriptor.input_schema@
                == r#"{"type":"object","properties":{"pattern":{"type":"string"},"candidates":{"type":"array","items":{"type":"string"}}},"required":["pattern","candidates"]}"#@,
            descriptor.output_schema@
                == r#"{"type":"object","properties":{"matches":{"type":"array","items":{"type":"string"}}}}"#@,
    {
        SkillDescriptor::of(
            "pattern_matching",
            "Khớp mẫu đơn giản giữa các chuỗi với wildcard '*' (dạng glob).",
            r#"{"type":"object","properties":{"pattern":{"type":"string"},"candidates":{"type":"array","items":{"type":"string"}}},"required":["pattern","candidates"]}"#,
            r#"{"type":"object","properties":{"matches":{"type":"array","items":{"type":"string"}}}}"#,
        )
    }

    /// The regular expression that a glob pattern stands for.
    pub fn expression(pattern: &str) -> (source: String)
        ensures
            source@ == glob_expression(pattern@),
    {
        proof {
            reveal_strlit("*");
        }
        let body = str_replace(pattern, "*", ".*");
        String::from_str("^").concat(body.as_str()).concat("$")
    }

    /// The candidates that the pattern matches, in their old order; or,
    /// where the pattern is no valid expression, the error that says why.
    pub fn find_matches(&self, pattern: &str, candidates: &Vec<String>) -> (outcome: Result<
        Vec<String>,
        PandoraError,
    >)
        ensures
            match outcome {
                Ok(matches) => regex_fault(glob_expression(pattern@)).is_none() && names(matches@)
                    == picked(
                    names(candidates@),
                    accepted(glob_expression(pattern@), names(candidates@)),
                ),
                Err(error) => regex_fault(glob_expression(pattern@)).is_some() && error@
                    == (ErrorModel::SkillExecution {
                    skill_name: "pattern_matching"@,
                    message: "Lỗi regex: "@ + regex_fault(glob_expression(pattern@))->0,
                }),
            },
    {
        let source = Self::expression(pattern);
        match regex_is_match(source.as_str(), "") {
            Err(message) => {
                return Err(
                    PandoraError::SkillExecution {
                        skill_name: String::from_str("pattern_matching"),
                        message: String::from_str("Lỗi regex: ").concat(message.as_str()),
                    },
                );
            },
            Ok(_) => {},
        }
        let mut flags: Vec<bool> = Vec::new();
        let mut i: usize = 0;
        while i < candidates.len()
            invariant
                i <= candidates@.len(),
                source@ == glob_expression(pattern@),
                regex_fault(source@).is_none(),
                flags@.len() == i,
                forall|j: int|
                    0 <= j < i ==> flags@[j] == regex_accepts(
                        source@,
                        #[trigger] candidates@[j]@,
                    ),
            decreases candidates.len() - i,
        {
            let matched = match regex_is_match(source.as_str(), candidates[i].as_str()) {
                Ok(matched) => matched,
                Err(_) => false,
            };
            flags.push(matched);
            i += 1;
        }
        assert(flags@ =~= accepted(glob_expression(pattern@), names(candidates@)));
        Ok(select_where(candidates, &flags))
    }
}

/// The least number of insertions, deletions and substitutions of single
/// characters that turn `a` into `b`.
pub open spec fn edit_distance(a: Seq<char>, b: Seq<char>) -> nat
    decreases a.len() + b.len(),
{
    if a.len() == 0 {
        b.len()
    } else if b.len() == 0 {
        a.len()
    } else {
        let substitute = edit_distance(a.drop_last(), b.drop_last()) + if a.last() == b.last() {
            0nat
        } else {
            1nat
        };
        let delete = edit_distance(a.drop_last(), b) + 1;
        let insert = edit_distance(a, b.drop_last()) + 1;
        if substitute <= delete && substitute <= insert {
            substitute
        } else if delete <= insert {
            delete
        } else {
            insert
        }
    }
}

/// `strsim::levenshtein`: the least number of insertions, deletions and
/// substitutions of single characters that turn one string into the other.
#[verifier::external_body]
fn levenshtein(a: &str, b: &str) -> (distance: usize)
    ensures
        distance == edit_distance(a@, b@),
{
    strsim::levenshtein(a, b)
}

/// How far `value` is from `target`.
pub open spec fn gap(target: usize, value: usize) -> nat {
    if target >= value {
        (target - value) as nat
    } else {
        (value - target) as nat
    }
}

/// `index` is the first among `values` that is nearest to `target`.
pub open spec fn is_first_closest(target: usize, values: Seq<usize>, index: int) -> bool {
    &&& 0 <= index < values.len()
    &&& gap(target, values[index]) < usize::MAX
    &&& forall|j: int| 0 <= j < values.len() ==> gap(target, #[trigger] values[j]) >= gap(
        target,
        values[index],
    )
    &&& forall|j: int| 0 <= j < index ==> gap(target, #[trigger] values[j]) > gap(
        target,
        values[index],
    )
}

/// For each candidate, its edit distance from `c`.
pub open spec fn distances_from(c: Seq<char>, candidates: Seq<Seq<char>>) -> Seq<usize> {
    Seq::new(candidates.len(), |i: int| edit_distance(c, candidates[i]) as usize)
}

/// Completes analogies of the form A is to B as C is to what.
#[derive(Debug, Clone, Copy)]
pub struct AnalogyReasoningSkill;

impl AnalogyReasoningSkill {
    pub fn descriptor(&self) -> (descriptor: SkillDescriptor)
        ensures
            descriptor.name@ == "analogy_reasoning"@,
            descriptor.description@ == "Suy luận tương tự: A:B :: C:?"@,
            descriptor.input_schema@
                == r#"{"type":"object","properties":{"a":{"type":"string"},"b":{"type":"string"},"c":{"type":"string"},"candidates":{"type":"array","items":{"type":"string"}}},"required":["a","b","c","candidates"]}"#@,
            descriptor.output_schema@
                == r#"{"type":"object","properties":{"best_match":{"type":"string"}}}"#@,
    {
        SkillDescriptor::of(
            "analogy_reasoning",
            "Suy luận tương tự: A:B :: C:?",
            r#"{"type":"object","properties":{"a":{"type":"string"},"b":{"type":"string"},"c":{"type":"string"},"candidates":{"type":"array","items":{"type":"string"}}},"required":["a","b","c","candidates"]}"#,
            r#"{"type":"object","properties":{"best_match":{"type":"string"}}}"#,
        )
    }

    /// The index of the first value that is nearest to `target`; `None`
    /// where there is no value, or none nearer than the largest gap that
    /// can be told.
    pub fn closest(target: usize, values: &Vec<usize>) -> (best: Option<usize>)
        ensures
            match best {
                Some(index) => is_first_closest(target, values@, index as int),
                None => forall|j: int|
                    0 <= j < values@.len() ==> gap(target, #[trigger] values@[j]) >= usize::MAX,
            },
    {
        let mut best: Option<usize> = None;
        let mut best_score: usize = usize::MAX;
        let mut i: usize = 0;
        while i < values.len()
            invariant
                i <= values@.len(),
                match best {
                    Some(index) => {
                        &&& index < i
                        &&& best_score == gap(target, values@[index as int])
                        &&& best_score < usize::MAX
                        &&& forall|j: int|
                            0 <= j < i ==> gap(target, #[trigger] values@[j]) >= best_score
                        &&& forall|j: int|
                            0 <= j < index ==> gap(target, #[trigger] values@[j]) > best_score
                    },
                    None => best_score == usize::MAX && forall|j: int|
                        0 <= j < i ==> gap(target, #[trigger] values@[j]) >= usize::MAX,
                },
            decreases values.len() - i,
        {
            let value = values[i];
            let score: usize = if target >= value {
                target - value
            } else {
                value - target
            };
            if score < best_score {
                best = Some(i);
                best_score = score;
            }
            i += 1;
        }
        best
    }

    /// The candidate D that makes "C is to D" most like "A is to B": the
    /// first one whose edit distance from C is nearest to that of B from A.
    pub fn best_match(&self, a: &str, b: &str, c: &str, candidates: &Vec<String>) -> (answer: Option<
        String,
    >)
        ensures
            match answer {
                Some(text) => exists|index: int|
                    #[trigger] is_first_closest(
                        edit_distance(a@, b@) as usize,
                        distances_from(c@, names(candidates@)),
                        index,
                    ) && text@ == candidates@[index]@,
                None => forall|j: int|
                    0 <= j < candidates@.len() ==> gap(
                        edit_distance(a@, b@) as usize,
                        #[trigger] distances_from(c@, names(candidates@))[j],
                    ) >= usize::MAX,
            },
    {
        let ab = levenshtein(a, b);
        let mut distances: Vec<usize> = Vec::new();
        let mut i: usize = 0;
        while i < candidates.len()
            invariant
                i <= candidates@.len(),
                distances@.len() == i,
                forall|j: int|
                    0 <= j < i ==> #[trigger] distances@[j] == edit_distance(c@, candidates@[j]@),
            decreases candidates.len() - i,
        {
            distances.push(levenshtein(c, candidates[i].as_str()));
            i += 1;
        }
        assert(distances@ =~= distances_from(c@, names(candidates@)));
        match Self::closest(ab, &distances) {
            Some(index) => {
                assert(is_first_closest(
                    edit_distance(a@, b@) as usize,
                    distances_from(c@, names(candidates@)),
                    index as int,
                ));
                Some(candidates[index].clone())
            },
            None => None,
        }
    }
}

} // verus!
