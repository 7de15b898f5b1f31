//! The error type shared by the whole toolkit.

use vstd::prelude::*;
use vstd::std_specs::convert::IntoSpec;
use vstd::string::StringExecFns;

verus! {

/// Everything that can go wrong while a skill is dispatched or run.
#[derive(Debug)]
pub enum PandoraError {
    /// A configuration problem.
    Config(String),
    /// A configuration problem, with a description of what caused it.
    ConfigWithSource { message: String, source: String },
    /// No executor is registered under the name.
    SkillNotFound { skill_name: String },
    /// The executor rejected its input.
    InvalidSkillInput { skill_name: String, message: String },
    /// The executor ran and failed.
    SkillExecution { skill_name: String, message: String },
    /// An attempt did not finish within its time limit.
    Timeout { operation: String, timeout_ms: u64 },
    /// The circuit breaker turned the request away.
    CircuitOpen { resource: String },
    /// A failure at a foreign-function boundary.
    Ffi(String),
    /// Anything else.
    Unknown(String),
}

/// A `PandoraError` with its strings as character sequences.
pub enum ErrorModel {
    Config(Seq<char>),
    ConfigWithSource { message: Seq<char>, source: Seq<char> },
    SkillNotFound { skill_name: Seq<char> },
    InvalidSkillInput { skill_name: Seq<char>, message: Seq<char> },
    SkillExecution { skill_name: Seq<char>, message: Seq<char> },
    Timeout { operation: Seq<char>, timeout_ms: u64 },
    CircuitOpen { resource: Seq<char> },
    Ffi(Seq<char>),
    Unknown(Seq<char>),
}

impl View for PandoraError {
    type V = ErrorModel;

    open spec fn view(&self) -> ErrorModel {
        match self {
            PandoraError::Config(message) => ErrorModel::Config(message@),
            PandoraError::ConfigWithSource { message, source } => ErrorModel::ConfigWithSource {
                message: message@,
                source: source@,
            },
            PandoraError::SkillNotFound { skill_name } => ErrorModel::SkillNotFound {
                skill_name: skill_name@,
            },
            PandoraError::InvalidSkillInput { skill_name, message } => ErrorModel::InvalidSkillInput {
                skill_name: skill_name@,
                message: message@,
            },
            PandoraError::SkillExecution { skill_name, message } => ErrorModel::SkillExecution {
                skill_name: skill_name@,
                message: message@,
            },
            PandoraError::Timeout { operation, timeout_ms } => ErrorModel::Timeout {
                operation: operation@,
                timeout_ms: *timeout_ms,
            },
            PandoraError::CircuitOpen { resource } => ErrorModel::CircuitOpen { resource: resource@ },
            PandoraError::Ffi(message) => ErrorModel::Ffi(message@),
            PandoraError::Unknown(message) => ErrorModel::Unknown(message@),
        }
    }
}

/// The character of the decimal digit `d`.
pub open spec fn digit_char(d: nat) -> char {
    if d == 0 {
        '0'
    } else if d == 1 {
        '1'
    } else if d == 2 {
        '2'
    } else if d == 3 {
        '3'
    } else if d == 4 {
        '4'
    } else if d == 5 {
        '5'
    } else if d == 6 {
        '6'
    } else if d == 7 {
        '7'
    } else if d == 8 {
        '8'
    } else {
        '9'
    }
}

/// The decimal numeral of `n`, without leading zeros.
pub open spec fn decimal(n: nat) -> Seq<char>
    decreases n,
{
    if n < 10 {
        seq![digit_char(n)]
    } else {
        decimal(n / 10).push(digit_char(n % 10))
    }
}

fn digit_str(d: u64) -> (text: &'static str)
    requires
        d < 10,
    ensures
        text@ == seq![digit_char(d as nat)],
{
    proof {
        reveal_strlit("0");
        reveal_strlit("1");
        reveal_strlit("2");
        reveal_strlit("3");
        reveal_strlit("4");
        reveal_strlit("5");
        reveal_strlit("6");
        reveal_strlit("7");
        reveal_strlit("8");
        reveal_strlit("9");
    }
    let text = if d == 0 {
        "0"
    } else if d == 1 {
        "1"
    } else if d == 2 {
        "2"
    } else if d == 3 {
        "3"
    } else if d == 4 {
        "4"
    } else if d == 5 {
        "5"
    } else if d == 6 {
        "6"
    } else if d == 7 {
        "7"
    } else if d == 8 {
        "8"
    } else {
        "9"
    };
    assert(text@ =~= seq![digit_char(d as nat)]);
    text
}

/// Appends the decimal numeral of `n` to `out`.
pub fn push_decimal(out: &mut String, n: u64)
    ensures
        final(out)@ == old(out)@ + decimal(n as nat),
    decreases n,
{
    if n >= 10 {
        push_decimal(out, n / 10);
    }
    out.append(digit_str(n % 10));
    assert(out@ =~= old(out)@ + decimal(n as nat));
}

impl ErrorModel {
    /// Whether another attempt may help. A missing skill, bad input, a
    /// configuration or foreign-function problem and an open circuit will
    /// not go away by trying again; a failed run, a timeout and anything
    /// unknown may.
    pub open spec fn retryable(self) -> bool {
        match self {
            ErrorModel::SkillExecution { .. } => true,
            ErrorModel::Timeout { .. } => true,
            ErrorModel::Unknown(_) => true,
            _ => false,
        }
    }

    /// The message that the error shows to a reader.
    pub open spec fn text(self) -> Seq<char> {
        match self {
            ErrorModel::Config(message) => "Configuration Error: "@ + message,
            ErrorModel::ConfigWithSource { message, source } => "Configuration Error: "@ + message
                + ": "@ + source,
            ErrorModel::SkillNotFound { skill_name } => "Skill not found: "@ + skill_name,
            ErrorModel::InvalidSkillInput { skill_name, message } => "Invalid input for skill "@
                + skill_name + ": "@ + message,
            ErrorModel::SkillExecution { skill_name, message } => "Skill Execution Error: "@
                + skill_name + " - "@ + message,
            ErrorModel::Timeout { operation, timeout_ms } => "Timeout while executing "@ + operation
                + " after "@ + decimal(timeout_ms as nat) + "ms"@,
            ErrorModel::CircuitOpen { resource } => "Circuit breaker open for "@ + resource,
            ErrorModel::Ffi(message) => "FFI Interface Error: "@ + message,
            ErrorModel::Unknown(message) => "Unknown error: "@ + message,
        }
    }

    /// The description of the cause, where the error carries one.
    pub open spec fn cause(self) -> Option<Seq<char>> {
        match self {
            ErrorModel::ConfigWithSource { source, .. } => Some(source),
            _ => None,
        }
    }
}

impl PandoraError {
    /// A configuration error with the given message.
    pub fn config(message: &str) -> (error: PandoraError)
        ensures
            error@ == ErrorModel::Config(message@),
    {
        PandoraError::Config(message.to_owned())
    }

    /// A configuration error that keeps a description of its cause.
    pub fn config_with_source(message: String, source: String) -> (error: PandoraError)
        ensures
            error@ == (ErrorModel::ConfigWithSource { message: message@, source: source@ }),
    {
        PandoraError::ConfigWithSource { message, source }
    }

    /// The error of a skill that ran and failed.
    pub fn skill_exec(skill_name: &str, message: &str) -> (error: PandoraError)
        ensures
            error@ == (ErrorModel::SkillExecution { skill_name: skill_name@, message: message@ }),
    {
        PandoraError::SkillExecution {
            skill_name: skill_name.to_owned(),
            message: message.to_owned(),
        }
    }

    /// Whether another attempt may help.
    pub fn is_retryable(&self) -> (retryable: bool)
        ensures
            retryable == self@.retryable(),
    {
        match self {
            PandoraError::SkillExecution { .. } => true,
            PandoraError::Timeout { .. } => true,
            PandoraError::Unknown(_) => true,
            _ => false,
        }
    }

    /// The description of the cause, where the error carries one.
    pub fn source(&self) -> (cause: Option<&String>)
        ensures
            match cause {
                Some(text) => self@.cause() == Some(text@),
                None => self@.cause().is_none(),
            },
    {
        match self {
            PandoraError::ConfigWithSource { source, .. } => Some(source),
            _ => None,
        }
    }

    /// A copy of the error.
    pub fn duplicate(&self) -> (copy: PandoraError)
        ensures
            copy@ == self@,
    {
        match self {
            PandoraError::Config(message) => PandoraError::Config(message.clone()),
            PandoraError::ConfigWithSource { message, source } => PandoraError::ConfigWithSource {
                message: message.clone(),
                source: source.clone(),
            },
            PandoraError::SkillNotFound { skill_name } => PandoraError::SkillNotFound {
                skill_name: skill_name.clone(),
            },
            PandoraError::InvalidSkillInput { skill_name, message } => PandoraError::InvalidSkillInput {
                skill_name: skill_name.clone(),
                message: message.clone(),
            },
            PandoraError::SkillExecution { skill_name, message } => PandoraError::SkillExecution {
                skill_name: skill_name.clone(),
                message: message.clone(),
            },
            PandoraError::Timeout { operation, timeout_ms } => PandoraError::Timeout {
                operation: operation.clone(),
                timeout_ms: *timeout_ms,
            },
            PandoraError::CircuitOpen { resource } => PandoraError::CircuitOpen {
                resource: resource.clone(),
            },
            PandoraError::Ffi(message) => PandoraError::Ffi(message.clone()),
            PandoraError::Unknown(message) => PandoraError::Unknown(message.clone()),
        }
    }

    /// The message that the error shows to a reader.
    pub fn to_string(&self) -> (text: String)
        ensures
            text@ == self@.text(),
    {
        match self {
            PandoraError::Config(message) => {
                let text = String::from_str("Configuration Error: ").concat(message.as_str());
                text
            },
            PandoraError::ConfigWithSource { message, source } => {
                let text = String::from_str("Configuration Error: ").concat(message.as_str()).concat(
                    ": ",
                ).concat(source.as_str());
                text
            },
            PandoraError::SkillNotFound { skill_name } => {
                let text = String::from_str("Skill not found: ").concat(skill_name.as_str());
                text
            },
            PandoraError::InvalidSkillInput { skill_name, message } => {
                let text = String::from_str("Invalid input for skill ").concat(
                    skill_name.as_str(),
                ).concat(": ").concat(message.as_str());
                text
            },
            PandoraError::SkillExecution { skill_name, message } => {
                let text = String::from_str("Skill Execution Error: ").concat(
                    skill_name.as_str(),
                ).concat(" - ").concat(message.as_str());
                text
            },
            PandoraError::Timeout { operation, timeout_ms } => {
                let mut text = String::from_str("Timeout while executing ").concat(
                    operation.as_str(),
                ).concat(" after ");
                push_decimal(&mut text, *timeout_ms);
                let text = text.concat("ms");
                text
            },
            PandoraError::CircuitOpen { resource } => {
                let text = String::from_str("Circuit breaker open for ").concat(resource.as_str());
                text
            },
            PandoraError::Ffi(message) => {
                let text = String::from_str("FFI Interface Error: ").concat(message.as_str());
                text
            },
            PandoraError::Unknown(message) => {
                let text = String::from_str("Unknown error: ").concat(message.as_str());
                text
            },
        }
    }
}


/// Adds context to the error of a result.
pub trait ErrorContext<T> {
    /// Turns the error, if any, into a configuration error that starts
    /// with `context` and keeps a description of the error as its cause.
    fn context<C: Into<String>>(self, context: C) -> Result<T, PandoraError>;

    /// As `context`, with the context computed only where there is an
    /// error.
    fn with_context<C: Into<String>, F: FnOnce() -> C>(self, f: F) -> Result<T, PandoraError>
        requires
            f.requires(()),
    ;
}

impl<T, E: core::fmt::Display> ErrorContext<T> for Result<T, E> {
    fn context<C: Into<String>>(self, context: C) -> (outcome: Result<T, PandoraError>)
        ensures
            match (self, outcome) {
                (Ok(value), Ok(kept)) => kept == value,
                (Err(cause), Err(PandoraError::ConfigWithSource { message, source })) => {
                    &&& C::obeys_into_spec() ==> message == context.into_spec()
                    &&& vstd::string::to_string_from_display_ensures::<E>(&cause, source)
                },
                _ => false,
            },
    {
        match self {
            Ok(value) => Ok(value),
            Err(cause) => {
                let source = cause.to_string();
                let message: String = context.into();
                Err(PandoraError::ConfigWithSource { message, source })
            },
        }
    }

    fn with_context<C: Into<String>, F: FnOnce() -> C>(self, f: F) -> (outcome: Result<
        T,
        PandoraError,
    >)
        ensures
            match (self, outcome) {
                (Ok(value), Ok(kept)) => kept == value,
                (Err(cause), Err(PandoraError::ConfigWithSource { message, source })) => {
                    &&& exists|context: C|
                        #[trigger] f.ensures((), context) && (C::obeys_into_spec() ==> message
                            == context.into_spec())
                    &&& vstd::string::to_string_from_display_ensures::<E>(&cause, source)
                },
                _ => false,
            },
    {
        match self {
            Ok(value) => Ok(value),
            Err(cause) => {
                let source = cause.to_string();
                let context = f();
                let ghost made = context;
                let message: String = context.into();
                assert(f.ensures((), made) && (C::obeys_into_spec() ==> message
                    == made.into_spec()));
                Err(PandoraError::ConfigWithSource { message, source })
            },
        }
    }
}

} // verus!
