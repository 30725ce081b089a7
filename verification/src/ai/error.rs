//! The ways in which a model call can fail.

use vstd::prelude::*;

verus! {

#[derive(Debug, PartialEq, Eq)]
pub enum AiError {
    Disabled,
    Config(String),
    InvalidOutput(String),
    CircuitOpen,
    RateLimited,
    Timeout,
    Transport(String),
    ProviderRejected(String),
    BudgetExhausted,
}

impl Clone for AiError {
    fn clone(&self) -> (r: AiError)
        ensures
            r == *self,
    {
        match self {
            AiError::Disabled => AiError::Disabled,
            AiError::Config(text) => AiError::Config(text.clone()),
            AiError::InvalidOutput(text) => AiError::InvalidOutput(text.clone()),
            AiError::CircuitOpen => AiError::CircuitOpen,
            AiError::RateLimited => AiError::RateLimited,
            AiError::Timeout => AiError::Timeout,
            AiError::Transport(text) => AiError::Transport(text.clone()),
            AiError::ProviderRejected(text) => AiError::ProviderRejected(text.clone()),
            AiError::BudgetExhausted => AiError::BudgetExhausted,
        }
    }
}

/// The output was refused, for this reason.
pub open spec fn invalid<T>(r: Result<T, AiError>, reason: Seq<char>) -> bool {
    r matches Err(AiError::InvalidOutput(text)) && text@ == reason
}

/// The configuration was refused, for this reason.
pub open spec fn misconfigured<T>(r: Result<T, AiError>, reason: Seq<char>) -> bool {
    r matches Err(AiError::Config(text)) && text@ == reason
}

pub fn invalid_output(reason: &str) -> (r: AiError)
    ensures
        r matches AiError::InvalidOutput(text) && text@ == reason@,
{
    AiError::InvalidOutput(reason.to_owned())
}

pub fn config_error(reason: &str) -> (r: AiError)
    ensures
        r matches AiError::Config(text) && text@ == reason@,
{
    AiError::Config(reason.to_owned())
}

/// What a client is told: the detail of an output that was refused, and otherwise the
/// general reason that goes with the kind of failure.
pub open spec fn failure_reason(error: AiError, general: Seq<char>) -> Seq<char> {
    match error {
        AiError::InvalidOutput(detail) => "AI output failed validation: "@ + detail@
            + "; deterministic recommendations are shown"@,
        _ => general,
    }
}

/// `general` is the reason that goes with the kind of failure.
pub fn safe_ai_failure_reason(error: &AiError, general: &str) -> (r: String)
    ensures
        r@ == failure_reason(*error, general@),
{
    match error {
        AiError::InvalidOutput(detail) => crate::text::join3(
            "AI output failed validation: ",
            detail.as_str(),
            "; deterministic recommendations are shown",
        ),
        _ => general.to_owned(),
    }
}

}
