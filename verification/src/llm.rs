//! What language-model providers answer, and how a router falls back from
//! one provider to the next.
use vstd::prelude::*;

use crate::text::owned;
use crate::SynapseError;

verus! {

/// Who wrote a chat message.
#[derive(Debug, Clone, Copy, PartialEq, Eq, Structural)]
pub enum Role {
    System,
    User,
    Assistant,
}

/// A provider's completion of a prompt.
pub struct CompletionResponse {
    pub content: String,
    pub model: String,
    pub usage: Usage,
    pub finish_reason: FinishReason,
}

/// The tokens a completion used.
pub struct Usage {
    pub prompt_tokens: u32,
    pub completion_tokens: u32,
    pub total_tokens: u32,
}

impl Default for Usage {
    /// No tokens.
    fn default() -> (r: Usage)
        ensures
            r.prompt_tokens == 0,
            r.completion_tokens == 0,
            r.total_tokens == 0,
    {
        Usage { prompt_tokens: 0, completion_tokens: 0, total_tokens: 0 }
    }
}

/// Why a completion ended.
#[derive(Debug, Clone, Copy, PartialEq, Eq, Structural)]
pub enum FinishReason {
    Stop,
    Length,
    ContentFilter,
    Error,
}

/// A completion delivered piece by piece; it carries nothing yet.
pub struct CompletionStream {}


/// What a router does next.
pub enum RouterAction {
    /// Ask the provider at this position.
    Call(usize),
    /// Answer with this result.
    Finish(Result<CompletionResponse, SynapseError>),
}

/// The next step of a router with `n` providers, asked in order, given the
/// outcome of the last call (the provider's position and its result), if any.
/// Without providers it fails with `No providers configured`; it asks the
/// first provider first; a success is the answer; after a failure it asks the
/// next provider, and when none is left the last failure is the answer.
pub fn router_step(n: usize, last: Option<(usize, Result<CompletionResponse, SynapseError>)>) -> (a: RouterAction)
    requires
        last matches Some((i, _)) ==> i < n,
    ensures
        n == 0 ==> (a matches RouterAction::Finish(Err(SynapseError::Llm(m))) && m@ == "No providers configured"@),
        n > 0 && last is None ==> a == RouterAction::Call(0),
        last matches Some((_, Ok(resp))) ==> a == RouterAction::Finish(Ok(resp)),
        last matches Some((i, Err(e))) ==> if i + 1 < n {
            a == RouterAction::Call((i + 1) as usize)
        } else {
            a == RouterAction::Finish(Err(e))
        },
{
    if n == 0 {
        return RouterAction::Finish(Err(SynapseError::Llm(owned("No providers configured"))));
    }
    match last {
        None => RouterAction::Call(0),
        Some((_, Ok(resp))) => RouterAction::Finish(Ok(resp)),
        Some((i, Err(e))) => if i + 1 < n {
            RouterAction::Call(i + 1)
        } else {
            RouterAction::Finish(Err(e))
        },
    }
}

} // verus!
