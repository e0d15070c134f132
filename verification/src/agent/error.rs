//! What can go wrong while the agent works.
use vstd::prelude::*;

use crate::{json, text};

verus! {

pub enum AgentError {
    Provider(String),
    Tool(String),
    Cancelled,
    MaxIterationsReached(u32),
    Context(String),
    /// The text of an error of the JSON library.
    Serialization(String),
    /// The text of an error of the HTTP client.
    Http(String),
    UnknownTool(String),
    InvalidToolArguments(String),
}

impl AgentError {
    pub open spec fn text(self) -> Seq<char> {
        match self {
            AgentError::Provider(m) => "Provider error: "@ + m@,
            AgentError::Tool(m) => "Tool error: "@ + m@,
            AgentError::Cancelled => "Cancelled"@,
            AgentError::MaxIterationsReached(n) => "Max iterations reached ("@ + text::decimal(
                n as nat,
            ) + ")"@,
            AgentError::Context(m) => "Context error: "@ + m@,
            AgentError::Serialization(m) => "Serialization error: "@ + m@,
            AgentError::Http(m) => "HTTP error: "@ + m@,
            AgentError::UnknownTool(m) => "Unknown tool: "@ + m@,
            AgentError::InvalidToolArguments(m) => "Invalid tool arguments: "@ + m@,
        }
    }

    /// The text of the error.
    pub fn message(&self) -> (r: String)
        ensures
            r@ == self.text(),
    {
        match self {
            AgentError::Provider(m) => text::concat2("Provider error: ", m.as_str()),
            AgentError::Tool(m) => text::concat2("Tool error: ", m.as_str()),
            AgentError::Cancelled => "Cancelled".to_string(),
            AgentError::MaxIterationsReached(n) => {
                let number = text::to_decimal(*n as u64);
                text::concat3("Max iterations reached (", number.as_str(), ")")
            },
            AgentError::Context(m) => text::concat2("Context error: ", m.as_str()),
            AgentError::Serialization(m) => text::concat2("Serialization error: ", m.as_str()),
            AgentError::Http(m) => text::concat2("HTTP error: ", m.as_str()),
            AgentError::UnknownTool(m) => text::concat2("Unknown tool: ", m.as_str()),
            AgentError::InvalidToolArguments(m) => text::concat2(
                "Invalid tool arguments: ",
                m.as_str(),
            ),
        }
    }

    /// An error of the JSON library as one of the agent.
    pub fn from_json(e: serde_json::Error) -> (r: AgentError)
        ensures
            r matches AgentError::Serialization(m) && json::is_error_text(e, m@),
    {
        AgentError::Serialization(json::error_message(&e))
    }
}

/// What went wrong stands in the text of the error.
pub proof fn law_errors_tell_what_went_wrong(e: AgentError)
    ensures
        e matches AgentError::Provider(m) ==> m@.is_suffix_of(e.text()),
        e matches AgentError::Tool(m) ==> m@.is_suffix_of(e.text()),
        e matches AgentError::Context(m) ==> m@.is_suffix_of(e.text()),
        e matches AgentError::Serialization(m) ==> m@.is_suffix_of(e.text()),
        e matches AgentError::Http(m) ==> m@.is_suffix_of(e.text()),
        e matches AgentError::UnknownTool(m) ==> m@.is_suffix_of(e.text()),
        e matches AgentError::InvalidToolArguments(m) ==> m@.is_suffix_of(e.text()),
        e matches AgentError::MaxIterationsReached(n) ==> text::contains(
            e.text(),
            text::decimal(n as nat),
        ),
{
    let all = e.text();
    match e {
        AgentError::Provider(m) | AgentError::Tool(m) | AgentError::Context(m)
        | AgentError::Serialization(m) | AgentError::Http(m) | AgentError::UnknownTool(m)
        | AgentError::InvalidToolArguments(m) => {
            assert(all.subrange(all.len() - m@.len(), all.len() as int) =~= m@);
        },
        AgentError::MaxIterationsReached(n) => {
            let digits = text::decimal(n as nat);
            text::lemma_contains_self(digits);
            text::lemma_contains_within("Max iterations reached ("@, digits, ")"@, digits);
        },
        AgentError::Cancelled => {},
    }
}

} // verus!
