//! The services that language models are reached through.
use vstd::prelude::*;

use crate::text;

use super::error::AgentError;

pub mod anthropic;
pub mod openai;

use anthropic::AnthropicProvider;
use openai::OpenAiProvider;

verus! {

/// What a provider can do.
#[derive(Clone, Copy, Debug, PartialEq, Eq, Structural)]
pub struct ProviderCapabilities {
    pub thinking: bool,
    pub vision: bool,
    pub tool_calling: bool,
    pub streaming: bool,
}

impl Default for ProviderCapabilities {
    fn default() -> (r: Self)
        ensures
            r == (ProviderCapabilities {
                thinking: false,
                vision: false,
                tool_calling: false,
                streaming: false,
            }),
    {
        ProviderCapabilities { thinking: false, vision: false, tool_calling: false, streaming: false }
    }
}

/// A provider of one of the kinds that there are.
pub enum Provider {
    Anthropic(AnthropicProvider),
    OpenAi(OpenAiProvider),
}

impl Provider {
    pub open spec fn label(self) -> Seq<char> {
        match self {
            Provider::Anthropic(_) => "anthropic"@,
            Provider::OpenAi(_) => "openai_compatible"@,
        }
    }

    pub fn name(&self) -> (r: &'static str)
        ensures
            r@ == self.label(),
    {
        match self {
            Provider::Anthropic(p) => p.name(),
            Provider::OpenAi(p) => p.name(),
        }
    }

    pub fn capabilities(&self) -> (r: ProviderCapabilities)
        ensures
            r == (ProviderCapabilities {
                thinking: self is Anthropic,
                vision: true,
                tool_calling: true,
                streaming: self is OpenAi,
            }),
    {
        match self {
            Provider::Anthropic(p) => p.capabilities(),
            Provider::OpenAi(p) => p.capabilities(),
        }
    }
}

/// The types of provider that speak the OpenAI interface.
pub open spec fn speaks_openai(provider_type: Seq<char>) -> bool {
    ||| provider_type == "openai_compatible"@
    ||| provider_type == "deepseek"@
    ||| provider_type == "ollama"@
    ||| provider_type == "groq"@
}

/// Makes a provider of the type that a setting names.
pub fn create_provider(provider_type: &str, base_url: &str, api_key: &str, model: &str) -> (r:
    Result<Provider, AgentError>)
    ensures
        match r {
            Ok(Provider::Anthropic(p)) => provider_type@ == "anthropic"@ && p.is_for(
                base_url@,
                api_key@,
                model@,
            ),
            Ok(Provider::OpenAi(p)) => provider_type@ != "anthropic"@ && speaks_openai(
                provider_type@,
            ) && p.is_for(base_url@, api_key@, model@),
            Err(e) => provider_type@ != "anthropic"@ && !speaks_openai(provider_type@) && (
            e matches AgentError::Provider(m) && m@ == "Unknown provider type: "@ + provider_type@),
        },
{
    if text::str_eq(provider_type, "anthropic") {
        Ok(Provider::Anthropic(AnthropicProvider::new(base_url, api_key, model)))
    } else if text::str_eq(provider_type, "openai_compatible") || text::str_eq(
        provider_type,
        "deepseek",
    ) || text::str_eq(provider_type, "ollama") || text::str_eq(provider_type, "groq") {
        Ok(Provider::OpenAi(OpenAiProvider::new(base_url, api_key, model)))
    } else {
        Err(AgentError::Provider(text::concat2("Unknown provider type: ", provider_type)))
    }
}

/// The error for a response that reports a failure.
pub fn api_error(status: &str, detail: &str) -> (r: AgentError)
    ensures
        r matches AgentError::Provider(m) && m@ == "API error ("@ + status@ + "): "@ + detail@,
{
    let head = text::concat3("API error (", status, "): ");
    AgentError::Provider(text::concat2(head.as_str(), detail))
}

/// The error for a request that got no response.
pub fn request_error(cause: &str) -> (r: AgentError)
    ensures
        r matches AgentError::Provider(m) && m@ == "Request failed: "@ + cause@,
{
    AgentError::Provider(text::concat2("Request failed: ", cause))
}

/// The providers that speak the OpenAI interface are not that of Anthropic, and a provider is
/// called by the type that makes it.
pub proof fn law_provider_types_are_told_apart(p: Provider)
    ensures
        !speaks_openai("anthropic"@),
        speaks_openai("openai_compatible"@),
        speaks_openai("deepseek"@),
        speaks_openai("ollama"@),
        speaks_openai("groq"@),
        p is Anthropic ==> p.label() == "anthropic"@,
        p is OpenAi ==> speaks_openai(p.label()),
{
    reveal_strlit("anthropic");
    reveal_strlit("openai_compatible");
    reveal_strlit("deepseek");
    reveal_strlit("ollama");
    reveal_strlit("groq");
    assert("anthropic"@.len() == 9);
    assert("openai_compatible"@.len() == 17);
    assert("deepseek"@.len() == 8);
    assert("ollama"@.len() == 6);
    assert("groq"@.len() == 4);
}

} // verus!
