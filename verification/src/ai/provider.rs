//! Providers of completions.

use vstd::prelude::*;

use crate::ai::error::{config_error, misconfigured, AiError};
use crate::ai::route::{AiTaskType, ApiProtocol};
use crate::score::Score;
use crate::text::{
    byte_len, is_blank, join2, str_byte_len, str_starts_with, trim_end_char, trim_end_of, trimmed,
};

verus! {

/// What a provider can do.
#[derive(Debug)]
pub struct ProviderCapabilities {
    pub name: String,
    pub structured_output: bool,
    pub embeddings: bool,
    pub max_context_tokens: u32,
    pub embedding_dimensions: Option<usize>,
}

impl ProviderCapabilities {
    /// Completions only, with this much context.
    pub open spec fn completes(self, name: Seq<char>, structured: bool, context: int) -> bool {
        &&& self.name@ == name
        &&& self.structured_output == structured
        &&& !self.embeddings
        &&& self.max_context_tokens == context
        &&& self.embedding_dimensions is None
    }
}

/// A request for an answer in a given shape. The schema is JSON text.
#[derive(Debug)]
pub struct StructuredRequest {
    pub task: AiTaskType,
    pub system_prompt: String,
    pub data_prompt: String,
    pub json_schema_name: String,
    pub json_schema: String,
    pub max_output_tokens: u32,
    pub temperature: Score,
    pub model: Option<String>,
    pub protocol: Option<ApiProtocol>,
}

/// An answer. The content is JSON text.
#[derive(Debug)]
pub struct StructuredResponse {
    pub provider: String,
    pub model: String,
    pub content: String,
    pub usage_input: u32,
    pub usage_output: u32,
    pub latency_ms: u64,
}

/// A provider of completions that answers at once.
pub trait AiProvider {
    fn name(&self) -> &str;

    fn capabilities(&self) -> ProviderCapabilities;

    fn is_available(&self) -> bool;

    fn structured_completion(&self, request: StructuredRequest) -> Result<
        StructuredResponse,
        AiError,
    >;
}

// ---------------------------------------------------------------------------
// Always off
// ---------------------------------------------------------------------------

/// The provider of a deployment without a key.
#[derive(Debug, Clone, Copy, PartialEq, Eq, Structural)]
pub struct DisabledProvider;

impl Default for DisabledProvider {
    fn default() -> (r: DisabledProvider)
        ensures
            r == DisabledProvider,
    {
        DisabledProvider
    }
}

impl AiProvider for DisabledProvider {
    fn name(&self) -> (r: &str)
        ensures
            r@ == "disabled"@,
    {
        "disabled"
    }

    fn capabilities(&self) -> (r: ProviderCapabilities)
        ensures
            r.completes("disabled"@, false, 0),
    {
        ProviderCapabilities {
            name: "disabled".to_owned(),
            structured_output: false,
            embeddings: false,
            max_context_tokens: 0,
            embedding_dimensions: None,
        }
    }

    fn is_available(&self) -> (r: bool)
        ensures
            !r,
    {
        false
    }

    fn structured_completion(&self, request: StructuredRequest) -> (r: Result<
        StructuredResponse,
        AiError,
    >)
        ensures
            r matches Err(e) && e is Disabled,
    {
        Err(AiError::Disabled)
    }
}

// ---------------------------------------------------------------------------
// Fixed answers
// ---------------------------------------------------------------------------

/// A provider that always gives the same answer.
#[derive(Debug)]
pub struct FakeProvider {
    /// JSON text.
    pub response: String,
    pub fail_with: Option<AiError>,
    pub available: bool,
}

impl Default for FakeProvider {
    fn default() -> (r: FakeProvider)
        ensures
            r.response@ == "{\"recommendations\":[],\"summary\":\"fake\"}"@,
            r.fail_with is None,
            r.available,
    {
        FakeProvider {
            response: "{\"recommendations\":[],\"summary\":\"fake\"}".to_owned(),
            fail_with: None,
            available: true,
        }
    }
}

impl AiProvider for FakeProvider {
    fn name(&self) -> (r: &str)
        ensures
            r@ == "fake"@,
    {
        "fake"
    }

    fn capabilities(&self) -> (r: ProviderCapabilities)
        ensures
            r.completes("fake"@, true, 8_192),
    {
        ProviderCapabilities {
            name: "fake".to_owned(),
            structured_output: true,
            embeddings: false,
            max_context_tokens: 8_192,
            embedding_dimensions: None,
        }
    }

    fn is_available(&self) -> (r: bool)
        ensures
            r == self.available,
    {
        self.available
    }

    fn structured_completion(&self, request: StructuredRequest) -> (r: Result<
        StructuredResponse,
        AiError,
    >)
        ensures
            self.fail_with matches Some(error) ==> r == Err::<StructuredResponse, AiError>(error),
            self.fail_with is None && !self.available ==> (r matches Err(e) && e is Disabled),
            self.fail_with is None && self.available ==> (r matches Ok(response)
                && response.provider@ == "fake"@ && response.model@ == "fake-model"@
                && response.content@ == self.response@ && response.usage_input == (byte_len(
                request.system_prompt@,
            ) as usize) as u32 && response.usage_output == 32 && response.latency_ms == 1),
    {
        match &self.fail_with {
            Some(error) => return Err(error.clone()),
            None => {},
        }
        if !self.available {
            return Err(AiError::Disabled);
        }
        let length: usize = str_byte_len(request.system_prompt.as_str());
        Ok(
            StructuredResponse {
                provider: "fake".to_owned(),
                model: "fake-model".to_owned(),
                content: self.response.clone(),
                usage_input: length as u32,
                usage_output: 32,
                latency_ms: 1,
            },
        )
    }
}

// ---------------------------------------------------------------------------
// Settings of a compatible endpoint
// ---------------------------------------------------------------------------

/// An endpoint for completions.
#[derive(Debug)]
pub struct OpenAiCompatProvider {
    pub name: String,
    pub base_url: String,
    pub api_key: String,
    pub model: String,
    pub timeout_ms: u64,
}

/// Encrypted, or on this machine.
pub open spec fn allowed_base(url: Seq<char>) -> bool {
    "https://"@.is_prefix_of(url) || "http://127.0.0.1"@.is_prefix_of(url)
        || "http://localhost"@.is_prefix_of(url)
}

pub fn is_allowed_base(url: &str) -> (r: bool)
    ensures
        r == allowed_base(url@),
{
    str_starts_with(url, "https://") || str_starts_with(url, "http://127.0.0.1") || str_starts_with(
        url,
        "http://localhost",
    )
}

impl OpenAiCompatProvider {
    /// Settings for an endpoint, which loses its trailing slashes.
    pub fn new(base_url: &str, api_key: &str, model: &str, timeout_ms: u64) -> (r: Result<
        OpenAiCompatProvider,
        AiError,
    >)
        ensures
            ({
                let base = trim_end_char(base_url@, '/');
                if base.len() == 0 {
                    misconfigured(r, "AI base URL is empty"@)
                } else if !allowed_base(base) {
                    misconfigured(
                        r,
                        "AI base URL must be https:// or localhost/127.0.0.1 for MVP"@,
                    )
                } else if trimmed(api_key@).len() == 0 {
                    misconfigured(r, "AI API key is empty"@)
                } else {
                    r matches Ok(p) && p.name@ == "openai_compat"@ && p.base_url@ == base
                        && p.api_key@ == api_key@ && p.model@ == model@ && p.timeout_ms
                        == timeout_ms
                }
            }),
    {
        let base = trim_end_of(base_url, '/');
        if base.as_str().is_empty() {
            return Err(config_error("AI base URL is empty"));
        }
        if !is_allowed_base(base.as_str()) {
            return Err(
                config_error("AI base URL must be https:// or localhost/127.0.0.1 for MVP"),
            );
        }
        if is_blank(api_key) {
            return Err(config_error("AI API key is empty"));
        }
        Ok(
            OpenAiCompatProvider {
                name: "openai_compat".to_owned(),
                base_url: base,
                api_key: api_key.to_owned(),
                model: model.to_owned(),
                timeout_ms,
            },
        )
    }

    pub fn capabilities(&self) -> (r: ProviderCapabilities)
        ensures
            r.completes(self.name@, true, 128_000),
    {
        ProviderCapabilities {
            name: self.name.clone(),
            structured_output: true,
            embeddings: false,
            max_context_tokens: 128_000,
            embedding_dimensions: None,
        }
    }

    /// Where completions are asked for.
    pub fn completions_url(&self) -> (r: String)
        ensures
            r@ == self.base_url@ + "/chat/completions"@,
    {
        join2(self.base_url.as_str(), "/chat/completions")
    }
}

}
