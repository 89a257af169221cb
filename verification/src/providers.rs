//! The model-provider capability: one `generate` operation over a configured
//! model, with token accounting.  The HTTP transports implementing it live
//! outside the library.

use vstd::prelude::*;

verus! {

/// Token counts for one generation, and whether they were estimated rather
/// than reported by the provider.
#[derive(Debug, Clone, Copy)]
pub struct TokenUsage {
    pub input_tokens: u32,
    pub output_tokens: u32,
    pub total_tokens: u32,
    pub estimated: bool,
}

/// The text a provider generated, with its token usage.
#[derive(Debug)]
pub struct GenerationResult {
    pub content: String,
    pub usage: TokenUsage,
}

/// How a provider is constructed: enabled, with its credential.
#[derive(Debug, Clone)]
pub struct ProviderConfig {
    pub enabled: bool,
    pub api_key: Option<String>,
}

/// The generation configuration for one pipeline use: the model name per
/// provider, the sampling temperature in thousandths, and the token cap.
#[derive(Debug, Clone)]
pub struct ModelConfig {
    pub cohere: String,
    pub anthropic: String,
    pub deepseek: String,
    pub temperature_milli: u32,
    pub max_tokens: u32,
}

/// The per-pipeline-use model configurations.
#[derive(Debug, Clone)]
pub struct ModelsConfig {
    pub default: ModelConfig,
    pub sentence_to_json: ModelConfig,
    pub find_endpoint: ModelConfig,
    pub semantic_match: ModelConfig,
    pub intent_classification: ModelConfig,
}

/// What can go wrong when asking a provider to generate.
#[derive(Debug, Clone, PartialEq, Eq, Structural)]
pub enum ProviderErrorKind {
    Unauthorized,
    RateLimited,
    BadResponse,
    EmptyContent,
}

#[derive(Debug, Clone)]
pub struct ProviderError {
    pub kind: ProviderErrorKind,
    pub detail: String,
}

/// The capability of generating text from a prompt.  Implementations are
/// supplied by the caller (an HTTP transport, or a scripted provider in
/// tests); nothing is assumed of what they return.
pub trait ModelProvider {
    /// Generates a completion for the prompt under the given configuration.
    fn generate(&self, prompt: &str, model: &ModelConfig) -> Result<GenerationResult, ProviderError>;

    /// The provider's model tag.
    fn get_model_name(&self) -> String;

    /// The provider's token estimate for an input and output text pair.
    fn estimate_usage(&self, input: &str, output: &str) -> TokenUsage;
}

/// Prefers provider-reported token counts, falling back to an estimate when
/// the provider reported nothing or zero.
pub fn decide_usage(reported: Option<TokenUsage>, fallback: TokenUsage) -> (r: TokenUsage)
    ensures
        match reported {
            Some(u) => if u.total_tokens > 0 {
                r == (TokenUsage {
                    input_tokens: u.input_tokens,
                    output_tokens: u.output_tokens,
                    total_tokens: u.total_tokens,
                    estimated: false,
                })
            } else {
                r == (TokenUsage {
                    input_tokens: fallback.input_tokens,
                    output_tokens: fallback.output_tokens,
                    total_tokens: fallback.total_tokens,
                    estimated: true,
                })
            },
            None => r == (TokenUsage {
                input_tokens: fallback.input_tokens,
                output_tokens: fallback.output_tokens,
                total_tokens: fallback.total_tokens,
                estimated: true,
            }),
        },
{
    match reported {
        Some(u) => {
            if u.total_tokens > 0 {
                TokenUsage {
                    input_tokens: u.input_tokens,
                    output_tokens: u.output_tokens,
                    total_tokens: u.total_tokens,
                    estimated: false,
                }
            } else {
                TokenUsage {
                    input_tokens: fallback.input_tokens,
                    output_tokens: fallback.output_tokens,
                    total_tokens: fallback.total_tokens,
                    estimated: true,
                }
            }
        },
        None => TokenUsage {
            input_tokens: fallback.input_tokens,
            output_tokens: fallback.output_tokens,
            total_tokens: fallback.total_tokens,
            estimated: true,
        },
    }
}

/// Finishes a generation from a decoded transport response: an empty
/// trimmed body is a hard error, and otherwise the reported token counts
/// are preferred over the estimate.
pub fn finish_generation(
    content: String,
    reported: Option<TokenUsage>,
    fallback: TokenUsage,
) -> (r: Result<GenerationResult, ProviderError>)
    ensures
        r is Ok <==> !crate::text::blank(content@),
        r matches Ok(g) ==> g.content@ == content@,
        r matches Err(e) ==> e.kind == ProviderErrorKind::EmptyContent,
{
    if crate::text::is_blank(content.as_str()) {
        Err(
            ProviderError {
                kind: ProviderErrorKind::EmptyContent,
                detail: String::from_str("empty response"),
            },
        )
    } else {
        let usage = decide_usage(reported, fallback);
        Ok(GenerationResult { content, usage })
    }
}

/// The credential holder for the Anthropic transport.
#[derive(Debug, Clone)]
pub struct AnthropicProvider {
    pub api_key: String,
}

impl AnthropicProvider {
    /// Builds the provider from its configuration; the credential must be
    /// present.
    pub fn new(config: &ProviderConfig) -> (r: AnthropicProvider)
        requires
            config.api_key is Some,
        ensures
            r.api_key@ == config.api_key->0@,
    {
        match &config.api_key {
            Some(k) => AnthropicProvider { api_key: crate::endpoint_client::string_clone(k) },
            None => AnthropicProvider { api_key: String::new() },
        }
    }

    pub fn get_model_name(&self) -> (r: &'static str)
        ensures
            r@ == "anthropic"@,
    {
        "anthropic"
    }
}

/// The credential holder for the Cohere transport.
#[derive(Debug, Clone)]
pub struct CohereProvider {
    pub api_key: String,
}

impl CohereProvider {
    /// Builds the provider from its configuration; the credential must be
    /// present.
    pub fn new(config: &ProviderConfig) -> (r: CohereProvider)
        requires
            config.api_key is Some,
        ensures
            r.api_key@ == config.api_key->0@,
    {
        match &config.api_key {
            Some(k) => CohereProvider { api_key: crate::endpoint_client::string_clone(k) },
            None => CohereProvider { api_key: String::new() },
        }
    }

    pub fn get_model_name(&self) -> (r: &'static str)
        ensures
            r@ == "cohere"@,
    {
        "cohere"
    }
}

/// The credential holder for the DeepSeek transport.
#[derive(Debug, Clone)]
pub struct DeepSeekProvider {
    pub api_key: String,
}

impl DeepSeekProvider {
    /// Builds the provider from its configuration; the credential must be
    /// present.
    pub fn new(config: &ProviderConfig) -> (r: DeepSeekProvider)
        requires
            config.api_key is Some,
        ensures
            r.api_key@ == config.api_key->0@,
    {
        match &config.api_key {
            Some(k) => DeepSeekProvider { api_key: crate::endpoint_client::string_clone(k) },
            None => DeepSeekProvider { api_key: String::new() },
        }
    }

    pub fn get_model_name(&self) -> (r: &'static str)
        ensures
            r@ == "deepseek"@,
    {
        "deepseek"
    }
}

} // verus!
