//! Conversational answers to general questions.

use vstd::prelude::*;
use crate::providers::{ModelProvider, ModelConfig, GenerationResult, ProviderError};

verus! {

/// Asks the provider to answer a general question conversationally.
pub fn handle_general_question<P: ModelProvider>(
    question: &str,
    provider: &P,
    model: &ModelConfig,
) -> (r: Result<GenerationResult, ProviderError>) {
    let mut prompt = String::from_str(
        "You are a helpful assistant. Answer this question naturally and conversationally: ",
    );
    prompt.append(question);
    provider.generate(prompt.as_str(), model)
}

} // verus!
