//! Extraction of a parameter payload from a sentence via the provider, and
//! validation of the payload's shape.

use vstd::prelude::*;
use crate::jsonval::{JsonNode, parse_json, lookup_field, get_field};
use crate::providers::{ModelProvider, ModelConfig};
use crate::prompts::PromptManager;
use crate::errors::AnalysisError;

verus! {

/// The shape the general extraction must return: a JSON object whose
/// `endpoints` key holds a non-empty array.
pub open spec fn valid_payload(n: JsonNode) -> bool {
    match n {
        JsonNode::Obj(fs, _) => match lookup_field(fs@, "endpoints"@) {
            Some(e) => match e {
                JsonNode::Arr(elems, _) => elems@.len() >= 1,
                _ => false,
            },
            None => false,
        },
        _ => false,
    }
}

/// Checks a parsed payload for the expected shape.
pub fn validate_payload(n: &JsonNode) -> (r: bool)
    ensures
        r == valid_payload(*n),
{
    match n {
        JsonNode::Obj(fs, _) => match get_field(fs, "endpoints") {
            Some(e) => match e {
                JsonNode::Arr(elems, _) => elems.len() >= 1,
                _ => false,
            },
            None => false,
        },
        _ => false,
    }
}

/// Asks the provider to turn the sentence into a parameter payload, and
/// validates the result: whatever the provider answers, a payload is
/// returned only when it parses as JSON and has the expected shape; every
/// other outcome is the corresponding error.
pub fn sentence_to_json<P: ModelProvider>(
    sentence: &str,
    provider: &P,
    prompts: &PromptManager,
    model: &ModelConfig,
) -> (r: Result<JsonNode, AnalysisError>)
    ensures
        r matches Ok(n) ==> valid_payload(n),
        r matches Err(e) ==> (e is Provider || e is InvalidJsonStructure),
{
    let full_prompt = prompts.format_sentence_to_json(sentence, Some("v1"));
    let result = match provider.generate(full_prompt.as_str(), model) {
        Ok(g) => g,
        Err(e) => {
            return Err(AnalysisError::Provider(e));
        },
    };
    let parsed = match parse_json(result.content.as_str()) {
        Some(n) => n,
        None => {
            return Err(AnalysisError::InvalidJsonStructure);
        },
    };
    if validate_payload(&parsed) {
        Ok(parsed)
    } else {
        Err(AnalysisError::InvalidJsonStructure)
    }
}

} // verus!
