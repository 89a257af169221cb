//! Extraction of parameter values from a follow-up message: only names the
//! endpoint declares are accepted, and only non-blank values count.

use vstd::prelude::*;
use crate::text::{blank, is_blank, trim, trim_spec, str_eq, is_space_char};
use crate::models::{EndpointParameter, has_param_name};
use crate::progressive_matching::{ParameterValue, ParameterValueView};
use crate::providers::{ModelProvider, ModelConfig};
use crate::prompts::PromptManager;
use crate::jsonval::{JsonNode, parse_json};
use crate::errors::AnalysisError;
use crate::endpoint_client::string_clone;

verus! {

fn param_name_known(endpoint_parameters: &Vec<EndpointParameter>, nm: &String) -> (r: bool)
    ensures
        r == has_param_name(endpoint_parameters@, nm@),
{
    let n = endpoint_parameters.len();
    let mut i: usize = 0;
    while i < n
        invariant
            n == endpoint_parameters@.len(),
            0 <= i <= n,
            forall|j: int| 0 <= j < i ==> endpoint_parameters@[j].name@ != nm@,
        decreases n - i,
    {
        if str_eq(endpoint_parameters[i].name.as_str(), nm.as_str()) {
            return true;
        }
        i = i + 1;
    }
    false
}

/// A mapping entry qualifies when its value is a non-blank string and its
/// key names a declared parameter.
pub open spec fn followup_entry_accepted(
    field: (String, JsonNode),
    eps: Seq<EndpointParameter>,
) -> bool {
    match field.1 {
        JsonNode::Text(s) => !blank(s@) && has_param_name(eps, field.0@),
        _ => false,
    }
}

/// The accepted value for one mapping entry: the key, the trimmed text, and
/// a fixed description naming the key.
pub open spec fn followup_entry_value(field: (String, JsonNode)) -> ParameterValueView {
    ParameterValueView {
        name: field.0@,
        value: match field.1 {
            JsonNode::Text(s) => trim_spec(s@),
            _ => Seq::<char>::empty(),
        },
        description: "User provided value for "@ + field.0@,
    }
}

/// The values a follow-up mapping yields: one entry per qualifying field of
/// the object, in document order; every other field is dropped.
pub open spec fn followup_values(
    fields: Seq<(String, JsonNode)>,
    eps: Seq<EndpointParameter>,
) -> Seq<ParameterValueView>
    decreases fields.len(),
{
    if fields.len() == 0 {
        Seq::<ParameterValueView>::empty()
    } else {
        let init = followup_values(fields.drop_last(), eps);
        if followup_entry_accepted(fields.last(), eps) {
            init.push(followup_entry_value(fields.last()))
        } else {
            init
        }
    }
}

/// Filters a follow-up mapping against the declared parameters: exactly the
/// string-valued fields that are non-blank and name a declared parameter
/// survive, in order, each with its value trimmed and a description naming
/// the key; and every surviving value is non-blank.
pub fn followup_parameters_from_fields(
    fields: &Vec<(String, JsonNode)>,
    endpoint_parameters: &Vec<EndpointParameter>,
) -> (r: Vec<ParameterValue>)
    ensures
        crate::progressive_matching::pv_views(r@) == followup_values(
            fields@,
            endpoint_parameters@,
        ),
        forall|i: int|
            0 <= i < r@.len() ==> has_param_name(
                endpoint_parameters@,
                (#[trigger] r@[i])@.name,
            ) && !blank(r@[i]@.value),
{
    let n = fields.len();
    let mut out: Vec<ParameterValue> = Vec::new();
    let mut i: usize = 0;
    proof {
        assert(fields@.subrange(0, 0) =~= Seq::<(String, JsonNode)>::empty());
        assert(crate::progressive_matching::pv_views(out@) =~= followup_values(
            fields@.subrange(0, 0),
            endpoint_parameters@,
        ));
    }
    while i < n
        invariant
            n == fields@.len(),
            0 <= i <= n,
            crate::progressive_matching::pv_views(out@) == followup_values(
                fields@.subrange(0, i as int),
                endpoint_parameters@,
            ),
            forall|q: int|
                0 <= q < out@.len() ==> has_param_name(
                    endpoint_parameters@,
                    (#[trigger] out@[q])@.name,
                ) && !blank(out@[q]@.value),
        decreases n - i,
    {
        let ghost pre = fields@.subrange(0, i as int);
        let ghost pre1 = fields@.subrange(0, i + 1 as int);
        proof {
            assert(pre1.drop_last() =~= pre);
            assert(pre1.last() == fields@[i as int]);
        }
        let key = &fields[i].0;
        match &fields[i].1 {
            JsonNode::Text(s) => {
                if !is_blank(s.as_str()) && param_name_known(endpoint_parameters, key) {
                    let trimmed = trim(s.as_str());
                    proof {
                        lemma_trim_not_blank(s@);
                    }
                    let mut desc = String::from_str("User provided value for ");
                    desc.append(key.as_str());
                    let ghost ov = out@;
                    out.push(
                        ParameterValue {
                            name: string_clone(key),
                            value: trimmed,
                            description: desc,
                        },
                    );
                    proof {
                        assert(followup_entry_accepted(fields@[i as int], endpoint_parameters@));
                        assert(crate::progressive_matching::pv_views(out@)
                            =~= crate::progressive_matching::pv_views(ov).push(
                            followup_entry_value(fields@[i as int]),
                        ));
                    }
                } else {
                    proof {
                        assert(!followup_entry_accepted(fields@[i as int], endpoint_parameters@));
                    }
                }
            },
            _ => {
                proof {
                    assert(!followup_entry_accepted(fields@[i as int], endpoint_parameters@));
                }
            },
        }
        i = i + 1;
    }
    proof {
        assert(fields@.subrange(0, n as int) =~= fields@);
    }
    out
}

/// Extracts parameter values from a follow-up message via the provider.
/// Whatever the provider answers, the result is the parsed object's fields
/// filtered exactly as `followup_parameters_from_fields` states: only
/// non-blank string values under declared names survive, trimmed; a
/// response that is not a JSON document is an error, and one that is not an
/// object yields no values.
pub fn extract_parameters_from_followup<P: ModelProvider>(
    sentence: &str,
    provider: &P,
    endpoint_parameters: &Vec<EndpointParameter>,
    prompts: &PromptManager,
    model: &ModelConfig,
) -> (r: Result<Vec<ParameterValue>, AnalysisError>)
    ensures
        r matches Ok(ps) ==> forall|i: int|
            0 <= i < ps@.len() ==> has_param_name(
                endpoint_parameters@,
                (#[trigger] ps@[i])@.name,
            ) && !blank(ps@[i]@.value),
        r matches Err(e) ==> (e is PromptMissing || e is Provider || e is InvalidJsonStructure),
{
    let mut available = String::new();
    let n = endpoint_parameters.len();
    let mut i: usize = 0;
    while i < n
        invariant
            n == endpoint_parameters@.len(),
            0 <= i <= n,
        decreases n - i,
    {
        available.append(endpoint_parameters[i].name.as_str());
        available.append(": ");
        available.append(endpoint_parameters[i].description.as_str());
        available.append("\n");
        i = i + 1;
    }
    let prompt = match prompts.format_extract_followup_parameters_with_mapping(
        sentence,
        available.as_str(),
        Some("v1"),
    ) {
        Ok(p) => p,
        Err(_) => {
            return Err(
                AnalysisError::PromptMissing(
                    String::from_str("extract_followup_parameters_mapping"),
                ),
            );
        },
    };
    let result = match provider.generate(prompt.as_str(), model) {
        Ok(g) => g,
        Err(e) => {
            return Err(AnalysisError::Provider(e));
        },
    };
    let node = match parse_json(result.content.as_str()) {
        Some(n) => n,
        None => {
            return Err(AnalysisError::InvalidJsonStructure);
        },
    };
    let parameters = match &node {
        JsonNode::Obj(fields, _) => followup_parameters_from_fields(fields, endpoint_parameters),
        _ => Vec::new(),
    };
    Ok(parameters)
}

/// Trimming keeps at least one non-whitespace character of a non-blank
/// string, so the trimmed value is not blank either.
proof fn lemma_trim_not_blank(s: Seq<char>)
    requires
        !blank(s),
    ensures
        !blank(trim_spec(s)),
    decreases s.len(),
{
    if s.len() > 0 {
        if is_space_char(s[0]) {
            let rest = s.subrange(1, s.len() as int);
            assert(!blank(rest)) by {
                let w = choose|i: int| 0 <= i < s.len() && !is_space_char(s[i]);
                assert(rest[w - 1] == s[w]);
            }
            lemma_trim_not_blank(rest);
        } else if is_space_char(s[s.len() - 1]) {
            let rest = s.subrange(0, s.len() - 1);
            assert(!blank(rest)) by {
                assert(!is_space_char(rest[0]));
            }
            lemma_trim_not_blank(rest);
        } else {
            assert(!is_space_char(trim_spec(s)[0]));
        }
    }
}

} // verus!
