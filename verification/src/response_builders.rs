//! Assembly of analysis results for the progressive, help, general and
//! fallback branches.

use vstd::prelude::*;
use crate::text::{replace_spec, replace_all, join_with, join_with_strings, views_of};
use crate::models::{EnhancedEndpoint, EnhancedAnalysisResult, RawPayload, ParameterMatch,
    MatchingInfo, MatchingStatus, MissingField, UsageInfo, opt_view};
use crate::progressive_matching::{ProgressiveMatchResult, ParameterValue};
use crate::path_params::add_path_parameters_to_list;
use crate::classify_intent::IntentType;
use crate::providers::{ModelProvider, ModelConfig};
use crate::prompts::PromptManager;
use crate::errors::AnalysisError;
use crate::general_question_handler::handle_general_question;
use crate::help_response_handler::handle_help_request;
use crate::helpers::create_default_matching_info;
use crate::endpoint_client::string_clone;
use crate::models::clone_opt_string;

verus! {

/// A missing name rendered for a follow-up question: underscores become
/// spaces.
pub open spec fn natural_missing(nm: Seq<char>) -> Seq<char> {
    replace_spec(nm, "_"@, " "@)
}

/// The follow-up question for a list of missing parameter names: one of four
/// templates, by how many names are missing.
pub open spec fn missing_fields_prompt_spec(missing: Seq<Seq<char>>) -> Seq<char> {
    if missing.len() == 0 {
        "All required information has been provided."@
    } else if missing.len() == 1 {
        "I need one more piece of information: "@ + natural_missing(missing[0])
            + ". Could you please provide it?"@
    } else if missing.len() == 2 {
        "I need two more pieces of information: "@ + natural_missing(missing[0]) + " and "@
            + natural_missing(missing[1]) + ". Could you provide them?"@
    } else {
        let naturals = missing.map_values(|m: Seq<char>| natural_missing(m));
        "I need a few more details: "@ + join_with(naturals.drop_last(), ", "@) + ", and "@
            + naturals.last() + ". Could you provide this information?"@
    }
}

/// Renders the follow-up question asking for the missing parameters.
#[verifier::loop_isolation(false)]
pub fn generate_missing_fields_prompt(missing_params: &Vec<String>) -> (r: String)
    ensures
        r@ == missing_fields_prompt_spec(views_of(missing_params@)),
{
    proof {
        reveal_strlit("_");
        reveal_strlit(" ");
    }
    let ghost mv = views_of(missing_params@);
    let k = missing_params.len();
    if k == 0 {
        String::from_str("All required information has been provided.")
    } else if k == 1 {
        let n0 = replace_all(missing_params[0].as_str(), "_", " ");
        let mut out = String::from_str("I need one more piece of information: ");
        out.append(n0.as_str());
        out.append(". Could you please provide it?");
        proof {
            assert(mv[0] == missing_params@[0]@);
        }
        out
    } else if k == 2 {
        let n0 = replace_all(missing_params[0].as_str(), "_", " ");
        let n1 = replace_all(missing_params[1].as_str(), "_", " ");
        let mut out = String::from_str("I need two more pieces of information: ");
        out.append(n0.as_str());
        out.append(" and ");
        out.append(n1.as_str());
        out.append(". Could you provide them?");
        proof {
            assert(mv[0] == missing_params@[0]@);
            assert(mv[1] == missing_params@[1]@);
        }
        out
    } else {
        let ghost naturals = mv.map_values(|m: Seq<char>| natural_missing(m));
        let mut initial: Vec<String> = Vec::new();
        let mut i: usize = 0;
        while i < k - 1
            invariant
                k == missing_params@.len() >= 3,
                mv == views_of(missing_params@),
                naturals == mv.map_values(|m: Seq<char>| natural_missing(m)),
                0 <= i <= k - 1,
                views_of(initial@) == naturals.subrange(0, i as int),
            decreases k - 1 - i,
        {
            let ni = replace_all(missing_params[i].as_str(), "_", " ");
            let ghost oi = initial@;
            initial.push(ni);
            proof {
                assert(mv[i as int] == missing_params@[i as int]@);
                assert(views_of(oi).len() == oi.len());
                let lhs = views_of(initial@);
                let rhs = naturals.subrange(0, i + 1 as int);
                assert forall|j: int| 0 <= j < i + 1 implies lhs[j] == rhs[j] by {
                    if j < i {
                        assert(views_of(oi)[j] == naturals.subrange(0, i as int)[j]);
                        assert(initial@[j] == oi[j]);
                    } else {
                        assert(initial@[j] == oi.push(ni)[oi.len() as int]);
                        assert(naturals[j] == natural_missing(mv[j]));
                    }
                }
                assert(lhs =~= rhs);
            }
            i = i + 1;
        }
        let joined = join_with_strings(&initial, ", ");
        let last_nat = replace_all(missing_params[k - 1].as_str(), "_", " ");
        let mut out = String::from_str("I need a few more details: ");
        out.append(joined.as_str());
        out.append(", and ");
        out.append(last_nat.as_str());
        out.append(". Could you provide this information?");
        proof {
            assert(views_of(initial@) =~= naturals.drop_last());
            assert(mv[k - 1] == missing_params@[k - 1]@);
            assert(naturals.last() == natural_missing(mv[k - 1]));
        }
        out
    }
}

fn matches_of_values(values: &Vec<ParameterValue>) -> (r: Vec<ParameterMatch>)
    ensures
        r@.len() == values@.len(),
        forall|i: int|
            0 <= i < r@.len() ==> {
                let m = (#[trigger] r@[i])@;
                let v = values@[i]@;
                m.name == v.name && m.description == v.description && m.value == Some(v.value)
            },
{
    let n = values.len();
    let mut out: Vec<ParameterMatch> = Vec::new();
    let mut i: usize = 0;
    while i < n
        invariant
            n == values@.len(),
            0 <= i <= n,
            out@.len() == i,
            forall|q: int|
                0 <= q < i ==> {
                    let m = (#[trigger] out@[q])@;
                    let v = values@[q]@;
                    m.name == v.name && m.description == v.description && m.value == Some(v.value)
                },
        decreases n - i,
    {
        let v = &values[i];
        out.push(
            ParameterMatch {
                name: string_clone(&v.name),
                description: string_clone(&v.description),
                value: Some(string_clone(&v.value)),
            },
        );
        i = i + 1;
    }
    out
}

/// The result reported when a progressive match has just completed: the
/// endpoint's own metadata, the accumulated parameters, and a freshly
/// computed matching report over the endpoint's effective parameter list.
pub fn create_complete_progressive_response(
    endpoint: &EnhancedEndpoint,
    result: ProgressiveMatchResult,
    conversation_id: &Option<String>,
) -> (r: EnhancedAnalysisResult)
    ensures
        r.endpoint_id@ == endpoint.id@,
        r.endpoint_name@ == endpoint.name@,
        r.intent == IntentType::ActionableRequest,
        r.user_prompt is None,
        opt_view(r.conversation_id) == opt_view(*conversation_id),
        r.raw_json matches RawPayload::ProgressiveComplete { endpoint_id } && endpoint_id@
            == endpoint.id@,
        r.matching_info.mapped_required_fields <= r.matching_info.total_required_fields,
        0 <= r.matching_info.completion_percentage <= 100,
        (r.matching_info.status == MatchingStatus::Complete) <==> (
        r.matching_info.total_required_fields == 0 || r.matching_info.mapped_required_fields
            == r.matching_info.total_required_fields),
{
    let base_parameters = matches_of_values(&result.matched_parameters);
    let built = add_path_parameters_to_list(endpoint, base_parameters);
    let matching_info = MatchingInfo::compute(&built.0, &built.1);
    let usage_info = UsageInfo {
        input_tokens: 50,
        output_tokens: 20,
        total_tokens: 70,
        model: String::from_str("progressive_matching"),
        estimated: true,
    };
    EnhancedAnalysisResult {
        endpoint_id: string_clone(&endpoint.id),
        endpoint_name: string_clone(&endpoint.name),
        endpoint_description: string_clone(&endpoint.description),
        verb: string_clone(&endpoint.verb),
        base: string_clone(&endpoint.base),
        path: string_clone(&endpoint.path),
        essential_path: string_clone(&endpoint.essential_path),
        api_group_id: string_clone(&endpoint.api_group_id),
        api_group_name: string_clone(&endpoint.api_group_name),
        parameters: built.0,
        raw_json: RawPayload::ProgressiveComplete { endpoint_id: string_clone(&endpoint.id) },
        conversation_id: clone_opt_string(conversation_id),
        matching_info,
        user_prompt: None,
        total_input_tokens: 50,
        total_output_tokens: 20,
        usage: usage_info,
        intent: IntentType::ActionableRequest,
    }
}

/// The result reported while a progressive match is still incomplete: the
/// accumulated parameters, the names still missing, and a follow-up question
/// asking for them.
pub fn create_partial_progressive_response(
    endpoint: &EnhancedEndpoint,
    result: ProgressiveMatchResult,
    conversation_id: &Option<String>,
) -> (r: EnhancedAnalysisResult)
    ensures
        r.endpoint_id@ == endpoint.id@,
        r.intent == IntentType::ActionableRequest,
        r.matching_info.status == MatchingStatus::Partial,
        r.matching_info.completion_percentage == result.completion_percentage,
        r.user_prompt matches Some(p) && p@ == missing_fields_prompt_spec(
            views_of(result.missing_parameters@),
        ),
        opt_view(r.conversation_id) == opt_view(*conversation_id),
        r.raw_json matches RawPayload::ProgressivePartial {
            endpoint_id,
            completion_percentage,
            missing_parameters,
        } && endpoint_id@ == endpoint.id@ && completion_percentage
            == result.completion_percentage && views_of(missing_parameters@) == views_of(
            result.missing_parameters@,
        ),
{
    let base_parameters = matches_of_values(&result.matched_parameters);
    let built = add_path_parameters_to_list(endpoint, base_parameters);
    let parameters = built.0;
    let all_endpoint_parameters = built.1;
    let mn = result.missing_parameters.len();
    let mut missing_fields: Vec<MissingField> = Vec::new();
    let mut i: usize = 0;
    while i < mn
        invariant
            mn == result.missing_parameters@.len(),
            0 <= i <= mn,
            missing_fields@.len() == i,
        decreases mn - i,
    {
        let nm = &result.missing_parameters[i];
        let mut desc = String::from_str("Missing required parameter: ");
        desc.append(nm.as_str());
        missing_fields.push(MissingField { name: string_clone(nm), description: desc });
        i = i + 1;
    }
    let mut mapped: usize = 0;
    let pn = parameters.len();
    let mut j: usize = 0;
    while j < pn
        invariant
            pn == parameters@.len(),
            0 <= j <= pn,
            0 <= mapped <= j,
        decreases pn - j,
    {
        if parameters[j].value.is_some() {
            mapped = mapped + 1;
        }
        j = j + 1;
    }
    let user_prompt = generate_missing_fields_prompt(&result.missing_parameters);
    let matching_info = MatchingInfo {
        status: MatchingStatus::Partial,
        total_required_fields: all_endpoint_parameters.len(),
        mapped_required_fields: mapped,
        total_optional_fields: 0,
        mapped_optional_fields: 0,
        completion_percentage: result.completion_percentage,
        missing_required_fields: missing_fields,
        missing_optional_fields: Vec::new(),
    };
    let mut missing_copy: Vec<String> = Vec::new();
    let mut k: usize = 0;
    while k < mn
        invariant
            mn == result.missing_parameters@.len(),
            0 <= k <= mn,
            missing_copy@.len() == k,
            forall|q: int|
                0 <= q < k ==> (#[trigger] missing_copy@[q])@ == result.missing_parameters@[q]@,
        decreases mn - k,
    {
        let s = string_clone(&result.missing_parameters[k]);
        missing_copy.push(s);
        k = k + 1;
    }
    proof {
        assert(views_of(missing_copy@) =~= views_of(result.missing_parameters@));
    }
    EnhancedAnalysisResult {
        endpoint_id: string_clone(&endpoint.id),
        endpoint_name: string_clone(&endpoint.name),
        endpoint_description: string_clone(&endpoint.description),
        verb: string_clone(&endpoint.verb),
        base: string_clone(&endpoint.base),
        path: string_clone(&endpoint.path),
        essential_path: string_clone(&endpoint.essential_path),
        api_group_id: string_clone(&endpoint.api_group_id),
        api_group_name: string_clone(&endpoint.api_group_name),
        parameters,
        raw_json: RawPayload::ProgressivePartial {
            endpoint_id: string_clone(&endpoint.id),
            completion_percentage: result.completion_percentage,
            missing_parameters: missing_copy,
        },
        conversation_id: clone_opt_string(conversation_id),
        matching_info,
        user_prompt: Some(user_prompt),
        total_input_tokens: 30,
        total_output_tokens: 15,
        usage: UsageInfo {
            input_tokens: 30,
            output_tokens: 15,
            total_tokens: 45,
            model: String::from_str("progressive_matching"),
            estimated: true,
        },
        intent: IntentType::ActionableRequest,
    }
}

/// The result reported for a help request: fixed help metadata, no
/// parameters, a complete report with nothing required, and the number of
/// capabilities listed.
pub fn create_help_response<P: ModelProvider>(
    sentence: &str,
    enhanced_endpoints: &Vec<EnhancedEndpoint>,
    provider: &P,
    prompts: &PromptManager,
    model: &ModelConfig,
    conversation_id: Option<String>,
) -> (r: Result<EnhancedAnalysisResult, AnalysisError>)
    ensures
        r matches Ok(res) ==> {
            &&& res.endpoint_id@ == "help_capabilities"@
            &&& res.intent == IntentType::HelpRequest
            &&& res.user_prompt is None
            &&& res.parameters@.len() == 0
            &&& opt_view(res.conversation_id) == opt_view(conversation_id)
            &&& res.matching_info.total_required_fields == 0
            &&& res.matching_info.status == MatchingStatus::Complete
            &&& res.matching_info.completion_percentage == 100
            &&& res.raw_json matches RawPayload::HelpRequest { response, capabilities_count }
                && capabilities_count == enhanced_endpoints@.len()
        },
        r matches Err(e) ==> e is Provider,
{
    let help_result = match handle_help_request(
        sentence,
        enhanced_endpoints,
        provider,
        prompts,
        model,
    ) {
        Ok(g) => g,
        Err(e) => {
            return Err(e);
        },
    };
    let matching_info = create_default_matching_info();
    let usage_info = UsageInfo {
        input_tokens: help_result.usage.input_tokens,
        output_tokens: help_result.usage.output_tokens,
        total_tokens: help_result.usage.total_tokens,
        model: provider.get_model_name(),
        estimated: help_result.usage.estimated,
    };
    Ok(
        EnhancedAnalysisResult {
            endpoint_id: String::from_str("help_capabilities"),
            endpoint_name: String::from_str("Help - Available Capabilities"),
            endpoint_description: String::from_str(
                "List of available system capabilities and how to use them",
            ),
            verb: String::from_str("GET"),
            base: String::from_str("help"),
            path: String::from_str("/capabilities"),
            essential_path: String::from_str("/capabilities"),
            api_group_id: String::from_str("help"),
            api_group_name: String::from_str("Help System"),
            parameters: Vec::new(),
            raw_json: RawPayload::HelpRequest {
                response: help_result.content,
                capabilities_count: enhanced_endpoints.len(),
            },
            conversation_id,
            matching_info,
            user_prompt: None,
            total_input_tokens: usage_info.input_tokens,
            total_output_tokens: usage_info.output_tokens,
            usage: usage_info,
            intent: IntentType::HelpRequest,
        },
    )
}

/// The result reported for a general question: fixed conversational
/// metadata and a complete report with nothing required.
pub fn create_general_response<P: ModelProvider>(
    sentence: &str,
    provider: &P,
    model: &ModelConfig,
    model_name: String,
    conversation_id: Option<String>,
) -> (r: Result<EnhancedAnalysisResult, AnalysisError>)
    ensures
        r matches Ok(res) ==> {
            &&& res.endpoint_id@ == "general_conversation"@
            &&& res.intent == IntentType::GeneralQuestion
            &&& res.user_prompt is None
            &&& res.parameters@.len() == 0
            &&& opt_view(res.conversation_id) == opt_view(conversation_id)
            &&& res.matching_info.total_required_fields == 0
            &&& res.matching_info.total_optional_fields == 0
            &&& res.matching_info.status == MatchingStatus::Complete
            &&& res.matching_info.completion_percentage == 100
        },
        r matches Err(e) ==> e is Provider,
{
    let conversational = match handle_general_question(sentence, provider, model) {
        Ok(g) => g,
        Err(e) => {
            return Err(AnalysisError::Provider(e));
        },
    };
    let matching_info = create_default_matching_info();
    let usage_info = UsageInfo {
        input_tokens: conversational.usage.input_tokens,
        output_tokens: conversational.usage.output_tokens,
        total_tokens: conversational.usage.total_tokens,
        model: model_name,
        estimated: conversational.usage.estimated,
    };
    Ok(
        EnhancedAnalysisResult {
            endpoint_id: String::from_str("general_conversation"),
            endpoint_name: String::from_str("General Conversation"),
            endpoint_description: String::from_str("Conversational response to general question"),
            verb: String::from_str("GET"),
            base: String::from_str("conversation"),
            path: String::from_str("/general"),
            essential_path: String::from_str("/general"),
            api_group_id: String::from_str("conversation"),
            api_group_name: String::from_str("Conversation API"),
            parameters: Vec::new(),
            raw_json: RawPayload::GeneralConversation { response: conversational.content },
            conversation_id,
            matching_info,
            user_prompt: None,
            total_input_tokens: usage_info.input_tokens,
            total_output_tokens: usage_info.output_tokens,
            usage: usage_info,
            intent: IntentType::GeneralQuestion,
        },
    )
}

/// The result substituted when the actionable flow failed after its retries:
/// a conversational answer under the fallback endpoint tag, complete with
/// nothing required.
pub fn create_fallback_response<P: ModelProvider>(
    sentence: &str,
    provider: &P,
    model: &ModelConfig,
    model_name: String,
    conversation_id: Option<String>,
) -> (r: Result<EnhancedAnalysisResult, AnalysisError>)
    ensures
        r matches Ok(res) ==> {
            &&& res.endpoint_id@ == "general_conversation_fallback"@
            &&& res.intent == IntentType::GeneralQuestion
            &&& res.user_prompt is None
            &&& res.parameters@.len() == 0
            &&& opt_view(res.conversation_id) == opt_view(conversation_id)
            &&& res.matching_info.total_required_fields == 0
            &&& res.matching_info.status == MatchingStatus::Complete
            &&& res.matching_info.completion_percentage == 100
        },
        r matches Err(e) ==> e is Provider,
{
    let conversational = match handle_general_question(sentence, provider, model) {
        Ok(g) => g,
        Err(e) => {
            return Err(AnalysisError::Provider(e));
        },
    };
    let matching_info = create_default_matching_info();
    let usage_info = UsageInfo {
        input_tokens: conversational.usage.input_tokens,
        output_tokens: conversational.usage.output_tokens,
        total_tokens: conversational.usage.total_tokens,
        model: model_name,
        estimated: conversational.usage.estimated,
    };
    Ok(
        EnhancedAnalysisResult {
            endpoint_id: String::from_str("general_conversation_fallback"),
            endpoint_name: String::from_str("General Conversation (Fallback)"),
            endpoint_description: String::from_str(
                "Fallback conversational response after endpoint matching failed",
            ),
            verb: String::from_str("GET"),
            base: String::from_str("conversation"),
            path: String::from_str("/general"),
            essential_path: String::from_str("/general"),
            api_group_id: String::from_str("conversation"),
            api_group_name: String::from_str("Conversation API"),
            parameters: Vec::new(),
            raw_json: RawPayload::GeneralConversationFallback {
                response: conversational.content,
            },
            conversation_id,
            matching_info,
            user_prompt: None,
            total_input_tokens: usage_info.input_tokens,
            total_output_tokens: usage_info.output_tokens,
            usage: usage_info,
            intent: IntentType::GeneralQuestion,
        },
    )
}

} // verus!
