//! The analysis orchestrator: progressive-followup gate, intent branch,
//! actionable workflow with retries, and the general fallback.

use vstd::prelude::*;
use crate::models::{EnhancedEndpoint, EndpointParameter, ParameterMatch, MatchingInfo,
    MatchingStatus, EnhancedAnalysisResult, RawPayload, clone_enhanced, clone_opt_string,
    params_view};
use crate::progressive_matching::{ProgressiveMatchingManager, ParameterValue, OngoingMatch,
    now_rfc3339, integrate_progressive_matching};
use crate::providers::{ModelProvider, ModelsConfig};
use crate::prompts::PromptManager;
use crate::errors::{AnalysisError, is_retryable};
use crate::classify_intent::{IntentType, classify_intent_from_response};
use crate::config::AnalysisConfig;
use crate::workflow::{WorkflowEngine, StepConfig, RetryConfig, RegisteredStep,
    EnhancedConfigurationLoadingStep, EndpointMatchingStep, PathParameterExtractionStep,
    JsonGenerationStep, FieldMatchingStep};
use crate::response_builders::{create_complete_progressive_response,
    create_partial_progressive_response, create_help_response, create_general_response,
    create_fallback_response};
use crate::parameter_extraction::extract_parameters_from_followup;
use crate::email::{validate_email, is_valid_email};
use crate::endpoint_client::string_clone;
use crate::helpers::{add_tokens, create_usage_info};
use crate::text::str_eq;

verus! {

/// The step order of the actionable workflow, with each step's retry
/// policy.
fn enhanced_workflow_steps() -> (r: Vec<StepConfig>)
    ensures
        r@.len() == 5,
        r@[0].name@ == "enhanced_configuration_loading"@,
        forall|i: int| 0 <= i < r@.len() ==> (#[trigger] r@[i]).enabled,
{
    let mut steps: Vec<StepConfig> = Vec::new();
    steps.push(
        StepConfig {
            name: String::from_str("enhanced_configuration_loading"),
            enabled: true,
            retry: RetryConfig { max_attempts: 3, delay_ms: 1000 },
        },
    );
    steps.push(
        StepConfig {
            name: String::from_str("endpoint_matching"),
            enabled: true,
            retry: RetryConfig { max_attempts: 2, delay_ms: 500 },
        },
    );
    steps.push(
        StepConfig {
            name: String::from_str("path_parameter_extraction"),
            enabled: true,
            retry: RetryConfig { max_attempts: 1, delay_ms: 0 },
        },
    );
    steps.push(
        StepConfig {
            name: String::from_str("json_generation"),
            enabled: true,
            retry: RetryConfig { max_attempts: 3, delay_ms: 1000 },
        },
    );
    steps.push(
        StepConfig {
            name: String::from_str("field_matching"),
            enabled: true,
            retry: RetryConfig { max_attempts: 2, delay_ms: 500 },
        },
    );
    steps
}

fn clone_endpoint_list(es: &Vec<EnhancedEndpoint>) -> (r: Vec<EnhancedEndpoint>)
    ensures
        r@.len() == es@.len(),
        forall|i: int| 0 <= i < r@.len() ==> (#[trigger] r@[i])@ == es@[i]@,
{
    let n = es.len();
    let mut out: Vec<EnhancedEndpoint> = Vec::new();
    let mut i: usize = 0;
    while i < n
        invariant
            n == es@.len(),
            0 <= i <= n,
            out@.len() == i,
            forall|q: int| 0 <= q < i ==> (#[trigger] out@[q])@ == es@[q]@,
        decreases n - i,
    {
        let e = clone_enhanced(&es[i]);
        out.push(e);
        i = i + 1;
    }
    out
}

/// Any configuration-loading step registered by the actionable workflow
/// carries the caller's email, catalog address and endpoint list.
spec fn config_step_consistent(
    step: RegisteredStep,
    email: Seq<char>,
    url_some: bool,
    eplen: int,
) -> bool {
    step matches RegisteredStep::ConfigLoading(st) ==> {
        &&& st.email@ == email
        &&& (st.api_url is Some <==> url_some)
        &&& st.endpoints@.len() == eplen
    }
}

spec fn config_step_present(
    step: RegisteredStep,
    email: Seq<char>,
    url_some: bool,
    eplen: int,
) -> bool {
    step matches RegisteredStep::ConfigLoading(st) && st.email@ == email && (st.api_url is Some
        <==> url_some) && st.endpoints@.len() == eplen
}

/// One attempt of the actionable workflow: runs the declared steps and
/// assembles the result from the context they filled.  The report in the
/// result satisfies the matching invariants: mapped counts never exceed
/// totals, the percentage lies between 0 and 100, and the status is
/// complete exactly when nothing required is missing.
pub fn try_actionable_analysis<P: ModelProvider>(
    sentence: &str,
    provider: &P,
    endpoints: &Vec<EnhancedEndpoint>,
    api_url: &Option<String>,
    email: &str,
    conversation_id: Option<String>,
    prompts: &PromptManager,
    models: &ModelsConfig,
) -> (r: Result<EnhancedAnalysisResult, AnalysisError>)
    ensures
        r matches Ok(res) ==> {
            &&& res.intent == IntentType::ActionableRequest
            &&& crate::models::opt_view(res.conversation_id) == crate::models::opt_view(
                conversation_id,
            )
            &&& res.matching_info.mapped_required_fields
                <= res.matching_info.total_required_fields
            &&& 0 <= res.matching_info.completion_percentage <= 100
            &&& ((res.matching_info.status == MatchingStatus::Complete) <==> (
            res.matching_info.total_required_fields == 0
                || res.matching_info.mapped_required_fields
                == res.matching_info.total_required_fields))
            &&& crate::models::opt_view(res.user_prompt)
                == crate::models::user_prompt_spec(
                res.endpoint_name@,
                crate::models::missing_view(res.matching_info.missing_required_fields@),
            )
        },
        !is_valid_email(email@) || api_url is None || endpoints@.len() == 0 ==> r is Err,
        r matches Err(e) ==> {
            &&& (e is InvalidEmail ==> !is_valid_email(email@))
            &&& (e is NoEndpoints ==> endpoints@.len() == 0)
        },
{
    let configs = enhanced_workflow_steps();
    let mut engine = WorkflowEngine::new();
    let cn = configs.len();
    let mut ci: usize = 0;
    let mut configs = configs;
    while ci < cn
        invariant
            cn == 5,
            0 <= ci <= cn,
            cn == configs@.len(),
            configs@[0].name@ == "enhanced_configuration_loading"@,
            forall|k: int| 0 <= k < configs@.len() ==> (#[trigger] configs@[k]).enabled,
            forall|k: int|
                0 <= k < engine.steps@.len() ==> (#[trigger] engine.steps@[k]).0.enabled,
            forall|k: int|
                0 <= k < engine.steps@.len() ==> config_step_consistent(
                    (#[trigger] engine.steps@[k]).1,
                    email@,
                    api_url is Some,
                    endpoints@.len() as int,
                ),
            ci >= 1 ==> exists|k: int|
                0 <= k < engine.steps@.len() && (#[trigger] engine.steps@[k]).0.enabled
                    && config_step_present(
                    engine.steps@[k].1,
                    email@,
                    api_url is Some,
                    endpoints@.len() as int,
                ),
        decreases cn - ci,
    {
        let cfg = StepConfig {
            name: string_clone(&configs[ci].name),
            enabled: configs[ci].enabled,
            retry: RetryConfig {
                max_attempts: configs[ci].retry.max_attempts,
                delay_ms: configs[ci].retry.delay_ms,
            },
        };
        let ghost pre_steps = engine.steps@;
        let ghost cfg_enabled = cfg.enabled;
        proof {
            assert(cfg_enabled);
        }
        if str_eq(cfg.name.as_str(), "enhanced_configuration_loading") {
            let loading = EnhancedConfigurationLoadingStep {
                api_url: clone_opt_string(api_url),
                email: email.to_owned(),
                endpoints: clone_endpoint_list(endpoints),
                models_config: models.clone(),
            };
            proof {
                assert(loading.api_url is Some <==> api_url is Some) by {
                    if api_url is Some {
                        assert(crate::models::opt_view(loading.api_url)
                            == crate::models::opt_view(*api_url));
                    }
                    if loading.api_url is Some {
                        assert(crate::models::opt_view(loading.api_url)
                            == crate::models::opt_view(*api_url));
                    }
                }
                assert(config_step_present(
                    RegisteredStep::ConfigLoading(loading),
                    email@,
                    api_url is Some,
                    endpoints@.len() as int,
                ));
            }
            engine.register_step(cfg, RegisteredStep::ConfigLoading(loading));
            proof {
                let w = pre_steps.len() as int;
                assert(engine.steps@[w].0.enabled && config_step_present(
                    engine.steps@[w].1,
                    email@,
                    api_url is Some,
                    endpoints@.len() as int,
                ));
            }
        } else if str_eq(cfg.name.as_str(), "endpoint_matching") {
            engine.register_step(cfg, RegisteredStep::EndpointMatching(EndpointMatchingStep));
        } else if str_eq(cfg.name.as_str(), "path_parameter_extraction") {
            engine.register_step(
                cfg,
                RegisteredStep::PathParameterExtraction(PathParameterExtractionStep),
            );
        } else if str_eq(cfg.name.as_str(), "json_generation") {
            engine.register_step(cfg, RegisteredStep::JsonGeneration(JsonGenerationStep));
        } else if str_eq(cfg.name.as_str(), "field_matching") {
            engine.register_step(cfg, RegisteredStep::FieldMatching(FieldMatchingStep));
        } else {
            return Err(AnalysisError::UnknownStep(cfg.name));
        }
        proof {
            assert(forall|k: int|
                0 <= k < pre_steps.len() ==> engine.steps@[k] == pre_steps[k]);
            if ci >= 1 {
                let k = choose|k: int|
                    0 <= k < pre_steps.len() && (#[trigger] pre_steps[k]).0.enabled
                        && config_step_present(
                        pre_steps[k].1,
                        email@,
                        api_url is Some,
                        endpoints@.len() as int,
                    );
                assert(engine.steps@[k].0.enabled && config_step_present(
                    engine.steps@[k].1,
                    email@,
                    api_url is Some,
                    endpoints@.len() as int,
                ));
            }
        }
        ci = ci + 1;
    }
    proof {
        let k = choose|k: int|
            0 <= k < engine.steps@.len() && (#[trigger] engine.steps@[k]).0.enabled
                && config_step_present(
                engine.steps@[k].1,
                email@,
                api_url is Some,
                endpoints@.len() as int,
            );
        if !is_valid_email(email@) || api_url is None || endpoints@.len() == 0 {
            assert(crate::workflow::config_must_fail(engine.steps@[k].1));
        }
    }
    let context = match engine.execute(sentence.to_owned(), provider, prompts) {
        Ok(c) => c,
        Err(e) => {
            proof {
                let i = choose|i: int|
                    0 <= i < engine.steps@.len() && (#[trigger] engine.steps@[i]).0.enabled
                        && crate::workflow::step_error_possible(engine.steps@[i].1, e);
                if e is InvalidEmail || e is NoEndpoints {
                    assert(config_step_consistent(
                        engine.steps@[i].1,
                        email@,
                        api_url is Some,
                        endpoints@.len() as int,
                    ));
                }
            }
            return Err(e);
        },
    };
    let endpoint_id = match &context.endpoint_id {
        Some(id) => string_clone(id),
        None => {
            return Err(AnalysisError::EndpointNotFound);
        },
    };
    let enhanced_endpoint: EnhancedEndpoint;
    {
        let es = match &context.enhanced_endpoints {
            Some(es) => es,
            None => {
                return Err(AnalysisError::ConfigUnavailable);
            },
        };
        let en = es.len();
        let mut i: usize = 0;
        let mut found: Option<usize> = None;
        while i < en && found.is_none()
            invariant
                en == es@.len(),
                0 <= i <= en,
                found matches Some(j) ==> j < en,
            decreases en - i + (if found is Some { 0int } else { 1int }),
        {
            if str_eq(es[i].id.as_str(), endpoint_id.as_str()) {
                found = Some(i);
            } else {
                i = i + 1;
            }
        }
        match found {
            Some(j) => {
                enhanced_endpoint = clone_enhanced(&es[j]);
            },
            None => {
                return Err(AnalysisError::EndpointNotFound);
            },
        }
    }
    let pn = context.parameters.len();
    let mut parameter_matches: Vec<ParameterMatch> = Vec::new();
    let mut i: usize = 0;
    while i < pn
        invariant
            pn == context.parameters@.len(),
            0 <= i <= pn,
            parameter_matches@.len() == i,
        decreases pn - i,
    {
        let p = &context.parameters[i];
        parameter_matches.push(
            ParameterMatch {
                name: string_clone(&p.name),
                description: string_clone(&p.description),
                value: clone_opt_string(&p.semantic_value),
            },
        );
        i = i + 1;
    }
    let matching_info = MatchingInfo::compute(&parameter_matches, &context.parameters);
    let user_prompt = matching_info.generate_user_prompt(enhanced_endpoint.name.as_str());
    let mut final_input = context.total_input_tokens;
    let mut final_output = context.total_output_tokens;
    if final_output == 0 {
        let sentence_usage = provider.estimate_usage(sentence, "");
        if final_input == 0 {
            final_input = add_tokens(
                add_tokens(sentence_usage.input_tokens, sentence_usage.input_tokens),
                sentence_usage.input_tokens,
            );
        }
        let mut content = String::new();
        match &context.json_output {
            Some(crate::jsonval::JsonNode::Obj(_, raw)) => {
                content.append(raw.as_str());
                content.append(" ");
            },
            _ => {},
        }
        content.append(endpoint_id.as_str());
        content.append(" ");
        content.append(enhanced_endpoint.description.as_str());
        let content_usage = provider.estimate_usage("", content.as_str());
        let reasoning = add_tokens(sentence_usage.input_tokens, sentence_usage.input_tokens);
        final_output = add_tokens(content_usage.output_tokens, reasoning);
    }
    let usage = create_usage_info(final_input, final_output, provider.get_model_name(), true);
    let raw_json = match context.json_output {
        Some(n) => RawPayload::Extracted(n),
        None => {
            return Err(AnalysisError::InvalidJsonStructure);
        },
    };
    Ok(
        EnhancedAnalysisResult {
            endpoint_id,
            endpoint_name: enhanced_endpoint.name,
            endpoint_description: enhanced_endpoint.description,
            verb: enhanced_endpoint.verb,
            base: enhanced_endpoint.base,
            path: enhanced_endpoint.path,
            essential_path: enhanced_endpoint.essential_path,
            api_group_id: enhanced_endpoint.api_group_id,
            api_group_name: enhanced_endpoint.api_group_name,
            parameters: parameter_matches,
            raw_json,
            conversation_id,
            matching_info,
            user_prompt,
            total_input_tokens: final_input,
            total_output_tokens: final_output,
            usage,
            intent: IntentType::ActionableRequest,
        },
    )
}

/// Runs the actionable workflow up to `retry_attempts` times, retrying only
/// when the endpoint selection did not settle; any other error is returned
/// at once.
pub fn analyze_with_retry<P: ModelProvider>(
    sentence: &str,
    provider: &P,
    endpoints: &Vec<EnhancedEndpoint>,
    api_url: &Option<String>,
    email: &str,
    conversation_id: Option<String>,
    retry_attempts: u32,
    prompts: &PromptManager,
    models: &ModelsConfig,
) -> (r: Result<EnhancedAnalysisResult, AnalysisError>)
    ensures
        r matches Ok(res) ==> {
            &&& res.intent == IntentType::ActionableRequest
            &&& res.matching_info.mapped_required_fields
                <= res.matching_info.total_required_fields
            &&& 0 <= res.matching_info.completion_percentage <= 100
        },
        !is_valid_email(email@) || api_url is None || endpoints@.len() == 0 ==> r is Err,
        r matches Err(e) ==> {
            &&& (e is InvalidEmail ==> !is_valid_email(email@))
            &&& (e is NoEndpoints ==> endpoints@.len() == 0)
        },
{
    let attempts = if retry_attempts == 0 {
        1
    } else {
        retry_attempts
    };
    let mut attempt: u32 = 0;
    while attempt < attempts
        invariant
            0 <= attempt <= attempts,
        decreases attempts - attempt,
    {
        attempt = attempt + 1;
        let conv = clone_opt_string(&conversation_id);
        match try_actionable_analysis(
            sentence,
            provider,
            endpoints,
            api_url,
            email,
            conv,
            prompts,
            models,
        ) {
            Ok(res) => {
                return Ok(res);
            },
            Err(e) => {
                if !is_retryable(&e) || attempt >= attempts {
                    return Err(e);
                }
            },
        }
    }
    Err(AnalysisError::NoSuitableEndpoint)
}

fn required_names_of(params: &Vec<EndpointParameter>) -> (r: Vec<String>)
    ensures
        crate::text::views_of(r@) == params_view(params@).filter(
            |p: crate::models::EndpointParameterView| p.required == Some(true),
        ).map_values(|p: crate::models::EndpointParameterView| p.name),
{
    let ghost pred = |p: crate::models::EndpointParameterView| p.required == Some(true);
    let ghost name_of = |p: crate::models::EndpointParameterView| p.name;
    let n = params.len();
    let mut out: Vec<String> = Vec::new();
    let mut i: usize = 0;
    proof {
        assert(params_view(params@).subrange(0, 0) =~= Seq::<
            crate::models::EndpointParameterView,
        >::empty());
        crate::text::lemma_filter_all(
            Seq::<crate::models::EndpointParameterView>::empty(),
            pred,
        );
        assert(crate::text::views_of(out@) =~= params_view(params@).subrange(0, 0).filter(
            pred,
        ).map_values(name_of));
    }
    while i < n
        invariant
            n == params@.len(),
            pred == (|p: crate::models::EndpointParameterView| p.required == Some(true)),
            name_of == (|p: crate::models::EndpointParameterView| p.name),
            0 <= i <= n,
            crate::text::views_of(out@) == params_view(params@).subrange(0, i as int).filter(
                pred,
            ).map_values(name_of),
        decreases n - i,
    {
        let ghost pv = params_view(params@);
        proof {
            assert(pv.subrange(0, i + 1 as int).drop_last() =~= pv.subrange(0, i as int));
            assert(pv.subrange(0, i + 1 as int) =~= pv.subrange(0, i as int).push(pv[i as int]));
            crate::text::lemma_filter_push(pv.subrange(0, i as int), pv[i as int], pred);
            assert(pv[i as int] == params@[i as int]@);
        }
        let required = match &params[i].required {
            Some(b) => *b,
            None => false,
        };
        if required {
            let ghost ov = out@;
            let nm = string_clone(&params[i].name);
            out.push(nm);
            proof {
                assert(crate::text::views_of(out@) =~= crate::text::views_of(ov).push(
                    pv[i as int].name,
                ));
                assert(pv.subrange(0, i + 1 as int).filter(pred).map_values(name_of)
                    =~= pv.subrange(0, i as int).filter(pred).map_values(name_of).push(
                    pv[i as int].name,
                ));
            }
        }
        i = i + 1;
    }
    proof {
        assert(params_view(params@).subrange(0, n as int) =~= params_view(params@));
    }
    out
}

/// Handles one follow-up turn of an ongoing progressive match: extracts new
/// parameter values from the sentence, merges them into the store, and
/// reports either completion (deleting the row) or the still-missing names.
pub fn handle_progressive_followup<P: ModelProvider>(
    sentence: &str,
    conversation_id: &str,
    ongoing_match: &OngoingMatch,
    provider: &P,
    progressive_manager: &mut ProgressiveMatchingManager,
    endpoints: &Vec<EnhancedEndpoint>,
    prompts: &PromptManager,
    models: &ModelsConfig,
) -> (r: Result<EnhancedAnalysisResult, AnalysisError>)
    ensures
        r matches Ok(res) ==> {
            &&& res.intent == IntentType::ActionableRequest
            &&& res.conversation_id matches Some(c) && c@ == conversation_id@
        },
        (forall|i: int|
            0 <= i < endpoints@.len() ==> (#[trigger] endpoints@[i]).id@
                != ongoing_match.endpoint_id@) <==> (r matches Err(e) && e is EndpointNotFound),
        endpoints@.len() == 0 ==> r is Err,
{
    let endpoint: EnhancedEndpoint;
    {
        let en = endpoints.len();
        let mut i: usize = 0;
        let mut found: Option<usize> = None;
        while i < en && found.is_none()
            invariant
                en == endpoints@.len(),
                0 <= i <= en,
                found is None ==> forall|q: int|
                    0 <= q < i ==> (#[trigger] endpoints@[q]).id@ != ongoing_match.endpoint_id@,
                found matches Some(j) ==> j < en && endpoints@[j as int].id@
                    == ongoing_match.endpoint_id@,
            decreases en - i + (if found is Some { 0int } else { 1int }),
        {
            if str_eq(endpoints[i].id.as_str(), ongoing_match.endpoint_id.as_str()) {
                found = Some(i);
            } else {
                i = i + 1;
            }
        }
        match found {
            Some(j) => {
                endpoint = clone_enhanced(&endpoints[j]);
            },
            None => {
                return Err(AnalysisError::EndpointNotFound);
            },
        }
    }
    let new_parameters = match extract_parameters_from_followup(
        sentence,
        provider,
        &endpoint.parameters,
        prompts,
        &models.default,
    ) {
        Ok(ps) => ps,
        Err(e) => {
            return Err(e);
        },
    };
    if new_parameters.len() == 0 {
        return Err(AnalysisError::NoParametersExtracted);
    }
    let required_param_names = required_names_of(&endpoint.parameters);
    let now = now_rfc3339();
    let completion_result = integrate_progressive_matching(
        conversation_id,
        ongoing_match.endpoint_id.as_str(),
        &new_parameters,
        &required_param_names,
        progressive_manager,
        &endpoint.parameters,
        now.as_str(),
    );
    let conv = Some(conversation_id.to_owned());
    if completion_result.is_complete {
        progressive_manager.complete_match(conversation_id, ongoing_match.endpoint_id.as_str());
        Ok(create_complete_progressive_response(&endpoint, completion_result, &conv))
    } else {
        Ok(create_partial_progressive_response(&endpoint, completion_result, &conv))
    }
}

/// The full analysis of one sentence, in strict priority order: the
/// progressive-followup gate first when the conversation has an open match;
/// otherwise intent classification, with the actionable workflow, the help
/// answer, or the general answer; and, when an actionable run stays
/// incomplete, a save of the resolved parameters so the next turn can
/// resume.
pub fn analyze_sentence_enhanced<P: ModelProvider>(
    sentence: &str,
    provider: &P,
    endpoints: &Vec<EnhancedEndpoint>,
    api_url: &Option<String>,
    email: &str,
    conversation_id: Option<String>,
    config: &AnalysisConfig,
    prompts: &PromptManager,
    models: &ModelsConfig,
    store: &mut ProgressiveMatchingManager,
) -> (r: Result<EnhancedAnalysisResult, AnalysisError>)
    ensures
        !is_valid_email(email@) ==> (r matches Err(e) && e is InvalidEmail),
        r matches Err(e) && e is InvalidEmail ==> !is_valid_email(email@),
        is_valid_email(email@) && endpoints@.len() == 0 ==> (r matches Err(e)
            && e is NoEndpoints),
{
    match validate_email(email) {
        Ok(_) => {},
        Err(e) => {
            return Err(e);
        },
    }
    if let Some(conv_id) = &conversation_id {
        let gate = store.get_incomplete_match(conv_id.as_str());
        if let Some(ongoing) = gate {
            let followed = handle_progressive_followup(
                sentence,
                conv_id.as_str(),
                &ongoing,
                provider,
                store,
                endpoints,
                prompts,
                models,
            );
            match followed {
                Ok(res) => {
                    return Ok(res);
                },
                Err(_) => {
                    // fall through to the normal flow
                },
            }
        }
    }
    if endpoints.len() == 0 {
        return Err(AnalysisError::NoEndpoints);
    }
    let mut descriptions = String::new();
    let en = endpoints.len();
    let mut i: usize = 0;
    while i < en
        invariant
            en == endpoints@.len(),
            0 <= i <= en,
        decreases en - i,
    {
        if i > 0 {
            descriptions.append("\n- ");
        }
        descriptions.append(endpoints[i].description.as_str());
        i = i + 1;
    }
    let intent_prompt = prompts.format_intent_classification(
        sentence,
        descriptions.as_str(),
        Some("v3"),
    );
    let intent_response = match provider.generate(intent_prompt.as_str(), &models.intent_classification) {
        Ok(g) => g,
        Err(e) => {
            return Err(AnalysisError::Provider(e));
        },
    };
    let intent = classify_intent_from_response(sentence, intent_response.content.as_str());
    match intent {
        IntentType::ActionableRequest => {
            let conv = clone_opt_string(&conversation_id);
            match analyze_with_retry(
                sentence,
                provider,
                endpoints,
                api_url,
                email,
                conv,
                config.retry_attempts,
                prompts,
                models,
            ) {
                Ok(result) => {
                    if result.matching_info.completion_percentage < 100 {
                        if let Some(conv_id) = &conversation_id {
                            save_incomplete_request(&result, conv_id.as_str(), endpoints, store);
                        }
                    }
                    Ok(result)
                },
                Err(e) => {
                    if config.fallback_to_general {
                        create_fallback_response(
                            sentence,
                            provider,
                            &models.sentence_to_json,
                            provider.get_model_name(),
                            conversation_id,
                        )
                    } else {
                        Err(e)
                    }
                },
            }
        },
        IntentType::HelpRequest => {
            create_help_response(
                sentence,
                endpoints,
                provider,
                prompts,
                &models.default,
                conversation_id,
            )
        },
        IntentType::GeneralQuestion => {
            create_general_response(
                sentence,
                provider,
                &models.sentence_to_json,
                provider.get_model_name(),
                conversation_id,
            )
        },
    }
}

/// Persists the resolved parameters of an incomplete actionable result so
/// the next turn of the conversation can resume it.
fn save_incomplete_request(
    result: &EnhancedAnalysisResult,
    conversation_id: &str,
    endpoints: &Vec<EnhancedEndpoint>,
    store: &mut ProgressiveMatchingManager,
) {
    let endpoint_idx: usize;
    {
        let en = endpoints.len();
        let mut i: usize = 0;
        let mut found: Option<usize> = None;
        while i < en && found.is_none()
            invariant
                en == endpoints@.len(),
                0 <= i <= en,
                found matches Some(j) ==> j < en,
            decreases en - i + (if found is Some { 0int } else { 1int }),
        {
            if str_eq(endpoints[i].id.as_str(), result.endpoint_id.as_str()) {
                found = Some(i);
            } else {
                i = i + 1;
            }
        }
        match found {
            Some(j) => {
                endpoint_idx = j;
            },
            None => {
                return ;
            },
        }
    }
    let endpoint = &endpoints[endpoint_idx];
    let pn = result.parameters.len();
    let mut new_parameters: Vec<ParameterValue> = Vec::new();
    let mut i: usize = 0;
    while i < pn
        invariant
            pn == result.parameters@.len(),
            0 <= i <= pn,
        decreases pn - i,
    {
        let p = &result.parameters[i];
        match &p.value {
            Some(v) => {
                new_parameters.push(
                    ParameterValue {
                        name: string_clone(&p.name),
                        value: string_clone(v),
                        description: string_clone(&p.description),
                    },
                );
            },
            None => {},
        }
        i = i + 1;
    }
    let required_param_names = required_names_of(&endpoint.parameters);
    let now = now_rfc3339();
    let _ = integrate_progressive_matching(
        conversation_id,
        result.endpoint_id.as_str(),
        &new_parameters,
        &required_param_names,
        store,
        &endpoint.parameters,
        now.as_str(),
    );
}

} // verus!
