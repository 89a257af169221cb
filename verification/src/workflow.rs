//! The workflow engine: an ordered list of named, retryable steps run
//! against a shared context, and the five steps of the actionable pipeline.

use vstd::prelude::*;
use crate::models::{ConfigFile, Endpoint, EnhancedEndpoint, EndpointParameter, params_view,
    clone_enhanced, clone_params, clone_opt_string};
use crate::providers::{ModelProvider, ModelsConfig};
use crate::prompts::PromptManager;
use crate::errors::AnalysisError;
use crate::jsonval::JsonNode;
use crate::email::{validate_email, is_valid_email};
use crate::endpoint_client::string_clone;
use crate::find_closest_endpoint::{resolve_endpoint_id, has_endpoint_id, first_id_index};
use crate::path_params::{add_path_parameters_to_list, add_synth_params, path_param_names};
use crate::sentence_to_json::{sentence_to_json, valid_payload};
use crate::match_fields::{match_fields_semantic, find_tuple_exec};
use crate::helpers::add_tokens;

verus! {

/// How often a step may be retried, and the pause its transport should
/// leave between tries.  The engine itself retries immediately: waiting is
/// an outside concern, like the calls being retried.
#[derive(Debug, Clone)]
pub struct RetryConfig {
    pub max_attempts: u32,
    pub delay_ms: u64,
}

/// One step as declared by the workflow configuration.
#[derive(Debug, Clone)]
pub struct StepConfig {
    pub name: String,
    pub enabled: bool,
    pub retry: RetryConfig,
}

/// The declared step order of a workflow.
#[derive(Debug, Clone)]
pub struct WorkflowConfig {
    pub steps: Vec<StepConfig>,
}

/// The shared state of one pipeline run.
#[derive(Debug)]
pub struct WorkflowContext {
    pub sentence: String,
    pub email: Option<String>,
    pub endpoints_config: Option<ConfigFile>,
    pub enhanced_endpoints: Option<Vec<EnhancedEndpoint>>,
    pub endpoint_id: Option<String>,
    pub endpoint_description: Option<String>,
    pub matched_endpoint: Option<Endpoint>,
    pub json_output: Option<JsonNode>,
    pub parameters: Vec<EndpointParameter>,
    pub models_config: Option<ModelsConfig>,
    pub total_input_tokens: u32,
    pub total_output_tokens: u32,
}

/// A step of the workflow: it reads and writes the shared context and may
/// consult the provider.
pub trait WorkflowStep<P: ModelProvider> {
    fn execute(
        &self,
        context: &mut WorkflowContext,
        provider: &P,
        prompts: &PromptManager,
    ) -> Result<(), AnalysisError>;

    fn name(&self) -> &'static str;
}

/// Loads the caller's endpoint configuration into the context.  The catalog
/// fetch itself happens outside the library; the step receives the fetched
/// endpoints and validates the call's preconditions.
#[derive(Debug)]
pub struct EnhancedConfigurationLoadingStep {
    pub api_url: Option<String>,
    pub email: String,
    pub endpoints: Vec<EnhancedEndpoint>,
    pub models_config: ModelsConfig,
}

impl EnhancedConfigurationLoadingStep {
    /// Succeeds exactly when the email is valid, a catalog address is known,
    /// and the user has at least one endpoint; then both endpoint forms and
    /// the model configuration stand in the context.
    pub fn run(&self, context: &mut WorkflowContext) -> (r: Result<(), AnalysisError>)
        ensures
            final(context).sentence@ == old(context).sentence@,
            r is Ok <==> (is_valid_email(self.email@) && self.api_url is Some
                && self.endpoints@.len() > 0),
            !is_valid_email(self.email@) ==> (r matches Err(e) && e is InvalidEmail),
            is_valid_email(self.email@) && self.api_url is None ==> (r matches Err(e)
                && e is ConfigUnavailable),
            is_valid_email(self.email@) && self.api_url is Some && self.endpoints@.len() == 0
                ==> (r matches Err(e) && e is NoEndpoints),
            r is Ok ==> {
                &&& final(context).email matches Some(em) && em@ == self.email@
                &&& final(context).enhanced_endpoints matches Some(es) && es@.len()
                    == self.endpoints@.len() && (forall|q: int|
                    0 <= q < es@.len() ==> (#[trigger] es@[q])@ == self.endpoints@[q]@)
                &&& final(context).models_config is Some
                &&& final(context).endpoints_config matches Some(cf) && cf.endpoints@.len()
                    == self.endpoints@.len()
            },
    {
        if self.email.unicode_len() == 0 {
            proof {
                assert(!is_valid_email(self.email@));
            }
            return Err(AnalysisError::InvalidEmail);
        }
        match validate_email(self.email.as_str()) {
            Ok(_) => {},
            Err(e) => {
                return Err(e);
            },
        }
        if self.api_url.is_none() {
            return Err(AnalysisError::ConfigUnavailable);
        }
        if self.endpoints.len() == 0 {
            return Err(AnalysisError::NoEndpoints);
        }
        let n = self.endpoints.len();
        let mut enhanced: Vec<EnhancedEndpoint> = Vec::new();
        let mut regular: Vec<Endpoint> = Vec::new();
        let mut i: usize = 0;
        while i < n
            invariant
                n == self.endpoints@.len(),
                0 <= i <= n,
                enhanced@.len() == i,
                regular@.len() == i,
                forall|q: int| 0 <= q < i ==> (#[trigger] enhanced@[q])@ == self.endpoints@[q]@,
            decreases n - i,
        {
            let e = &self.endpoints[i];
            let copy = clone_enhanced(e);
            let plain = Endpoint {
                id: string_clone(&e.id),
                text: string_clone(&e.text),
                description: string_clone(&e.description),
                parameters: clone_params(&e.parameters),
            };
            enhanced.push(copy);
            regular.push(plain);
            i = i + 1;
        }
        context.email = Some(string_clone(&self.email));
        context.endpoints_config = Some(ConfigFile { endpoints: regular });
        context.enhanced_endpoints = Some(enhanced);
        context.models_config = Some(self.models_config.clone());
        Ok(())
    }
}

/// Selects the endpoint for the sentence by asking the provider and
/// resolving its answer against the configured endpoints.
#[derive(Debug)]
pub struct EndpointMatchingStep;

impl EndpointMatchingStep {
    /// On success, an endpoint id, description and plain endpoint stand in
    /// the context, and the id names one of the configured endpoints.
    pub fn run<P: ModelProvider>(
        &self,
        context: &mut WorkflowContext,
        provider: &P,
        prompts: &PromptManager,
    ) -> (r: Result<(), AnalysisError>)
        ensures
            final(context).sentence@ == old(context).sentence@,
            r matches Err(e) ==> !(e is InvalidEmail) && !(e is NoEndpoints),
            r is Ok ==> {
                &&& final(context).endpoint_id matches Some(id)
                &&& final(context).matched_endpoint is Some
                &&& final(context).endpoint_description is Some
                &&& final(context).enhanced_endpoints matches Some(es) && has_endpoint_id(
                    es@,
                    id@,
                )
            },
            old(context).enhanced_endpoints is None || old(context).models_config is None ==> (
            r matches Err(e) && e is ConfigUnavailable),
    {
        let model = match &context.models_config {
            Some(m) => m.find_endpoint.clone(),
            None => {
                return Err(AnalysisError::ConfigUnavailable);
            },
        };
        let chosen: EnhancedEndpoint;
        {
            let enhanced = match &context.enhanced_endpoints {
                Some(es) => es,
                None => {
                    return Err(AnalysisError::ConfigUnavailable);
                },
            };
            let mut listing = String::new();
            let en = enhanced.len();
            let mut i: usize = 0;
            while i < en
                invariant
                    en == enhanced@.len(),
                    0 <= i <= en,
                decreases en - i,
            {
                listing.append("- ");
                listing.append(enhanced[i].id.as_str());
                listing.append(" (");
                listing.append(enhanced[i].description.as_str());
                listing.append(")\n");
                i = i + 1;
            }
            let prompt = prompts.format_find_endpoint_v2(
                context.sentence.as_str(),
                listing.as_str(),
                Some("v2"),
            );
            let generated = match provider.generate(prompt.as_str(), &model) {
                Ok(g) => g,
                Err(e) => {
                    return Err(AnalysisError::Provider(e));
                },
            };
            let idx = match resolve_endpoint_id(enhanced, generated.content.as_str()) {
                Ok(i) => i,
                Err(e) => {
                    return Err(e);
                },
            };
            chosen = clone_enhanced(&enhanced[idx]);
            proof {
                assert(enhanced@[idx as int].id@ == chosen.id@);
                assert(has_endpoint_id(enhanced@, chosen.id@));
            }
        }
        let ghost cid = chosen.id@;
        proof {
            assert(context.enhanced_endpoints matches Some(es) && has_endpoint_id(es@, cid));
        }
        let usage = provider.estimate_usage(context.sentence.as_str(), "");
        context.total_input_tokens = add_tokens(context.total_input_tokens, usage.input_tokens);
        context.total_output_tokens = add_tokens(
            context.total_output_tokens,
            usage.output_tokens,
        );
        context.endpoint_id = Some(string_clone(&chosen.id));
        context.endpoint_description = Some(string_clone(&chosen.description));
        let plain = Endpoint {
            id: chosen.id,
            text: chosen.text,
            description: chosen.description,
            parameters: chosen.parameters,
        };
        context.matched_endpoint = Some(plain);
        proof {
            assert(context.endpoint_id matches Some(id) && id@ == cid);
            assert(context.enhanced_endpoints matches Some(es) && has_endpoint_id(es@, cid));
        }
        Ok(())
    }
}

/// Builds the effective parameter list of the selected endpoint: its
/// declared parameters plus a synthetic required parameter for each path
/// placeholder not already declared.
#[derive(Debug)]
pub struct PathParameterExtractionStep;

impl PathParameterExtractionStep {
    pub fn run(&self, context: &mut WorkflowContext) -> (r: Result<(), AnalysisError>)
        ensures
            final(context).sentence@ == old(context).sentence@,
            r matches Err(e) ==> !(e is InvalidEmail) && !(e is NoEndpoints),
            r is Ok ==> (old(context).endpoint_id is Some && old(
                context,
            ).enhanced_endpoints is Some),
            ({
                &&& old(context).endpoint_id matches Some(id)
                &&& old(context).enhanced_endpoints matches Some(es)
                &&& has_endpoint_id(es@, id@)
            }) ==> (r is Ok && {
                let es = old(context).enhanced_endpoints->0;
                let id = old(context).endpoint_id->0;
                let e = es@[first_id_index(es@, id@)];
                params_view(final(context).parameters@) == add_synth_params(
                    params_view(e.parameters@),
                    path_param_names(e.path@),
                )
            }),
    {
        let endpoint: EnhancedEndpoint;
        let ghost target: crate::models::EnhancedEndpointView;
        {
            let id = match &context.endpoint_id {
                Some(id) => id,
                None => {
                    return Err(AnalysisError::ConfigUnavailable);
                },
            };
            let enhanced = match &context.enhanced_endpoints {
                Some(es) => es,
                None => {
                    return Err(AnalysisError::ConfigUnavailable);
                },
            };
            let en = enhanced.len();
            let mut i: usize = 0;
            let mut found = false;
            while i < en && !found
                invariant
                    en == enhanced@.len(),
                    0 <= i <= en,
                    forall|q: int| 0 <= q < i ==> enhanced@[q].id@ != id@,
                    found ==> (i < en && enhanced@[i as int].id@ == id@),
                decreases en - i + (if found { 0int } else { 1int }),
            {
                if crate::text::str_eq(enhanced[i].id.as_str(), id.as_str()) {
                    found = true;
                } else {
                    i = i + 1;
                }
            }
            if !found {
                proof {
                    assert(!has_endpoint_id(enhanced@, id@));
                }
                return Err(AnalysisError::EndpointNotFound);
            }
            proof {
                lemma_first_id_at(enhanced@, id@, i as int);
                assert(enhanced@[first_id_index(enhanced@, id@)] == enhanced@[i as int]);
            }
            endpoint = clone_enhanced(&enhanced[i]);
            proof {
                target = enhanced@[i as int]@;
                assert(endpoint@ == target);
            }
        }
        let built = add_path_parameters_to_list(&endpoint, Vec::new());
        context.parameters = built.1;
        proof {
            assert(params_view(context.parameters@) == add_synth_params(
                params_view(endpoint.parameters@),
                path_param_names(endpoint.path@),
            ));
            assert(params_view(endpoint.parameters@) == target.parameters);
            assert(endpoint.path@ == target.path);
        }
        Ok(())
    }
}

proof fn lemma_first_id_at(es: Seq<EnhancedEndpoint>, id: Seq<char>, j: int)
    requires
        0 <= j < es.len(),
        es[j].id@ == id,
        forall|q: int| 0 <= q < j ==> es[q].id@ != id,
    ensures
        first_id_index(es, id) == j,
        has_endpoint_id(es, id),
    decreases j,
{
    if j > 0 {
        let rest = es.subrange(1, es.len() as int);
        assert(rest[j - 1].id@ == id);
        assert forall|q: int| 0 <= q < j - 1 implies rest[q].id@ != id by {
            assert(rest[q] == es[q + 1]);
        }
        lemma_first_id_at(rest, id, j - 1);
    }
}

/// Extracts a parameter payload for the sentence.
#[derive(Debug)]
pub struct JsonGenerationStep;

impl JsonGenerationStep {
    /// On success the context holds a payload of the expected shape.
    pub fn run<P: ModelProvider>(
        &self,
        context: &mut WorkflowContext,
        provider: &P,
        prompts: &PromptManager,
    ) -> (r: Result<(), AnalysisError>)
        ensures
            final(context).sentence@ == old(context).sentence@,
            r matches Err(e) ==> !(e is InvalidEmail) && !(e is NoEndpoints),
            r is Ok ==> (final(context).json_output matches Some(n) && valid_payload(n)),
    {
        let model = match &context.models_config {
            Some(m) => m.default.clone(),
            None => {
                return Err(AnalysisError::ConfigUnavailable);
            },
        };
        let node = match sentence_to_json(context.sentence.as_str(), provider, prompts, &model) {
            Ok(n) => n,
            Err(e) => {
                return Err(e);
            },
        };
        let usage = provider.estimate_usage(context.sentence.as_str(), "");
        context.total_input_tokens = add_tokens(context.total_input_tokens, usage.input_tokens);
        context.total_output_tokens = add_tokens(
            context.total_output_tokens,
            usage.output_tokens,
        );
        context.json_output = Some(node);
        Ok(())
    }
}

/// Reconciles the extracted payload with the effective parameter list and
/// records the values found.
#[derive(Debug)]
pub struct FieldMatchingStep;

impl FieldMatchingStep {
    /// On success the context's parameters keep their names, descriptions
    /// and flags; only their resolved values change.
    pub fn run<P: ModelProvider>(
        &self,
        context: &mut WorkflowContext,
        provider: &P,
        prompts: &PromptManager,
    ) -> (r: Result<(), AnalysisError>)
        ensures
            final(context).sentence@ == old(context).sentence@,
            r matches Err(e) ==> !(e is InvalidEmail) && !(e is NoEndpoints),
            r is Ok ==> {
                &&& final(context).parameters@.len() == old(context).parameters@.len()
                &&& forall|i: int|
                    0 <= i < final(context).parameters@.len() ==> {
                        let np = #[trigger] final(context).parameters@[i]@;
                        let op = old(context).parameters@[i]@;
                        np.name == op.name && np.description == op.description && np.required
                            == op.required && np.alternatives == op.alternatives
                    }
            },
    {
        let model = match &context.models_config {
            Some(m) => m.default.clone(),
            None => {
                return Err(AnalysisError::ConfigUnavailable);
            },
        };
        let results: Vec<(String, String, Option<String>)>;
        {
            let json = match &context.json_output {
                Some(j) => j,
                None => {
                    return Err(AnalysisError::InvalidJsonStructure);
                },
            };
            let endpoint = match &context.matched_endpoint {
                Some(e) => e,
                None => {
                    return Err(AnalysisError::EndpointNotFound);
                },
            };
            results = match match_fields_semantic(json, endpoint, provider, prompts, &model) {
                Ok(r) => r,
                Err(e) => {
                    return Err(e);
                },
            };
        }
        let n = context.parameters.len();
        let mut updated: Vec<EndpointParameter> = Vec::new();
        let mut i: usize = 0;
        while i < n
            invariant
                n == context.parameters@.len(),
                context.parameters@ == old(context).parameters@,
                0 <= i <= n,
                updated@.len() == i,
                forall|q: int|
                    0 <= q < i ==> {
                        let np = (#[trigger] updated@[q])@;
                        let op = context.parameters@[q]@;
                        np.name == op.name && np.description == op.description && np.required
                            == op.required && np.alternatives == op.alternatives
                    },
            decreases n - i,
        {
            let p = &context.parameters[i];
            let value: Option<String> = match find_tuple_exec(&results, &p.name) {
                Some(t) => clone_opt_string(&t.2),
                None => clone_opt_string(&p.semantic_value),
            };
            let np = EndpointParameter {
                name: string_clone(&p.name),
                description: string_clone(&p.description),
                required: match &p.required {
                    Some(b) => Some(*b),
                    None => None,
                },
                alternatives: crate::models::clone_opt_string_vec(&p.alternatives),
                semantic_value: value,
            };
            updated.push(np);
            i = i + 1;
        }
        let usage = provider.estimate_usage(context.sentence.as_str(), "");
        context.total_input_tokens = add_tokens(context.total_input_tokens, usage.input_tokens);
        context.total_output_tokens = add_tokens(
            context.total_output_tokens,
            usage.output_tokens,
        );
        context.parameters = updated;
        Ok(())
    }
}

/// A step registered with the engine.
#[derive(Debug)]
pub enum RegisteredStep {
    ConfigLoading(EnhancedConfigurationLoadingStep),
    EndpointMatching(EndpointMatchingStep),
    PathParameterExtraction(PathParameterExtractionStep),
    JsonGeneration(JsonGenerationStep),
    FieldMatching(FieldMatchingStep),
}

/// A registered configuration-loading step whose own preconditions fail, so
/// that no run of it can succeed.
pub open spec fn config_must_fail(step: RegisteredStep) -> bool {
    match step {
        RegisteredStep::ConfigLoading(s) => !(is_valid_email(s.email@) && s.api_url is Some
            && s.endpoints@.len() > 0),
        _ => false,
    }
}

/// What an error from a registered step can be, as far as the configuration
/// decisions go: only a configuration-loading step reports an invalid email
/// or an empty catalog, and only when its own fields show that condition.
pub open spec fn step_error_possible(step: RegisteredStep, e: AnalysisError) -> bool {
    match step {
        RegisteredStep::ConfigLoading(s) => {
            &&& (e is InvalidEmail ==> !is_valid_email(s.email@))
            &&& (e is NoEndpoints ==> (is_valid_email(s.email@) && s.api_url is Some
                && s.endpoints@.len() == 0))
        },
        _ => !(e is InvalidEmail) && !(e is NoEndpoints),
    }
}

fn run_registered<P: ModelProvider>(
    step: &RegisteredStep,
    context: &mut WorkflowContext,
    provider: &P,
    prompts: &PromptManager,
) -> (r: Result<(), AnalysisError>)
    ensures
        final(context).sentence@ == old(context).sentence@,
        config_must_fail(*step) ==> r is Err,
        r matches Err(e) ==> step_error_possible(*step, e),
{
    match step {
        RegisteredStep::ConfigLoading(s) => s.run(context),
        RegisteredStep::EndpointMatching(s) => s.run(context, provider, prompts),
        RegisteredStep::PathParameterExtraction(s) => s.run(context),
        RegisteredStep::JsonGeneration(s) => s.run(context, provider, prompts),
        RegisteredStep::FieldMatching(s) => s.run(context, provider, prompts),
    }
}

impl<P: ModelProvider> WorkflowStep<P> for EnhancedConfigurationLoadingStep {
    fn execute(
        &self,
        context: &mut WorkflowContext,
        _provider: &P,
        _prompts: &PromptManager,
    ) -> Result<(), AnalysisError> {
        self.run(context)
    }

    fn name(&self) -> &'static str {
        "enhanced_configuration_loading"
    }
}

impl<P: ModelProvider> WorkflowStep<P> for EndpointMatchingStep {
    fn execute(
        &self,
        context: &mut WorkflowContext,
        provider: &P,
        prompts: &PromptManager,
    ) -> Result<(), AnalysisError> {
        self.run(context, provider, prompts)
    }

    fn name(&self) -> &'static str {
        "endpoint_matching"
    }
}

impl<P: ModelProvider> WorkflowStep<P> for PathParameterExtractionStep {
    fn execute(
        &self,
        context: &mut WorkflowContext,
        _provider: &P,
        _prompts: &PromptManager,
    ) -> Result<(), AnalysisError> {
        self.run(context)
    }

    fn name(&self) -> &'static str {
        "path_parameter_extraction"
    }
}

impl<P: ModelProvider> WorkflowStep<P> for JsonGenerationStep {
    fn execute(
        &self,
        context: &mut WorkflowContext,
        provider: &P,
        prompts: &PromptManager,
    ) -> Result<(), AnalysisError> {
        self.run(context, provider, prompts)
    }

    fn name(&self) -> &'static str {
        "json_generation"
    }
}

impl<P: ModelProvider> WorkflowStep<P> for FieldMatchingStep {
    fn execute(
        &self,
        context: &mut WorkflowContext,
        provider: &P,
        prompts: &PromptManager,
    ) -> Result<(), AnalysisError> {
        self.run(context, provider, prompts)
    }

    fn name(&self) -> &'static str {
        "field_matching"
    }
}

/// The engine: runs the registered steps in order, skipping disabled ones
/// and retrying each up to its declared attempt count; the first step that
/// finally fails ends the run with its error.
#[derive(Debug)]
pub struct WorkflowEngine {
    pub steps: Vec<(StepConfig, RegisteredStep)>,
}

impl WorkflowEngine {
    pub fn new() -> (r: WorkflowEngine)
        ensures
            r.steps@.len() == 0,
    {
        WorkflowEngine { steps: Vec::new() }
    }

    pub fn register_step(&mut self, config: StepConfig, step: RegisteredStep)
        ensures
            final(self).steps@ == old(self).steps@.push((config, step)),
    {
        self.steps.push((config, step));
    }

    /// Runs the workflow over a fresh context for the sentence.
    pub fn execute<P: ModelProvider>(
        &self,
        sentence: String,
        provider: &P,
        prompts: &PromptManager,
    ) -> (r: Result<WorkflowContext, AnalysisError>)
        ensures
            r matches Ok(ctx) ==> ctx.sentence@ == sentence@,
            r is Ok ==> forall|i: int|
                0 <= i < self.steps@.len() && (#[trigger] self.steps@[i]).0.enabled
                    ==> !config_must_fail(self.steps@[i].1),
            (exists|i: int|
                0 <= i < self.steps@.len() && (#[trigger] self.steps@[i]).0.enabled
                    && config_must_fail(self.steps@[i].1)) ==> r is Err,
            r matches Err(e) ==> exists|i: int|
                0 <= i < self.steps@.len() && (#[trigger] self.steps@[i]).0.enabled
                    && step_error_possible(self.steps@[i].1, e),
    {
        let ghost sv = sentence@;
        let mut context = WorkflowContext {
            sentence,
            email: None,
            endpoints_config: None,
            enhanced_endpoints: None,
            endpoint_id: None,
            endpoint_description: None,
            matched_endpoint: None,
            json_output: None,
            parameters: Vec::new(),
            models_config: None,
            total_input_tokens: 0,
            total_output_tokens: 0,
        };
        let n = self.steps.len();
        let mut s: usize = 0;
        while s < n
            invariant
                n == self.steps@.len(),
                0 <= s <= n,
                context.sentence@ == sv,
                forall|j: int|
                    0 <= j < s && (#[trigger] self.steps@[j]).0.enabled ==> !config_must_fail(
                        self.steps@[j].1,
                    ),
            decreases n - s,
        {
            let enabled = self.steps[s].0.enabled;
            if enabled {
                let max_attempts = self.steps[s].0.retry.max_attempts;
                let max_eff: u32 = if max_attempts == 0 {
                    1
                } else {
                    max_attempts
                };
                let mut attempt: u32 = 0;
                let mut succeeded = false;
                while attempt < max_eff && !succeeded
                    invariant
                        0 <= attempt <= max_eff,
                        context.sentence@ == sv,
                        s < n == self.steps@.len(),
                        self.steps@[s as int].0.enabled,
                        succeeded ==> !config_must_fail(self.steps@[s as int].1),
                        attempt >= max_eff ==> succeeded,
                        max_eff >= 1,
                    decreases max_eff - attempt,
                {
                    attempt = attempt + 1;
                    match run_registered(&self.steps[s].1, &mut context, provider, prompts) {
                        Ok(_) => {
                            succeeded = true;
                        },
                        Err(e) => {
                            if attempt >= max_eff {
                                proof {
                                    assert(step_error_possible(self.steps@[s as int].1, e));
                                }
                                return Err(e);
                            }
                        },
                    }
                }
            }
            s = s + 1;
        }
        Ok(context)
    }
}

} // verus!
