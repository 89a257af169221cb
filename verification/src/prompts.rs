//! Named, versioned prompt templates with placeholder substitution.
//!
//! Loading templates from disk is the caller's concern; the registry itself
//! is a plain in-memory table with a deterministic lookup rule.

use vstd::prelude::*;
use crate::text::{replace_spec, replace_all};
use crate::models::opt_view;
use crate::endpoint_client::string_clone;

verus! {

/// One version of a prompt template.
#[derive(Debug, Clone)]
pub struct PromptVersion {
    pub name: String,
    pub template: String,
}

/// A named prompt with its versions and the default version to fall back to.
#[derive(Debug, Clone)]
pub struct PromptSet {
    pub name: String,
    pub default_version: String,
    pub versions: Vec<PromptVersion>,
}

/// The registry of prompts.
#[derive(Debug)]
pub struct PromptManager {
    pub prompts: Vec<PromptSet>,
}

pub open spec fn find_set(sets: Seq<PromptSet>, name: Seq<char>) -> Option<PromptSet>
    decreases sets.len(),
{
    if sets.len() == 0 {
        None
    } else if sets[0].name@ == name {
        Some(sets[0])
    } else {
        find_set(sets.subrange(1, sets.len() as int), name)
    }
}

pub open spec fn find_version(vs: Seq<PromptVersion>, key: Seq<char>) -> Option<PromptVersion>
    decreases vs.len(),
{
    if vs.len() == 0 {
        None
    } else if vs[0].name@ == key {
        Some(vs[0])
    } else {
        find_version(vs.subrange(1, vs.len() as int), key)
    }
}

/// The lookup rule: an unknown prompt name yields nothing; a known name with
/// the requested version yields that version's template; a known name with
/// an unknown requested version falls back to the default version.
pub open spec fn get_prompt_spec(
    sets: Seq<PromptSet>,
    name: Seq<char>,
    version: Option<Seq<char>>,
) -> Option<Seq<char>> {
    match find_set(sets, name) {
        None => None,
        Some(set) => {
            let key = match version {
                Some(v) => v,
                None => set.default_version@,
            };
            match find_version(set.versions@, key) {
                Some(v) => Some(v.template@),
                None => match find_version(set.versions@, set.default_version@) {
                    Some(v) => Some(v.template@),
                    None => None,
                },
            }
        },
    }
}

/// The template for a prompt, or the empty text when the prompt is unknown.
pub open spec fn template_or_empty(
    sets: Seq<PromptSet>,
    name: Seq<char>,
    version: Option<Seq<char>>,
) -> Seq<char> {
    match get_prompt_spec(sets, name, version) {
        Some(t) => t,
        None => Seq::<char>::empty(),
    }
}

fn find_version_exec<'a>(vs: &'a Vec<PromptVersion>, key: &str) -> (r: Option<&'a PromptVersion>)
    ensures
        match r {
            Some(v) => find_version(vs@, key@) == Some(*v),
            None => find_version(vs@, key@) is None,
        },
{
    let n = vs.len();
    let mut i: usize = 0;
    proof {
        assert(vs@.subrange(0, n as int) =~= vs@);
    }
    while i < n
        invariant
            n == vs@.len(),
            0 <= i <= n,
            find_version(vs@, key@) == find_version(vs@.subrange(i as int, n as int), key@),
        decreases n - i,
    {
        proof {
            let rem = vs@.subrange(i as int, n as int);
            assert(rem[0] == vs@[i as int]);
            assert(rem.subrange(1, rem.len() as int) =~= vs@.subrange(i + 1 as int, n as int));
        }
        if crate::text::str_eq(vs[i].name.as_str(), key) {
            return Some(&vs[i]);
        }
        i = i + 1;
    }
    proof {
        assert(vs@.subrange(n as int, n as int) =~= Seq::<PromptVersion>::empty());
    }
    None
}

impl PromptManager {
    /// An empty registry; the caller adds the prompt sets it loaded.
    pub fn new() -> (r: PromptManager)
        ensures
            r.prompts@.len() == 0,
    {
        PromptManager { prompts: Vec::new() }
    }

    /// Registers one named prompt with its versions.
    pub fn add_prompt(&mut self, set: PromptSet)
        ensures
            final(self).prompts@ == old(self).prompts@.push(set),
    {
        self.prompts.push(set);
    }

    /// Looks a template up by name and optional version, per the fallback
    /// rule.
    pub fn get_prompt(&self, name: &str, version: Option<&str>) -> (r: Option<String>)
        ensures
            opt_view(r) == get_prompt_spec(
                self.prompts@,
                name@,
                match version {
                    Some(v) => Some(v@),
                    None => None,
                },
            ),
    {
        let n = self.prompts.len();
        let mut i: usize = 0;
        proof {
            assert(self.prompts@.subrange(0, n as int) =~= self.prompts@);
        }
        while i < n
            invariant
                n == self.prompts@.len(),
                0 <= i <= n,
                find_set(self.prompts@, name@) == find_set(
                    self.prompts@.subrange(i as int, n as int),
                    name@,
                ),
            decreases n - i,
        {
            proof {
                let rem = self.prompts@.subrange(i as int, n as int);
                assert(rem[0] == self.prompts@[i as int]);
                assert(rem.subrange(1, rem.len() as int) =~= self.prompts@.subrange(
                    i + 1 as int,
                    n as int,
                ));
            }
            if crate::text::str_eq(self.prompts[i].name.as_str(), name) {
                let set = &self.prompts[i];
                let found = match version {
                    Some(v) => find_version_exec(&set.versions, v),
                    None => find_version_exec(&set.versions, set.default_version.as_str()),
                };
                match found {
                    Some(v) => {
                        return Some(string_clone(&v.template));
                    },
                    None => {
                        match find_version_exec(&set.versions, set.default_version.as_str()) {
                            Some(v) => {
                                return Some(string_clone(&v.template));
                            },
                            None => {
                                return None;
                            },
                        }
                    },
                }
            }
            i = i + 1;
        }
        proof {
            assert(self.prompts@.subrange(n as int, n as int) =~= Seq::<PromptSet>::empty());
        }
        None
    }

    fn template_for(&self, name: &str, version: Option<&str>) -> (r: String)
        ensures
            r@ == template_or_empty(
                self.prompts@,
                name@,
                match version {
                    Some(v) => Some(v@),
                    None => None,
                },
            ),
    {
        match self.get_prompt(name, version) {
            Some(t) => t,
            None => String::new(),
        }
    }

    /// The intent-classification prompt with the sentence and endpoint list
    /// substituted.
    pub fn format_intent_classification(
        &self,
        sentence: &str,
        endpoints_list: &str,
        version: Option<&str>,
    ) -> (r: String)
        ensures
            r@ == replace_spec(
                replace_spec(
                    template_or_empty(
                        self.prompts@,
                        "intent_classification"@,
                        match version {
                            Some(v) => Some(v@),
                            None => None,
                        },
                    ),
                    "{sentence}"@,
                    sentence@,
                ),
                "{endpoints_list}"@,
                endpoints_list@,
            ),
    {
        proof {
            reveal_strlit("{sentence}");
            reveal_strlit("{endpoints_list}");
        }
        let t = self.template_for("intent_classification", version);
        let t1 = replace_all(t.as_str(), "{sentence}", sentence);
        replace_all(t1.as_str(), "{endpoints_list}", endpoints_list)
    }

    /// The endpoint-selection prompt with the sentence and endpoint list
    /// substituted.
    pub fn format_find_endpoint_v2(
        &self,
        input_sentence: &str,
        endpoints_list: &str,
        version: Option<&str>,
    ) -> (r: String)
        ensures
            r@ == replace_spec(
                replace_spec(
                    template_or_empty(
                        self.prompts@,
                        "find_endpoint"@,
                        match version {
                            Some(v) => Some(v@),
                            None => None,
                        },
                    ),
                    "{input_sentence}"@,
                    input_sentence@,
                ),
                "{endpoints_list}"@,
                endpoints_list@,
            ),
    {
        proof {
            reveal_strlit("{input_sentence}");
            reveal_strlit("{endpoints_list}");
        }
        let t = self.template_for("find_endpoint", version);
        let t1 = replace_all(t.as_str(), "{input_sentence}", input_sentence);
        replace_all(t1.as_str(), "{endpoints_list}", endpoints_list)
    }

    /// The general parameter-extraction prompt with the sentence substituted.
    pub fn format_sentence_to_json(&self, sentence: &str, version: Option<&str>) -> (r: String)
        ensures
            r@ == replace_spec(
                template_or_empty(
                    self.prompts@,
                    "sentence_to_json"@,
                    match version {
                        Some(v) => Some(v@),
                        None => None,
                    },
                ),
                "{sentence}"@,
                sentence@,
            ),
    {
        proof {
            reveal_strlit("{sentence}");
        }
        let t = self.template_for("sentence_to_json", version);
        replace_all(t.as_str(), "{sentence}", sentence)
    }

    /// The endpoint-constrained extraction prompt with the sentence,
    /// endpoint description and parameter lists substituted.
    pub fn format_sentence_to_json_v2(
        &self,
        sentence: &str,
        endpoint_description: &str,
        required_params: &str,
        optional_params: &str,
        version: Option<&str>,
    ) -> (r: String)
        ensures
            r@ == replace_spec(
                replace_spec(
                    replace_spec(
                        replace_spec(
                            template_or_empty(
                                self.prompts@,
                                "sentence_to_json"@,
                                match version {
                                    Some(v) => Some(v@),
                                    None => None,
                                },
                            ),
                            "{sentence}"@,
                            sentence@,
                        ),
                        "{endpoint_description}"@,
                        endpoint_description@,
                    ),
                    "{required_params}"@,
                    required_params@,
                ),
                "{optional_params}"@,
                optional_params@,
            ),
    {
        proof {
            reveal_strlit("{sentence}");
            reveal_strlit("{endpoint_description}");
            reveal_strlit("{required_params}");
            reveal_strlit("{optional_params}");
        }
        let t = self.template_for("sentence_to_json", version);
        let t1 = replace_all(t.as_str(), "{sentence}", sentence);
        let t2 = replace_all(t1.as_str(), "{endpoint_description}", endpoint_description);
        let t3 = replace_all(t2.as_str(), "{required_params}", required_params);
        replace_all(t3.as_str(), "{optional_params}", optional_params)
    }

    /// The help-response prompt with the sentence, capability list and
    /// detected language substituted.
    pub fn format_help_response_with_language(
        &self,
        sentence: &str,
        endpoints_list: &str,
        detected_language: &str,
        version: Option<&str>,
    ) -> (r: String)
        ensures
            r@ == replace_spec(
                replace_spec(
                    replace_spec(
                        template_or_empty(
                            self.prompts@,
                            "help_response"@,
                            match version {
                                Some(v) => Some(v@),
                                None => None,
                            },
                        ),
                        "{sentence}"@,
                        sentence@,
                    ),
                    "{endpoints_list}"@,
                    endpoints_list@,
                ),
                "{detected_language}"@,
                detected_language@,
            ),
    {
        proof {
            reveal_strlit("{sentence}");
            reveal_strlit("{endpoints_list}");
            reveal_strlit("{detected_language}");
        }
        let t = self.template_for("help_response", version);
        let t1 = replace_all(t.as_str(), "{sentence}", sentence);
        let t2 = replace_all(t1.as_str(), "{endpoints_list}", endpoints_list);
        replace_all(t2.as_str(), "{detected_language}", detected_language)
    }

    /// The follow-up extraction prompt with the sentence and available
    /// parameters substituted; an error when the prompt is not registered.
    pub fn format_extract_followup_parameters_with_mapping(
        &self,
        sentence: &str,
        available_parameters: &str,
        version: Option<&str>,
    ) -> (r: Result<String, String>)
        ensures
            match r {
                Ok(s) => get_prompt_spec(
                    self.prompts@,
                    "extract_followup_parameters_mapping"@,
                    match version {
                        Some(v) => Some(v@),
                        None => None,
                    },
                ) is Some && s@ == replace_spec(
                    replace_spec(
                        template_or_empty(
                            self.prompts@,
                            "extract_followup_parameters_mapping"@,
                            match version {
                                Some(v) => Some(v@),
                                None => None,
                            },
                        ),
                        "{sentence}"@,
                        sentence@,
                    ),
                    "{available_parameters}"@,
                    available_parameters@,
                ),
                Err(_) => get_prompt_spec(
                    self.prompts@,
                    "extract_followup_parameters_mapping"@,
                    match version {
                        Some(v) => Some(v@),
                        None => None,
                    },
                ) is None,
            },
    {
        proof {
            reveal_strlit("{sentence}");
            reveal_strlit("{available_parameters}");
        }
        match self.get_prompt("extract_followup_parameters_mapping", version) {
            Some(t) => {
                let t1 = replace_all(t.as_str(), "{sentence}", sentence);
                Ok(replace_all(t1.as_str(), "{available_parameters}", available_parameters))
            },
            None => Err(
                String::from_str("extract_followup_parameters_mapping prompt not registered"),
            ),
        }
    }
}

} // verus!
