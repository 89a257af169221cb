//! The per-call decisions of the RPC façade: identity validation,
//! conversation-id handling, message validation, and response assembly.

use vstd::prelude::*;
use crate::text::{blank, is_blank};
use crate::models::{EnhancedAnalysisResult, MissingField, MatchingInfo, opt_view,
    missing_view};
use crate::errors::StatusKind;
use crate::email::{is_email, is_valid_email};
use crate::conversation::ConversationManager;
use crate::classify_intent::IntentType;
use crate::endpoint_client::string_clone;

verus! {

/// Validates the caller's identity from request metadata: the email header
/// must be present and syntactically valid, or the call is rejected as an
/// invalid argument before any further work.
pub fn get_email_validated(email_header: Option<&str>) -> (r: Result<String, StatusKind>)
    ensures
        match r {
            Ok(em) => email_header matches Some(h) && em@ == h@ && is_valid_email(h@),
            Err(s) => s == StatusKind::InvalidArgument && (email_header matches Some(h)
                ==> !is_valid_email(h@)),
        },
{
    match email_header {
        Some(h) => {
            if is_email(h) {
                Ok(h.to_owned())
            } else {
                Err(StatusKind::InvalidArgument)
            }
        },
        None => Err(StatusKind::InvalidArgument),
    }
}

/// The client tag for logging: the header when present, a fixed placeholder
/// otherwise.
pub fn get_client_id(client_header: Option<&str>) -> (r: String)
    ensures
        match client_header {
            Some(h) => r@ == h@,
            None => r@ == "unknown-client"@,
        },
{
    match client_header {
        Some(h) => h.to_owned(),
        None => String::from_str("unknown-client"),
    }
}

/// Rejects a message that is empty after trimming.
pub fn validate_message(message: &str) -> (r: Result<(), StatusKind>)
    ensures
        r is Ok <==> !blank(message@),
        r matches Err(s) ==> s == StatusKind::InvalidArgument,
{
    if is_blank(message) {
        Err(StatusKind::InvalidArgument)
    } else {
        Ok(())
    }
}

/// Accepts the caller's conversation id when one is supplied and non-empty,
/// leaving the registry untouched; otherwise starts a fresh conversation and
/// returns its minted 36-character id.
pub fn ensure_conversation_id(
    manager: &mut ConversationManager,
    conversation_id: Option<String>,
    email: &str,
    api_url: Option<String>,
    now: &str,
) -> (r: String)
    ensures
        conversation_id matches Some(id) ==> (id@.len() > 0 ==> {
            &&& r@ == id@
            &&& final(manager).conversations@ == old(manager).conversations@
            &&& final(manager).messages@ == old(manager).messages@
        }),
        (conversation_id is None || (conversation_id matches Some(id) && id@.len() == 0)) ==> {
            &&& r@.len() == 36
            &&& final(manager).conversations@.len() == old(manager).conversations@.len() + 1
            &&& final(manager).conversations@.last().id@ == r@
            &&& final(manager).conversations@.last().email@ == email@
        },
{
    match conversation_id {
        Some(id) => {
            if id.unicode_len() > 0 {
                id
            } else {
                manager.start_conversation(email.to_owned(), api_url, now)
            }
        },
        None => manager.start_conversation(email.to_owned(), api_url, now),
    }
}

/// One wire parameter of the response.
#[derive(Debug, Clone)]
pub struct ResponseParameter {
    pub name: String,
    pub description: String,
    pub semantic_value: Option<String>,
}

/// The single frame the analyze stream emits.
#[derive(Debug)]
pub struct SentenceResponse {
    pub conversation_id: Option<String>,
    pub endpoint_id: String,
    pub endpoint_name: Option<String>,
    pub endpoint_description: String,
    pub verb: Option<String>,
    pub base: Option<String>,
    pub path: Option<String>,
    pub essential_path: Option<String>,
    pub api_group_id: Option<String>,
    pub api_group_name: Option<String>,
    pub user_prompt: Option<String>,
    pub usage: crate::models::UsageInfo,
    pub intent: IntentType,
    pub parameters: Vec<ResponseParameter>,
    pub raw_json: crate::models::RawPayload,
    pub matching_info: MatchingInfo,
}

/// Deduplication of missing fields by name, keeping the first occurrence.
pub open spec fn dedup_missing(fs: Seq<MissingField>) -> Seq<MissingField>
    decreases fs.len(),
{
    if fs.len() == 0 {
        Seq::<MissingField>::empty()
    } else {
        let init = dedup_missing(fs.drop_last());
        if exists|i: int| 0 <= i < init.len() && init[i].name@ == fs.last().name@ {
            init
        } else {
            init.push(fs.last())
        }
    }
}

fn has_missing_named(fs: &Vec<MissingField>, nm: &String) -> (r: bool)
    ensures
        r == exists|i: int| 0 <= i < fs@.len() && fs@[i].name@ == nm@,
{
    let n = fs.len();
    let mut i: usize = 0;
    while i < n
        invariant
            n == fs@.len(),
            0 <= i <= n,
            forall|j: int| 0 <= j < i ==> fs@[j].name@ != nm@,
        decreases n - i,
    {
        if fs[i].name == *nm {
            return true;
        }
        i = i + 1;
    }
    false
}

/// Removes later duplicates by name from a missing-field list.
pub fn dedup_missing_fields(fs: &Vec<MissingField>) -> (r: Vec<MissingField>)
    ensures
        r@.len() == dedup_missing(fs@).len(),
        missing_view(r@) == missing_view(dedup_missing(fs@)),
{
    let n = fs.len();
    let mut out: Vec<MissingField> = Vec::new();
    let mut i: usize = 0;
    proof {
        assert(fs@.subrange(0, 0) =~= Seq::<MissingField>::empty());
        assert(missing_view(out@) =~= missing_view(dedup_missing(fs@.subrange(0, 0))));
    }
    while i < n
        invariant
            n == fs@.len(),
            0 <= i <= n,
            out@.len() == dedup_missing(fs@.subrange(0, i as int)).len(),
            missing_view(out@) == missing_view(dedup_missing(fs@.subrange(0, i as int))),
        decreases n - i,
    {
        let ghost pre = fs@.subrange(0, i as int);
        let ghost pre1 = fs@.subrange(0, i + 1 as int);
        proof {
            assert(pre1.drop_last() =~= pre);
            assert(pre1.last() == fs@[i as int]);
        }
        let dup = has_missing_named(&out, &fs[i].name);
        proof {
            let d = dedup_missing(pre);
            if dup {
                let k = choose|k: int| 0 <= k < out@.len() && out@[k].name@ == fs@[i as int].name@;
                assert(missing_view(out@)[k] == missing_view(d)[k]);
                assert(out@[k].name@ == d[k].name@);
                assert(exists|q: int| 0 <= q < d.len() && d[q].name@ == fs@[i as int].name@);
            } else {
                if exists|q: int| 0 <= q < d.len() && d[q].name@ == fs@[i as int].name@ {
                    let q = choose|q: int| 0 <= q < d.len() && d[q].name@ == fs@[i as int].name@;
                    assert(missing_view(out@)[q] == missing_view(d)[q]);
                    assert(out@[q].name@ == d[q].name@);
                }
            }
        }
        if !dup {
            let ghost ov = out@;
            out.push(
                MissingField {
                    name: string_clone(&fs[i].name),
                    description: string_clone(&fs[i].description),
                },
            );
            proof {
                assert(missing_view(out@) =~= missing_view(ov).push(
                    (fs@[i as int].name@, fs@[i as int].description@),
                ));
                assert(missing_view(dedup_missing(pre1)) =~= missing_view(
                    dedup_missing(pre),
                ).push((fs@[i as int].name@, fs@[i as int].description@)));
            }
        }
        i = i + 1;
    }
    proof {
        assert(fs@.subrange(0, n as int) =~= fs@);
    }
    out
}

/// Assembles the single response frame from an analysis result: the
/// endpoint metadata and parameters are carried over, and the missing-field
/// lists are deduplicated by name.
pub fn build_sentence_response(
    result: EnhancedAnalysisResult,
    conversation_id: String,
    model: String,
) -> (r: SentenceResponse)
    ensures
        r.conversation_id matches Some(c) && c@ == conversation_id@,
        r.endpoint_id@ == result.endpoint_id@,
        r.intent == result.intent,
        opt_view(r.user_prompt) == opt_view(result.user_prompt),
        r.usage.model@ == model@,
        r.usage.input_tokens == result.usage.input_tokens,
        r.usage.output_tokens == result.usage.output_tokens,
        missing_view(r.matching_info.missing_required_fields@) == missing_view(
            dedup_missing(result.matching_info.missing_required_fields@),
        ),
        missing_view(r.matching_info.missing_optional_fields@) == missing_view(
            dedup_missing(result.matching_info.missing_optional_fields@),
        ),
        r.matching_info.status == result.matching_info.status,
        r.matching_info.completion_percentage == result.matching_info.completion_percentage,
        r.parameters@.len() == result.parameters@.len(),
{
    let missing_required = dedup_missing_fields(&result.matching_info.missing_required_fields);
    let missing_optional = dedup_missing_fields(&result.matching_info.missing_optional_fields);
    let pn = result.parameters.len();
    let mut parameters: Vec<ResponseParameter> = Vec::new();
    let mut i: usize = 0;
    while i < pn
        invariant
            pn == result.parameters@.len(),
            0 <= i <= pn,
            parameters@.len() == i,
        decreases pn - i,
    {
        let p = &result.parameters[i];
        parameters.push(
            ResponseParameter {
                name: string_clone(&p.name),
                description: string_clone(&p.description),
                semantic_value: crate::models::clone_opt_string(&p.value),
            },
        );
        i = i + 1;
    }
    let matching_info = MatchingInfo {
        status: result.matching_info.status,
        total_required_fields: result.matching_info.total_required_fields,
        mapped_required_fields: result.matching_info.mapped_required_fields,
        total_optional_fields: result.matching_info.total_optional_fields,
        mapped_optional_fields: result.matching_info.mapped_optional_fields,
        completion_percentage: result.matching_info.completion_percentage,
        missing_required_fields: missing_required,
        missing_optional_fields: missing_optional,
    };
    SentenceResponse {
        conversation_id: Some(conversation_id),
        endpoint_id: result.endpoint_id,
        endpoint_name: Some(result.endpoint_name),
        endpoint_description: result.endpoint_description,
        verb: Some(result.verb),
        base: Some(result.base),
        path: Some(result.path),
        essential_path: Some(result.essential_path),
        api_group_id: Some(result.api_group_id),
        api_group_name: Some(result.api_group_name),
        user_prompt: result.user_prompt,
        usage: crate::models::UsageInfo {
            input_tokens: result.usage.input_tokens,
            output_tokens: result.usage.output_tokens,
            total_tokens: result.usage.total_tokens,
            model,
            estimated: result.usage.estimated,
        },
        intent: result.intent,
        parameters,
        raw_json: result.raw_json,
        matching_info,
    }
}

} // verus!
