//! Resolution of a model's endpoint choice against the configured endpoints:
//! exact id match first, then a case-insensitive substring fallback.

use vstd::prelude::*;
use crate::text::{trim_spec, trim, lower, has_substring, to_lowercase, contains_str, str_eq};
use crate::models::EnhancedEndpoint;
use crate::errors::AnalysisError;

verus! {

pub open spec fn has_endpoint_id(es: Seq<EnhancedEndpoint>, id: Seq<char>) -> bool {
    exists|i: int| 0 <= i < es.len() && es[i].id@ == id
}

/// The first index with the exact id, or the length when absent.
pub open spec fn first_id_index(es: Seq<EnhancedEndpoint>, id: Seq<char>) -> int
    decreases es.len(),
{
    if es.len() == 0 {
        0
    } else if es[0].id@ == id {
        0
    } else {
        1 + first_id_index(es.subrange(1, es.len() as int), id)
    }
}

/// The substring fallback: one id is contained in the other, ignoring case.
pub open spec fn id_fallback_matches(endpoint_id: Seq<char>, resolved: Seq<char>) -> bool {
    has_substring(lower(endpoint_id), lower(resolved)) || has_substring(
        lower(resolved),
        lower(endpoint_id),
    )
}

pub open spec fn has_fallback(es: Seq<EnhancedEndpoint>, resolved: Seq<char>) -> bool {
    exists|i: int| 0 <= i < es.len() && id_fallback_matches(es[i].id@, resolved)
}

/// The first index matching the fallback, or the length when absent.
pub open spec fn first_fallback_index(es: Seq<EnhancedEndpoint>, resolved: Seq<char>) -> int
    decreases es.len(),
{
    if es.len() == 0 {
        0
    } else if id_fallback_matches(es[0].id@, resolved) {
        0
    } else {
        1 + first_fallback_index(es.subrange(1, es.len() as int), resolved)
    }
}

proof fn lemma_first_id_index(es: Seq<EnhancedEndpoint>, id: Seq<char>, j: int)
    requires
        0 <= j < es.len(),
        es[j].id@ == id,
        forall|q: int| 0 <= q < j ==> es[q].id@ != id,
    ensures
        first_id_index(es, id) == j,
    decreases j,
{
    if j > 0 {
        let rest = es.subrange(1, es.len() as int);
        assert(rest[j - 1].id@ == id);
        assert forall|q: int| 0 <= q < j - 1 implies rest[q].id@ != id by {
            assert(rest[q] == es[q + 1]);
        }
        lemma_first_id_index(rest, id, j - 1);
    }
}

proof fn lemma_first_fallback_index(es: Seq<EnhancedEndpoint>, resolved: Seq<char>, j: int)
    requires
        0 <= j < es.len(),
        id_fallback_matches(es[j].id@, resolved),
        forall|q: int| 0 <= q < j ==> !id_fallback_matches(es[q].id@, resolved),
    ensures
        first_fallback_index(es, resolved) == j,
    decreases j,
{
    if j > 0 {
        let rest = es.subrange(1, es.len() as int);
        assert(rest[j - 1] == es[j]);
        assert forall|q: int| 0 <= q < j - 1 implies !id_fallback_matches(
            rest[q].id@,
            resolved,
        ) by {
            assert(rest[q] == es[q + 1]);
        }
        lemma_first_fallback_index(rest, resolved, j - 1);
    }
}

/// Resolves a model response to a configured endpoint: the trimmed response
/// must not be the literal "NO_MATCH"; the first endpoint with exactly that
/// id wins; otherwise the first endpoint whose id contains the response or
/// is contained in it, ignoring case.  Each error names the input class it
/// arises from, and a configured endpoint is found if and only if one of the
/// two rules applies.
#[verifier::loop_isolation(false)]
pub fn resolve_endpoint_id(endpoints: &Vec<EnhancedEndpoint>, response: &str) -> (r: Result<
    usize,
    AnalysisError,
>)
    ensures
        (r matches Err(e) && e is NoSuitableEndpoint) <==> trim_spec(response@) == "NO_MATCH"@,
        trim_spec(response@) != "NO_MATCH"@ && has_endpoint_id(
            endpoints@,
            trim_spec(response@),
        ) ==> r == Ok::<usize, AnalysisError>(
            first_id_index(endpoints@, trim_spec(response@)) as usize,
        ),
        trim_spec(response@) != "NO_MATCH"@ && !has_endpoint_id(endpoints@, trim_spec(response@))
            && has_fallback(endpoints@, trim_spec(response@)) ==> r == Ok::<usize, AnalysisError>(
            first_fallback_index(endpoints@, trim_spec(response@)) as usize,
        ),
        trim_spec(response@) != "NO_MATCH"@ && !has_endpoint_id(endpoints@, trim_spec(response@))
            && !has_fallback(endpoints@, trim_spec(response@)) ==> (r matches Err(e)
            && e is EndpointNotFound),
        r matches Ok(i) ==> i < endpoints@.len(),
{
    let resolved = trim(response);
    if str_eq(resolved.as_str(), "NO_MATCH") {
        return Err(AnalysisError::NoSuitableEndpoint);
    }
    let n = endpoints.len();
    let mut i: usize = 0;
    while i < n
        invariant
            0 <= i <= n,
            forall|q: int| 0 <= q < i ==> endpoints@[q].id@ != resolved@,
        decreases n - i,
    {
        if str_eq(endpoints[i].id.as_str(), resolved.as_str()) {
            proof {
                lemma_first_id_index(endpoints@, resolved@, i as int);
            }
            return Ok(i);
        }
        i = i + 1;
    }
    let resolved_lower = to_lowercase(resolved.as_str());
    let mut j: usize = 0;
    while j < n
        invariant
            0 <= j <= n,
            resolved_lower@ == lower(resolved@),
            forall|q: int| 0 <= q < j ==> !id_fallback_matches(endpoints@[q].id@, resolved@),
        decreases n - j,
    {
        let id_lower = to_lowercase(endpoints[j].id.as_str());
        if contains_str(id_lower.as_str(), resolved_lower.as_str()) || contains_str(
            resolved_lower.as_str(),
            id_lower.as_str(),
        ) {
            proof {
                lemma_first_fallback_index(endpoints@, resolved@, j as int);
            }
            return Ok(j);
        }
        j = j + 1;
    }
    Err(AnalysisError::EndpointNotFound)
}

} // verus!
