//! Reconciliation of extracted JSON fields with an endpoint's parameter
//! list: direct matching by name and declared aliases, and the combination
//! of direct matches with a semantic mapping, where direct matches win.

use vstd::prelude::*;
use crate::text::{blank, is_blank, views_of};
use crate::models::{EndpointParameter, EndpointParameterView, opt_view, value_filled,
    param_required, clone_opt_string};
use crate::jsonval::{JsonNode, lookup_field, get_field};
use crate::endpoint_client::string_clone;

verus! {

/// The value a JSON node contributes as a parameter value: a non-blank
/// string keeps its contents; null and blank strings contribute nothing; an
/// array or object contributes its serialized text; a number or boolean
/// contributes its JSON text unless that is blank or the word "null".
pub open spec fn extracted_value_spec(n: JsonNode) -> Option<Seq<char>> {
    match n {
        JsonNode::Text(s) => if !blank(s@) {
            Some(s@)
        } else {
            None
        },
        JsonNode::Null => None,
        JsonNode::Arr(_, raw) => Some(raw@),
        JsonNode::Obj(_, raw) => Some(raw@),
        JsonNode::Scalar(raw) => if blank(raw@) || raw@ == "null"@ {
            None
        } else {
            Some(raw@)
        },
    }
}

/// Extracts the usable string form of a JSON value, if it has one.
pub fn extract_string_value(value: &JsonNode) -> (r: Option<String>)
    ensures
        opt_view(r) == extracted_value_spec(*value),
{
    match value {
        JsonNode::Text(s) => {
            if !is_blank(s.as_str()) {
                Some(string_clone(s))
            } else {
                None
            }
        },
        JsonNode::Null => None,
        JsonNode::Arr(_, raw) => Some(string_clone(raw)),
        JsonNode::Obj(_, raw) => Some(string_clone(raw)),
        JsonNode::Scalar(raw) => {
            if is_blank(raw.as_str()) || crate::text::str_eq(raw.as_str(), "null") {
                None
            } else {
                Some(string_clone(raw))
            }
        },
    }
}

/// A blank string never yields a value: a parameter whose extracted value is
/// whitespace only is treated as unfilled.
pub proof fn lemma_blank_value_unfilled(s: String)
    requires
        blank(s@),
    ensures
        extracted_value_spec(JsonNode::Text(s)) is None,
{
}

/// The fields the pipeline works on, given a parsed payload: the `fields`
/// object of the first entry of a non-empty `endpoints` array; or, for a
/// plain object without an `endpoints` key, the object's own fields; or
/// nothing.
pub open spec fn extracted_fields_spec(n: JsonNode) -> Seq<(String, JsonNode)> {
    match n {
        JsonNode::Obj(fs, _) => match lookup_field(fs@, "endpoints"@) {
            Some(e) => match e {
                JsonNode::Arr(elems, _) => if elems@.len() >= 1 {
                    match elems@[0] {
                        JsonNode::Obj(efs, _) => match lookup_field(efs@, "fields"@) {
                            Some(f) => match f {
                                JsonNode::Obj(ffs, _) => ffs@,
                                _ => Seq::<(String, JsonNode)>::empty(),
                            },
                            None => Seq::<(String, JsonNode)>::empty(),
                        },
                        _ => Seq::<(String, JsonNode)>::empty(),
                    }
                } else {
                    Seq::<(String, JsonNode)>::empty()
                },
                _ => Seq::<(String, JsonNode)>::empty(),
            },
            None => fs@,
        },
        _ => Seq::<(String, JsonNode)>::empty(),
    }
}

/// Finds the field object the pipeline works on inside a parsed payload,
/// together with that object's serialized text.  `None` stands for no
/// usable fields.
pub fn extract_fields_from_json<'a>(input: &'a JsonNode) -> (r: Option<
    (&'a Vec<(String, JsonNode)>, &'a String),
>)
    ensures
        match r {
            Some(fs) => fs.0@ == extracted_fields_spec(*input),
            None => extracted_fields_spec(*input) == Seq::<(String, JsonNode)>::empty(),
        },
{
    match input {
        JsonNode::Obj(fs, raw) => {
            match get_field(fs, "endpoints") {
                Some(e) => match e {
                    JsonNode::Arr(elems, _) => {
                        if elems.len() >= 1 {
                            match &elems[0] {
                                JsonNode::Obj(efs, _) => match get_field(efs, "fields") {
                                    Some(f) => match f {
                                        JsonNode::Obj(ffs, fraw) => Some((ffs, fraw)),
                                        _ => None,
                                    },
                                    None => None,
                                },
                                _ => None,
                            }
                        } else {
                            None
                        }
                    },
                    _ => None,
                },
                None => Some((fs, raw)),
            }
        },
        _ => None,
    }
}

/// The direct value of a parameter against the extracted fields: the field
/// named like the parameter, if it yields a value; otherwise the first
/// declared alias that is present among the fields, whatever it yields.
pub open spec fn first_alt_value(
    alts: Seq<Seq<char>>,
    fields: Seq<(String, JsonNode)>,
) -> Option<Seq<char>>
    decreases alts.len(),
{
    if alts.len() == 0 {
        None
    } else {
        match lookup_field(fields, alts[0]) {
            Some(v) => extracted_value_spec(v),
            None => first_alt_value(alts.subrange(1, alts.len() as int), fields),
        }
    }
}

pub open spec fn direct_match_spec(
    p: EndpointParameterView,
    fields: Seq<(String, JsonNode)>,
) -> Option<Seq<char>> {
    let direct = match lookup_field(fields, p.name) {
        Some(v) => extracted_value_spec(v),
        None => None,
    };
    if direct is Some {
        direct
    } else {
        match p.alternatives {
            Some(alts) => first_alt_value(alts, fields),
            None => None,
        }
    }
}

/// One reconciled entry: parameter name, description, and the value found
/// for it, if any.
pub open spec fn tuple_view(t: (String, String, Option<String>)) -> (
    Seq<char>,
    Seq<char>,
    Option<Seq<char>>,
) {
    (t.0@, t.1@, opt_view(t.2))
}

#[verifier::loop_isolation(false)]
fn direct_match_exec(p: &EndpointParameter, fields: &Vec<(String, JsonNode)>) -> (r: Option<
    String,
>)
    ensures
        opt_view(r) == direct_match_spec(p@, fields@),
{
    let mut matched: Option<String> = match get_field(fields, p.name.as_str()) {
        Some(v) => extract_string_value(v),
        None => None,
    };
    if matched.is_none() {
        if let Some(alts) = &p.alternatives {
            let n = alts.len();
            let ghost av = views_of(alts@);
            let mut i: usize = 0;
            proof {
                assert(av.subrange(0, n as int) =~= av);
            }
            while i < n
                invariant
                    n == alts@.len(),
                    av == views_of(alts@),
                    p.alternatives == Some(*alts),
                    0 <= i <= n,
                    first_alt_value(av, fields@) == first_alt_value(
                        av.subrange(i as int, n as int),
                        fields@,
                    ),
                decreases n - i,
            {
                proof {
                    let rem = av.subrange(i as int, n as int);
                    assert(rem[0] == av[i as int]);
                    assert(av[i as int] == alts@[i as int]@);
                    assert(rem.subrange(1, rem.len() as int) =~= av.subrange(
                        i + 1 as int,
                        n as int,
                    ));
                }
                match get_field(fields, alts[i].as_str()) {
                    Some(v) => {
                        return extract_string_value(v);
                    },
                    None => {},
                }
                i = i + 1;
            }
            proof {
                assert(av.subrange(n as int, n as int) =~= Seq::<Seq<char>>::empty());
            }
            return None;
        }
    }
    matched
}

/// Reconciles every parameter with the extracted fields by direct name and
/// alias lookup; each parameter yields one entry, carrying its value when
/// one was found.
pub fn try_direct_matching(
    endpoint_params: &Vec<EndpointParameter>,
    extracted_fields: &Vec<(String, JsonNode)>,
) -> (r: Vec<(String, String, Option<String>)>)
    ensures
        r@.len() == endpoint_params@.len(),
        forall|i: int|
            0 <= i < r@.len() ==> tuple_view(#[trigger] r@[i]) == (
                endpoint_params@[i]@.name,
                endpoint_params@[i]@.description,
                direct_match_spec(endpoint_params@[i]@, extracted_fields@),
            ),
{
    let n = endpoint_params.len();
    let mut out: Vec<(String, String, Option<String>)> = Vec::new();
    let mut i: usize = 0;
    while i < n
        invariant
            n == endpoint_params@.len(),
            0 <= i <= n,
            out@.len() == i,
            forall|q: int|
                0 <= q < i ==> tuple_view(#[trigger] out@[q]) == (
                    endpoint_params@[q]@.name,
                    endpoint_params@[q]@.description,
                    direct_match_spec(endpoint_params@[q]@, extracted_fields@),
                ),
        decreases n - i,
    {
        let p = &endpoint_params[i];
        let value = direct_match_exec(p, extracted_fields);
        out.push((string_clone(&p.name), string_clone(&p.description), value));
        i = i + 1;
    }
    out
}

/// A reconciled list carries a usable value for a name when some entry with
/// that name holds a non-blank value.
pub open spec fn tuple_filled_for(ts: Seq<(String, String, Option<String>)>, nm: Seq<char>) -> bool {
    exists|i: int| 0 <= i < ts.len() && ts[i].0@ == nm && value_filled(opt_view(ts[i].2))
}

/// Counts the required parameters for which the reconciled list holds no
/// usable value.
pub fn count_unmatched_required_params(
    endpoint_params: &Vec<EndpointParameter>,
    matches: &Vec<(String, String, Option<String>)>,
) -> (r: usize)
    ensures
        r == endpoint_params@.filter(
            |p: EndpointParameter| param_required(p) && !tuple_filled_for(matches@, p.name@),
        ).len(),
{
    let ghost pred = |p: EndpointParameter|
        param_required(p) && !tuple_filled_for(matches@, p.name@);
    let n = endpoint_params.len();
    let mut count: usize = 0;
    let mut i: usize = 0;
    proof {
        assert(endpoint_params@.subrange(0, 0) =~= Seq::<EndpointParameter>::empty());
        crate::text::lemma_filter_all(Seq::<EndpointParameter>::empty(), pred);
    }
    while i < n
        invariant
            n == endpoint_params@.len(),
            pred == (|p: EndpointParameter|
                param_required(p) && !tuple_filled_for(matches@, p.name@)),
            0 <= i <= n,
            count == endpoint_params@.subrange(0, i as int).filter(pred).len(),
        decreases n - i,
    {
        proof {
            assert(endpoint_params@.subrange(0, i + 1 as int).drop_last()
                =~= endpoint_params@.subrange(0, i as int));
            assert(endpoint_params@.subrange(0, i + 1 as int) =~= endpoint_params@.subrange(
                0,
                i as int,
            ).push(endpoint_params@[i as int]));
            crate::text::lemma_filter_push(
                endpoint_params@.subrange(0, i as int),
                endpoint_params@[i as int],
                pred,
            );
            crate::text::lemma_filter_len_le(endpoint_params@.subrange(0, i as int), pred);
        }
        let p = &endpoint_params[i];
        let required = match &p.required {
            Some(b) => *b,
            None => false,
        };
        if required && !is_tuple_filled(matches, &p.name) {
            count = count + 1;
        }
        i = i + 1;
    }
    proof {
        assert(endpoint_params@.subrange(0, n as int) =~= endpoint_params@);
    }
    count
}

fn is_tuple_filled(ts: &Vec<(String, String, Option<String>)>, nm: &String) -> (r: bool)
    ensures
        r == tuple_filled_for(ts@, nm@),
{
    let n = ts.len();
    let mut i: usize = 0;
    while i < n
        invariant
            n == ts@.len(),
            0 <= i <= n,
            forall|j: int|
                0 <= j < i ==> !(ts@[j].0@ == nm@ && value_filled(opt_view(ts@[j].2))),
        decreases n - i,
    {
        if ts[i].0 == *nm {
            match &ts[i].2 {
                Some(v) => {
                    if !is_blank(v.as_str()) {
                        return true;
                    }
                },
                None => {},
            }
        }
        i = i + 1;
    }
    false
}

/// One unresolved entry per parameter, used when nothing was extracted.
pub fn create_empty_matches(endpoint_params: &Vec<EndpointParameter>) -> (r: Vec<
    (String, String, Option<String>),
>)
    ensures
        r@.len() == endpoint_params@.len(),
        forall|i: int|
            0 <= i < r@.len() ==> tuple_view(#[trigger] r@[i]) == (
                endpoint_params@[i]@.name,
                endpoint_params@[i]@.description,
                None::<Seq<char>>,
            ),
{
    let n = endpoint_params.len();
    let mut out: Vec<(String, String, Option<String>)> = Vec::new();
    let mut i: usize = 0;
    while i < n
        invariant
            n == endpoint_params@.len(),
            0 <= i <= n,
            out@.len() == i,
            forall|q: int|
                0 <= q < i ==> tuple_view(#[trigger] out@[q]) == (
                    endpoint_params@[q]@.name,
                    endpoint_params@[q]@.description,
                    None::<Seq<char>>,
                ),
        decreases n - i,
    {
        let p = &endpoint_params[i];
        out.push((string_clone(&p.name), string_clone(&p.description), None));
        i = i + 1;
    }
    out
}

/// The first reconciled entry with the given name, if any.
pub open spec fn find_tuple(
    ts: Seq<(String, String, Option<String>)>,
    nm: Seq<char>,
) -> Option<(String, String, Option<String>)>
    decreases ts.len(),
{
    if ts.len() == 0 {
        None
    } else if ts[0].0@ == nm {
        Some(ts[0])
    } else {
        find_tuple(ts.subrange(1, ts.len() as int), nm)
    }
}

/// The value a parameter ends up with after the semantic pass: the direct
/// match when it holds a usable value, otherwise whatever the semantic
/// mapping offers for the parameter's name.
pub open spec fn final_value_spec(
    p: EndpointParameterView,
    direct: Seq<(String, String, Option<String>)>,
    semantic_fields: Seq<(String, JsonNode)>,
) -> Option<Seq<char>> {
    let direct_value = match find_tuple(direct, p.name) {
        Some(t) => opt_view(t.2),
        None => None,
    };
    if value_filled(direct_value) {
        direct_value
    } else {
        match lookup_field(semantic_fields, p.name) {
            Some(v) => extracted_value_spec(v),
            None => None,
        }
    }
}

/// A usable direct match always wins over the semantic mapping, whatever the
/// mapping holds for the name.
pub proof fn lemma_direct_match_preferred(
    p: EndpointParameterView,
    direct: Seq<(String, String, Option<String>)>,
    semantic_fields: Seq<(String, JsonNode)>,
)
    requires
        find_tuple(direct, p.name) is Some,
        value_filled(opt_view(find_tuple(direct, p.name)->Some_0.2)),
    ensures
        final_value_spec(p, direct, semantic_fields) == opt_view(
            find_tuple(direct, p.name)->Some_0.2,
        ),
{
}

pub fn find_tuple_exec<'a>(
    ts: &'a Vec<(String, String, Option<String>)>,
    nm: &String,
) -> (r: Option<&'a (String, String, Option<String>)>)
    ensures
        match r {
            Some(t) => find_tuple(ts@, nm@) == Some(*t),
            None => find_tuple(ts@, nm@) is None,
        },
{
    let n = ts.len();
    let mut i: usize = 0;
    proof {
        assert(ts@.subrange(0, n as int) =~= ts@);
    }
    while i < n
        invariant
            n == ts@.len(),
            0 <= i <= n,
            find_tuple(ts@, nm@) == find_tuple(ts@.subrange(i as int, n as int), nm@),
        decreases n - i,
    {
        proof {
            let rem = ts@.subrange(i as int, n as int);
            assert(rem[0] == ts@[i as int]);
            assert(rem.subrange(1, rem.len() as int) =~= ts@.subrange(i + 1 as int, n as int));
        }
        if ts[i].0 == *nm {
            return Some(&ts[i]);
        }
        i = i + 1;
    }
    proof {
        assert(ts@.subrange(n as int, n as int) =~= Seq::<(String, String, Option<String>)>::empty());
    }
    None
}

/// Combines direct matches with a semantic mapping: for each parameter the
/// direct match is kept when it holds a usable value, and the semantic
/// mapping is consulted only otherwise.
pub fn combine_semantic_matches(
    endpoint_params: &Vec<EndpointParameter>,
    direct_matches: &Vec<(String, String, Option<String>)>,
    semantic_fields: &Vec<(String, JsonNode)>,
) -> (r: Vec<(String, String, Option<String>)>)
    ensures
        r@.len() == endpoint_params@.len(),
        forall|i: int|
            0 <= i < r@.len() ==> tuple_view(#[trigger] r@[i]) == (
                endpoint_params@[i]@.name,
                endpoint_params@[i]@.description,
                final_value_spec(endpoint_params@[i]@, direct_matches@, semantic_fields@),
            ),
{
    let n = endpoint_params.len();
    let mut out: Vec<(String, String, Option<String>)> = Vec::new();
    let mut i: usize = 0;
    while i < n
        invariant
            n == endpoint_params@.len(),
            0 <= i <= n,
            out@.len() == i,
            forall|q: int|
                0 <= q < i ==> tuple_view(#[trigger] out@[q]) == (
                    endpoint_params@[q]@.name,
                    endpoint_params@[q]@.description,
                    final_value_spec(endpoint_params@[q]@, direct_matches@, semantic_fields@),
                ),
        decreases n - i,
    {
        let p = &endpoint_params[i];
        let mut final_value: Option<String> = None;
        match find_tuple_exec(direct_matches, &p.name) {
            Some(t) => {
                match &t.2 {
                    Some(v) => {
                        if !is_blank(v.as_str()) {
                            final_value = clone_opt_string(&t.2);
                        }
                    },
                    None => {},
                }
            },
            None => {},
        }
        if final_value.is_none() {
            match get_field(semantic_fields, p.name.as_str()) {
                Some(v) => {
                    final_value = extract_string_value(v);
                },
                None => {},
            }
        }
        out.push((string_clone(&p.name), string_clone(&p.description), final_value));
        i = i + 1;
    }
    out
}


/// A human-readable listing of an endpoint's parameters, for the semantic
/// matching prompt.
fn parameters_listing(endpoint_params: &Vec<EndpointParameter>) -> String {
    let n = endpoint_params.len();
    let mut out = String::new();
    let mut i: usize = 0;
    while i < n
        invariant
            n == endpoint_params@.len(),
            0 <= i <= n,
        decreases n - i,
    {
        let p = &endpoint_params[i];
        out.append("- ");
        out.append(p.name.as_str());
        let required = match &p.required {
            Some(b) => *b,
            None => false,
        };
        if required {
            out.append(" (REQUIRED): ");
        } else {
            out.append(" (optional): ");
        }
        out.append(p.description.as_str());
        match &p.alternatives {
            Some(alts) => {
                if alts.len() > 0 {
                    out.append(" [alternatives: ");
                    let joined = crate::text::join_with_strings(alts, ", ");
                    out.append(joined.as_str());
                    out.append("]");
                }
            },
            None => {},
        }
        out.append("\n");
        i = i + 1;
    }
    out
}

/// Reconciles the extracted payload with the endpoint's parameters: direct
/// matching first; when no field was extracted, one unresolved entry per
/// parameter; when every required parameter found a direct value, the direct
/// matches as they stand; only otherwise is the provider asked for a
/// semantic mapping, and even then a usable direct match wins per parameter.
pub fn match_fields_semantic<P: crate::providers::ModelProvider>(
    input_json: &JsonNode,
    endpoint: &crate::models::Endpoint,
    provider: &P,
    prompts: &crate::prompts::PromptManager,
    model: &crate::providers::ModelConfig,
) -> (r: Result<Vec<(String, String, Option<String>)>, crate::errors::AnalysisError>)
    ensures
        r matches Ok(ms) ==> ms@.len() == endpoint.parameters@.len() && forall|i: int|
            0 <= i < ms@.len() ==> (#[trigger] ms@[i]).0@ == endpoint.parameters@[i]@.name
                && ms@[i].1@ == endpoint.parameters@[i]@.description,
        extracted_fields_spec(*input_json) == Seq::<(String, JsonNode)>::empty() ==> (
        r matches Ok(ms) && forall|i: int|
            0 <= i < ms@.len() ==> opt_view((#[trigger] ms@[i]).2) is None),
        (extracted_fields_spec(*input_json) != Seq::<(String, JsonNode)>::empty()
            && endpoint.parameters@.filter(
            |p: EndpointParameter|
                param_required(p) && !value_filled(
                    direct_match_spec(p@, extracted_fields_spec(*input_json)),
                ),
        ).len() == 0) ==> (r matches Ok(ms) && forall|i: int|
            0 <= i < ms@.len() ==> opt_view((#[trigger] ms@[i]).2) == direct_match_spec(
                endpoint.parameters@[i]@,
                extracted_fields_spec(*input_json),
            )),
        r matches Err(e) ==> (e is PromptMissing || e is Provider || e is InvalidJsonStructure),
{
    let extracted = match extract_fields_from_json(input_json) {
        Some(fs) => fs,
        None => {
            let r = create_empty_matches(&endpoint.parameters);
            return Ok(r);
        },
    };
    if extracted.0.len() == 0 {
        proof {
            assert(extracted.0@ =~= Seq::<(String, JsonNode)>::empty());
        }
        let r = create_empty_matches(&endpoint.parameters);
        return Ok(r);
    }
    let direct_matches = try_direct_matching(&endpoint.parameters, extracted.0);
    let unmatched = count_required_without_direct(&endpoint.parameters, extracted.0);
    if unmatched == 0 {
        return Ok(direct_matches);
    }
    let parameters_str = parameters_listing(&endpoint.parameters);
    let prompt_template = match prompts.get_prompt("match_fields", Some("v1")) {
        Some(t) => t,
        None => {
            return Err(
                crate::errors::AnalysisError::PromptMissing(String::from_str("match_fields")),
            );
        },
    };
    proof {
        reveal_strlit("{input_fields}");
        reveal_strlit("{parameters}");
    }
    let p1 = crate::text::replace_all(prompt_template.as_str(), "{input_fields}", extracted.1.as_str());
    let prompt = crate::text::replace_all(p1.as_str(), "{parameters}", parameters_str.as_str());
    let result = match provider.generate(prompt.as_str(), model) {
        Ok(g) => g,
        Err(e) => {
            return Err(crate::errors::AnalysisError::Provider(e));
        },
    };
    let semantic_node = match crate::jsonval::parse_json(result.content.as_str()) {
        Some(n) => n,
        None => {
            return Err(crate::errors::AnalysisError::InvalidJsonStructure);
        },
    };
    let empty_fields: Vec<(String, JsonNode)> = Vec::new();
    let combined = match &semantic_node {
        JsonNode::Obj(sfs, _) => combine_semantic_matches(
            &endpoint.parameters,
            &direct_matches,
            sfs,
        ),
        _ => combine_semantic_matches(&endpoint.parameters, &direct_matches, &empty_fields),
    };
    Ok(combined)
}

/// Counts the required parameters whose direct match yielded no usable
/// value.
fn count_required_without_direct(
    endpoint_params: &Vec<EndpointParameter>,
    fields: &Vec<(String, JsonNode)>,
) -> (r: usize)
    ensures
        r == endpoint_params@.filter(
            |p: EndpointParameter|
                param_required(p) && !value_filled(direct_match_spec(p@, fields@)),
        ).len(),
{
    let ghost pred = |p: EndpointParameter|
        param_required(p) && !value_filled(direct_match_spec(p@, fields@));
    let n = endpoint_params.len();
    let mut count: usize = 0;
    let mut i: usize = 0;
    proof {
        assert(endpoint_params@.subrange(0, 0) =~= Seq::<EndpointParameter>::empty());
        crate::text::lemma_filter_all(Seq::<EndpointParameter>::empty(), pred);
    }
    while i < n
        invariant
            n == endpoint_params@.len(),
            pred == (|p: EndpointParameter|
                param_required(p) && !value_filled(direct_match_spec(p@, fields@))),
            0 <= i <= n,
            count == endpoint_params@.subrange(0, i as int).filter(pred).len(),
        decreases n - i,
    {
        proof {
            assert(endpoint_params@.subrange(0, i + 1 as int).drop_last()
                =~= endpoint_params@.subrange(0, i as int));
            assert(endpoint_params@.subrange(0, i + 1 as int) =~= endpoint_params@.subrange(
                0,
                i as int,
            ).push(endpoint_params@[i as int]));
            crate::text::lemma_filter_push(
                endpoint_params@.subrange(0, i as int),
                endpoint_params@[i as int],
                pred,
            );
            crate::text::lemma_filter_len_le(endpoint_params@.subrange(0, i as int), pred);
        }
        let p = &endpoint_params[i];
        let required = match &p.required {
            Some(b) => *b,
            None => false,
        };
        if required {
            let direct = direct_match_exec(p, fields);
            let filled = match &direct {
                Some(v) => !is_blank(v.as_str()),
                None => false,
            };
            if !filled {
                count = count + 1;
            }
        }
        i = i + 1;
    }
    proof {
        assert(endpoint_params@.subrange(0, n as int) =~= endpoint_params@);
    }
    count
}

} // verus!
