//! Core data model: endpoints, parameters, matches, and the matching report.

use vstd::prelude::*;
use crate::text::{blank, is_blank, lower, to_lowercase, replace_spec, replace_all,
    starts_with_seq, starts_with_str, lemma_filter_push, lemma_filter_len_le};

verus! {

/// A parameter that is still missing from a request.
#[derive(Debug, Clone)]
pub struct MissingField {
    pub name: String,
    pub description: String,
}

pub struct MissingFieldView {
    pub name: Seq<char>,
    pub description: Seq<char>,
}

impl View for MissingField {
    type V = MissingFieldView;

    open spec fn view(&self) -> MissingFieldView {
        MissingFieldView { name: self.name@, description: self.description@ }
    }
}

/// The view of an optional string.
pub open spec fn opt_view(o: Option<String>) -> Option<Seq<char>> {
    match o {
        Some(s) => Some(s@),
        None => None,
    }
}

/// The views of an optional list of strings.
pub open spec fn opt_views(o: Option<Vec<String>>) -> Option<Seq<Seq<char>>> {
    match o {
        Some(v) => Some(crate::text::views_of(v@)),
        None => None,
    }
}

/// A declared parameter of an endpoint.
#[derive(Debug, Clone)]
pub struct EndpointParameter {
    pub name: String,
    pub description: String,
    pub required: Option<bool>,
    pub alternatives: Option<Vec<String>>,
    pub semantic_value: Option<String>,
}

pub struct EndpointParameterView {
    pub name: Seq<char>,
    pub description: Seq<char>,
    pub required: Option<bool>,
    pub alternatives: Option<Seq<Seq<char>>>,
    pub semantic_value: Option<Seq<char>>,
}

impl View for EndpointParameter {
    type V = EndpointParameterView;

    open spec fn view(&self) -> EndpointParameterView {
        EndpointParameterView {
            name: self.name@,
            description: self.description@,
            required: self.required,
            alternatives: opt_views(self.alternatives),
            semantic_value: opt_view(self.semantic_value),
        }
    }
}

/// An endpoint in its plain projection (id, exemplar text, description, parameters).
#[derive(Debug, Clone)]
pub struct Endpoint {
    pub id: String,
    pub text: String,
    pub description: String,
    pub parameters: Vec<EndpointParameter>,
}

/// A user's configured endpoints.
#[derive(Debug, Clone)]
pub struct ConfigFile {
    pub endpoints: Vec<Endpoint>,
}

/// An endpoint enriched with its HTTP shape and group identity.
#[derive(Debug, Clone)]
pub struct EnhancedEndpoint {
    pub id: String,
    pub name: String,
    pub text: String,
    pub description: String,
    pub verb: String,
    pub base: String,
    pub path: String,
    pub essential_path: String,
    pub api_group_id: String,
    pub api_group_name: String,
    pub parameters: Vec<EndpointParameter>,
}

/// Token accounting for one call or one analysis.
#[derive(Debug, Clone)]
pub struct UsageInfo {
    pub input_tokens: u32,
    pub output_tokens: u32,
    pub total_tokens: u32,
    pub model: String,
    pub estimated: bool,
}

/// The output-side projection of a parameter: name, description and the
/// resolved value, if any.
#[derive(Debug, Clone)]
pub struct ParameterMatch {
    pub name: String,
    pub description: String,
    pub value: Option<String>,
}

pub struct ParameterMatchView {
    pub name: Seq<char>,
    pub description: Seq<char>,
    pub value: Option<Seq<char>>,
}

impl View for ParameterMatch {
    type V = ParameterMatchView;

    open spec fn view(&self) -> ParameterMatchView {
        ParameterMatchView {
            name: self.name@,
            description: self.description@,
            value: opt_view(self.value),
        }
    }
}

/// How complete the required parameters of a request are.
#[derive(Debug, Clone, PartialEq, Eq, Structural)]
pub enum MatchingStatus {
    Complete,
    Partial,
    Incomplete,
}

/// The completion report computed from resolved matches and the endpoint's
/// parameter list.
#[derive(Debug, Clone)]
pub struct MatchingInfo {
    pub status: MatchingStatus,
    pub total_required_fields: usize,
    pub mapped_required_fields: usize,
    pub total_optional_fields: usize,
    pub mapped_optional_fields: usize,
    pub completion_percentage: u32,
    pub missing_required_fields: Vec<MissingField>,
    pub missing_optional_fields: Vec<MissingField>,
}

/// An optional value counts as content when it is present and not blank.
pub open spec fn value_filled(v: Option<Seq<char>>) -> bool {
    match v {
        Some(s) => !blank(s),
        None => false,
    }
}

/// A parameter is required when its `required` flag is present and true.
pub open spec fn param_required(p: EndpointParameter) -> bool {
    p.required == Some(true)
}

/// The first resolved match with the given name, if any.
pub open spec fn find_match(ms: Seq<ParameterMatch>, name: Seq<char>) -> Option<ParameterMatch>
    decreases ms.len(),
{
    if ms.len() == 0 {
        None
    } else if ms[0].name@ == name {
        Some(ms[0])
    } else {
        find_match(ms.subrange(1, ms.len() as int), name)
    }
}

/// A parameter is filled when the resolved match with its name carries content.
pub open spec fn param_filled(ms: Seq<ParameterMatch>, name: Seq<char>) -> bool {
    match find_match(ms, name) {
        Some(m) => value_filled(opt_view(m.value)),
        None => false,
    }
}

pub open spec fn has_param_name(ps: Seq<EndpointParameter>, name: Seq<char>) -> bool {
    exists|i: int| 0 <= i < ps.len() && ps[i].name@ == name
}

/// Deduplication of a parameter list by name, keeping the first occurrence.
pub open spec fn dedup_params(ps: Seq<EndpointParameter>) -> Seq<EndpointParameter>
    decreases ps.len(),
{
    if ps.len() == 0 {
        Seq::<EndpointParameter>::empty()
    } else {
        let init = dedup_params(ps.drop_last());
        if has_param_name(init, ps.last().name@) {
            init
        } else {
            init.push(ps.last())
        }
    }
}

pub open spec fn unique_param_names(ps: Seq<EndpointParameter>) -> bool {
    forall|i: int, j: int| 0 <= i < j < ps.len() ==> ps[i].name@ != ps[j].name@
}

proof fn lemma_has_name_split(ps: Seq<EndpointParameter>, name: Seq<char>)
    requires
        ps.len() > 0,
    ensures
        has_param_name(ps, name) == (has_param_name(ps.drop_last(), name) || ps.last().name@
            == name),
{
    if has_param_name(ps, name) {
        let i = choose|i: int| 0 <= i < ps.len() && ps[i].name@ == name;
        if i < ps.len() - 1 {
            assert(ps.drop_last()[i].name@ == name);
        }
    }
    if has_param_name(ps.drop_last(), name) {
        let i = choose|i: int| 0 <= i < ps.drop_last().len() && ps.drop_last()[i].name@ == name;
        assert(ps[i].name@ == name);
    }
    if ps.last().name@ == name {
        assert(ps[ps.len() - 1].name@ == name);
    }
}

proof fn lemma_has_name_push(ps: Seq<EndpointParameter>, p: EndpointParameter, name: Seq<char>)
    ensures
        has_param_name(ps.push(p), name) == (has_param_name(ps, name) || p.name@ == name),
{
    assert(ps.push(p).drop_last() =~= ps);
    assert(ps.push(p).last() == p);
    lemma_has_name_split(ps.push(p), name);
}

proof fn lemma_dedup_len_le(ps: Seq<EndpointParameter>)
    ensures
        dedup_params(ps).len() <= ps.len(),
    decreases ps.len(),
{
    if ps.len() > 0 {
        lemma_dedup_len_le(ps.drop_last());
    }
}

pub proof fn lemma_dedup_unique(ps: Seq<EndpointParameter>)
    ensures
        unique_param_names(dedup_params(ps)),
    decreases ps.len(),
{
    if ps.len() > 0 {
        lemma_dedup_unique(ps.drop_last());
        let init = dedup_params(ps.drop_last());
        if !has_param_name(init, ps.last().name@) {
            let d = dedup_params(ps);
            assert forall|i: int, j: int| 0 <= i < j < d.len() implies d[i].name@ != d[j].name@ by {
                if j == d.len() - 1 {
                    assert(d[i] == init[i]);
                    if d[i].name@ == ps.last().name@ {
                        assert(has_param_name(init, ps.last().name@));
                    }
                }
            }
        }
    }
}

pub proof fn lemma_dedup_of_unique(ps: Seq<EndpointParameter>)
    requires
        unique_param_names(ps),
    ensures
        dedup_params(ps) == ps,
    decreases ps.len(),
{
    if ps.len() > 0 {
        assert(unique_param_names(ps.drop_last())) by {
            assert forall|i: int, j: int|
                0 <= i < j < ps.drop_last().len() implies ps.drop_last()[i].name@
                != ps.drop_last()[j].name@ by {
                assert(ps[i].name@ != ps[j].name@);
            }
        }
        lemma_dedup_of_unique(ps.drop_last());
        if has_param_name(ps.drop_last(), ps.last().name@) {
            let i = choose|i: int|
                0 <= i < ps.drop_last().len() && ps.drop_last()[i].name@ == ps.last().name@;
            assert(ps[i].name@ == ps[ps.len() - 1].name@);
            assert(false);
        }
        assert(dedup_params(ps) =~= ps);
    }
}

/// Deduplicating twice changes nothing.
pub proof fn lemma_dedup_idempotent(ps: Seq<EndpointParameter>)
    ensures
        dedup_params(dedup_params(ps)) == dedup_params(ps),
{
    lemma_dedup_unique(ps);
    lemma_dedup_of_unique(dedup_params(ps));
}

/// The deduped required parameters of an endpoint parameter list.
pub open spec fn required_params(ps: Seq<EndpointParameter>) -> Seq<EndpointParameter> {
    dedup_params(ps).filter(|p: EndpointParameter| param_required(p))
}

/// The deduped optional parameters of an endpoint parameter list.
pub open spec fn optional_params(ps: Seq<EndpointParameter>) -> Seq<EndpointParameter> {
    dedup_params(ps).filter(|p: EndpointParameter| !param_required(p))
}

pub open spec fn filled_of(ms: Seq<ParameterMatch>, ps: Seq<EndpointParameter>) -> Seq<
    EndpointParameter,
> {
    ps.filter(|p: EndpointParameter| param_filled(ms, p.name@))
}

pub open spec fn unfilled_of(ms: Seq<ParameterMatch>, ps: Seq<EndpointParameter>) -> Seq<
    EndpointParameter,
> {
    ps.filter(|p: EndpointParameter| !param_filled(ms, p.name@))
}

pub open spec fn missing_pairs(ps: Seq<EndpointParameter>) -> Seq<(Seq<char>, Seq<char>)> {
    ps.map_values(|p: EndpointParameter| (p.name@, p.description@))
}

/// The (name, description) pairs of a list of missing fields.
pub open spec fn missing_view(fs: Seq<MissingField>) -> Seq<(Seq<char>, Seq<char>)> {
    fs.map_values(|f: MissingField| (f.name@, f.description@))
}

/// The completion percentage: the share of required parameters that are
/// filled, or 100 when none are required.
pub open spec fn completion_percentage_spec(mapped: int, total: int) -> int {
    if total > 0 {
        100 * mapped / total
    } else {
        100
    }
}

/// The status rule: complete when nothing required is missing, partial when
/// something required is filled, incomplete otherwise.
pub open spec fn status_spec(mapped: int, total: int) -> MatchingStatus {
    if total == 0 || mapped == total {
        MatchingStatus::Complete
    } else if mapped > 0 {
        MatchingStatus::Partial
    } else {
        MatchingStatus::Incomplete
    }
}

/// True when `r` is the matching report for resolved matches `ms` against the
/// endpoint parameter list `ps`.
pub open spec fn matching_info_spec(
    r: MatchingInfo,
    ms: Seq<ParameterMatch>,
    ps: Seq<EndpointParameter>,
) -> bool {
    let reqs = required_params(ps);
    let opts = optional_params(ps);
    &&& r.total_required_fields == reqs.len()
    &&& r.mapped_required_fields == filled_of(ms, reqs).len()
    &&& r.total_optional_fields == opts.len()
    &&& r.mapped_optional_fields == filled_of(ms, opts).len()
    &&& missing_view(r.missing_required_fields@) == missing_pairs(unfilled_of(ms, reqs))
    &&& missing_view(r.missing_optional_fields@) == missing_pairs(unfilled_of(ms, opts))
    &&& r.completion_percentage == completion_percentage_spec(
        r.mapped_required_fields as int,
        r.total_required_fields as int,
    )
    &&& r.status == status_spec(r.mapped_required_fields as int, r.total_required_fields as int)
}

/// Finds the first resolved match with the given name and tests it for
/// content.
pub fn lookup_filled(ms: &Vec<ParameterMatch>, name: &String) -> (r: bool)
    ensures
        r == param_filled(ms@, name@),
{
    let n = ms.len();
    let mut i: usize = 0;
    proof {
        assert(ms@.subrange(0, n as int) =~= ms@);
    }
    while i < n
        invariant
            n == ms@.len(),
            0 <= i <= n,
            find_match(ms@, name@) == find_match(ms@.subrange(i as int, n as int), name@),
        decreases n - i,
    {
        proof {
            let rem = ms@.subrange(i as int, n as int);
            assert(rem[0] == ms@[i as int]);
            assert(rem.subrange(1, rem.len() as int) =~= ms@.subrange(i + 1 as int, n as int));
        }
        if ms[i].name == *name {
            match &ms[i].value {
                Some(v) => {
                    return !is_blank(v.as_str());
                },
                None => {
                    return false;
                },
            }
        }
        i = i + 1;
    }
    proof {
        assert(ms@.subrange(n as int, n as int) =~= Seq::<ParameterMatch>::empty());
    }
    false
}

fn contains_name(names: &Vec<String>, name: &String) -> (r: bool)
    ensures
        r == exists|i: int| 0 <= i < names@.len() && names@[i]@ == name@,
{
    let n = names.len();
    let mut i: usize = 0;
    while i < n
        invariant
            n == names@.len(),
            0 <= i <= n,
            forall|j: int| 0 <= j < i ==> names@[j]@ != name@,
        decreases n - i,
    {
        if names[i] == *name {
            return true;
        }
        i = i + 1;
    }
    false
}

impl MatchingInfo {
    /// Computes the matching report for resolved matches against an endpoint's
    /// parameter list.  The parameter list is deduplicated by name (first
    /// occurrence wins) before anything is counted, so a name declared twice
    /// contributes once.
    ///
    /// The report satisfies, for all inputs: the mapped counts never exceed
    /// the totals, the completion percentage lies between 0 and 100, and the
    /// status is `Complete` exactly when nothing required is missing.
    pub fn compute(
        parameters: &Vec<ParameterMatch>,
        endpoint_params: &Vec<EndpointParameter>,
    ) -> (r: MatchingInfo)
        ensures
            matching_info_spec(r, parameters@, endpoint_params@),
            r.mapped_required_fields <= r.total_required_fields,
            r.mapped_optional_fields <= r.total_optional_fields,
            0 <= r.completion_percentage <= 100,
            (r.status == MatchingStatus::Complete) <==> (r.total_required_fields == 0
                || r.mapped_required_fields == r.total_required_fields),
    {
        let ghost ms = parameters@;
        let n = endpoint_params.len();
        let mut seen: Vec<String> = Vec::new();
        let mut total_required: usize = 0;
        let mut mapped_required: usize = 0;
        let mut total_optional: usize = 0;
        let mut mapped_optional: usize = 0;
        let mut missing_required: Vec<MissingField> = Vec::new();
        let mut missing_optional: Vec<MissingField> = Vec::new();
        let mut i: usize = 0;
        proof {
            assert(endpoint_params@.subrange(0, 0) =~= Seq::<EndpointParameter>::empty());
        }
        while i < n
            invariant
                n == endpoint_params@.len(),
                0 <= i <= n,
                ms == parameters@,
                views_eq_names(seen@, dedup_params(endpoint_params@.subrange(0, i as int))),
                total_required == required_params(endpoint_params@.subrange(0, i as int)).len(),
                mapped_required == filled_of(
                    ms,
                    required_params(endpoint_params@.subrange(0, i as int)),
                ).len(),
                total_optional == optional_params(endpoint_params@.subrange(0, i as int)).len(),
                mapped_optional == filled_of(
                    ms,
                    optional_params(endpoint_params@.subrange(0, i as int)),
                ).len(),
                missing_view(missing_required@) == missing_pairs(unfilled_of(
                    ms,
                    required_params(endpoint_params@.subrange(0, i as int)),
                )),
                missing_view(missing_optional@) == missing_pairs(unfilled_of(
                    ms,
                    optional_params(endpoint_params@.subrange(0, i as int)),
                )),
            decreases n - i,
        {
            let ghost pre = endpoint_params@.subrange(0, i as int);
            let ghost pre1 = endpoint_params@.subrange(0, i + 1 as int);
            let ghost p = endpoint_params@[i as int];
            proof {
                assert(pre1.drop_last() =~= pre);
                assert(pre1.last() == p);
            }
            let dup = contains_name(&seen, &endpoint_params[i].name);
            proof {
                if dup {
                    let k = choose|k: int| 0 <= k < seen@.len() && seen@[k]@ == p.name@;
                    assert(dedup_params(pre)[k].name@ == p.name@);
                }
                if has_param_name(dedup_params(pre), p.name@) {
                    let k = choose|k: int|
                        0 <= k < dedup_params(pre).len() && dedup_params(pre)[k].name@ == p.name@;
                    assert(seen@[k]@ == p.name@);
                }
                assert(dup == has_param_name(dedup_params(pre), p.name@));
                lemma_dedup_len_le(pre);
                lemma_filter_len_le(dedup_params(pre), |q: EndpointParameter| param_required(q));
                lemma_filter_len_le(dedup_params(pre), |q: EndpointParameter| !param_required(q));
                lemma_filter_len_le(
                    required_params(pre),
                    |q: EndpointParameter| param_filled(ms, q.name@),
                );
                lemma_filter_len_le(
                    optional_params(pre),
                    |q: EndpointParameter| param_filled(ms, q.name@),
                );
            }
            if !dup {
                proof {
                    assert(dedup_params(pre1) == dedup_params(pre).push(p));
                    lemma_filter_push(
                        dedup_params(pre),
                        p,
                        |q: EndpointParameter| param_required(q),
                    );
                    lemma_filter_push(
                        dedup_params(pre),
                        p,
                        |q: EndpointParameter| !param_required(q),
                    );
                }
                seen.push(endpoint_params[i].name.clone());
                proof {
                    assert(views_eq_names(seen@, dedup_params(pre1)));
                }
                let required = match &endpoint_params[i].required {
                    Some(b) => *b,
                    None => false,
                };
                let filled = lookup_filled(parameters, &endpoint_params[i].name);
                proof {
                    assert(required == param_required(p));
                    assert(filled == param_filled(ms, p.name@));
                }
                if required {
                    total_required = total_required + 1;
                    proof {
                        lemma_filter_push(
                            required_params(pre),
                            p,
                            |q: EndpointParameter| param_filled(ms, q.name@),
                        );
                        lemma_filter_push(
                            required_params(pre),
                            p,
                            |q: EndpointParameter| !param_filled(ms, q.name@),
                        );
                    }
                    if filled {
                        mapped_required = mapped_required + 1;
                    } else {
                        let ghost om = missing_required@;
                        missing_required.push(
                            MissingField {
                                name: endpoint_params[i].name.clone(),
                                description: endpoint_params[i].description.clone(),
                            },
                        );
                        proof {
                            let f = missing_required@.last();
                            assert(f.name@ == p.name@ && f.description@ == p.description@);
                            assert(missing_view(missing_required@) =~= missing_view(om).push(
                                (p.name@, p.description@),
                            ));
                            assert(unfilled_of(ms, required_params(pre1)) == unfilled_of(
                                ms,
                                required_params(pre),
                            ).push(p));
                            assert(missing_pairs(unfilled_of(ms, required_params(pre1)))
                                =~= missing_pairs(unfilled_of(ms, required_params(pre))).push(
                                (p.name@, p.description@),
                            ));
                        }
                    }
                } else {
                    total_optional = total_optional + 1;
                    proof {
                        lemma_filter_push(
                            optional_params(pre),
                            p,
                            |q: EndpointParameter| param_filled(ms, q.name@),
                        );
                        lemma_filter_push(
                            optional_params(pre),
                            p,
                            |q: EndpointParameter| !param_filled(ms, q.name@),
                        );
                    }
                    if filled {
                        mapped_optional = mapped_optional + 1;
                    } else {
                        let ghost om = missing_optional@;
                        missing_optional.push(
                            MissingField {
                                name: endpoint_params[i].name.clone(),
                                description: endpoint_params[i].description.clone(),
                            },
                        );
                        proof {
                            let f = missing_optional@.last();
                            assert(f.name@ == p.name@ && f.description@ == p.description@);
                            assert(missing_view(missing_optional@) =~= missing_view(om).push(
                                (p.name@, p.description@),
                            ));
                            assert(unfilled_of(ms, optional_params(pre1)) == unfilled_of(
                                ms,
                                optional_params(pre),
                            ).push(p));
                            assert(missing_pairs(unfilled_of(ms, optional_params(pre1)))
                                =~= missing_pairs(unfilled_of(ms, optional_params(pre))).push(
                                (p.name@, p.description@),
                            ));
                        }
                    }
                }
            } else {
                proof {
                    assert(dedup_params(pre1) == dedup_params(pre));
                }
            }
            i = i + 1;
        }
        proof {
            assert(endpoint_params@.subrange(0, n as int) =~= endpoint_params@);
            lemma_filter_len_le(
                required_params(endpoint_params@),
                |q: EndpointParameter| param_filled(ms, q.name@),
            );
            lemma_filter_len_le(
                optional_params(endpoint_params@),
                |q: EndpointParameter| param_filled(ms, q.name@),
            );
        }
        let completion_percentage: u32 = if total_required > 0 {
            proof {
                assert(100 * (mapped_required as int) / (total_required as int) <= 100) by (
                nonlinear_arith)
                    requires
                        0 < total_required as int,
                        mapped_required as int <= total_required as int,
                ;
                assert(100 * (mapped_required as int) / (total_required as int) >= 0) by (
                nonlinear_arith)
                    requires
                        0 < total_required as int,
                        0 <= mapped_required as int,
                ;
            }
            (((mapped_required as u128) * 100) / (total_required as u128)) as u32
        } else {
            100
        };
        let status = if total_required == 0 || mapped_required == total_required {
            MatchingStatus::Complete
        } else if mapped_required > 0 {
            MatchingStatus::Partial
        } else {
            MatchingStatus::Incomplete
        };
        MatchingInfo {
            status,
            total_required_fields: total_required,
            mapped_required_fields: mapped_required,
            total_optional_fields: total_optional,
            mapped_optional_fields: mapped_optional,
            completion_percentage,
            missing_required_fields: missing_required,
            missing_optional_fields: missing_optional,
        }
    }
}

/// The space-normalised form of a field name: underscores and dashes become
/// spaces.
pub open spec fn natural_name_spec(name: Seq<char>) -> Seq<char> {
    replace_spec(replace_spec(name, "_"@, " "@), "-"@, " "@)
}

/// How a missing field is referred to in a follow-up question: by its
/// description when that is more than five characters longer than the
/// space-normalised name and does not begin with "missing parameter",
/// otherwise as "the <name>".
pub open spec fn field_request_spec(name: Seq<char>, desc: Seq<char>) -> Seq<char> {
    let natural = natural_name_spec(name);
    if desc.len() > natural.len() + 5 && !starts_with_seq(lower(desc), "missing parameter"@) {
        lower(desc)
    } else {
        "the "@ + natural
    }
}

pub open spec fn field_list_spec(missing: Seq<(Seq<char>, Seq<char>)>) -> Seq<Seq<char>> {
    missing.map_values(|m: (Seq<char>, Seq<char>)| field_request_spec(m.0, m.1))
}

/// The natural-language follow-up asking for the missing required fields:
/// none when nothing is missing, and one of three templates depending on
/// whether one, two, or more fields are missing.
pub open spec fn user_prompt_spec(
    endpoint_name: Seq<char>,
    missing: Seq<(Seq<char>, Seq<char>)>,
) -> Option<Seq<char>> {
    if missing.len() == 0 {
        None
    } else if missing.len() == 1 {
        Some(
            "To proceed with "@ + lower(endpoint_name)
                + ", I need one more piece of information: "@ + field_request_spec(
                missing[0].0,
                missing[0].1,
            ) + ". Could you please provide that?"@,
        )
    } else if missing.len() == 2 {
        Some(
            "To complete your "@ + lower(endpoint_name) + " request, I need "@
                + field_request_spec(missing[0].0, missing[0].1) + " and "@ + field_request_spec(
                missing[1].0,
                missing[1].1,
            ) + ". Could you provide these details?"@,
        )
    } else {
        let frs = field_list_spec(missing);
        Some(
            "To process your "@ + lower(endpoint_name) + " request, I need a few more details: "@
                + crate::text::join_with(frs.drop_last(), ", "@) + ", and "@ + frs.last()
                + ". Could you provide this information?"@,
        )
    }
}

/// Renders the reference to one missing field.
pub fn format_field_request(field_name: &str, field_description: &str) -> (r: String)
    ensures
        r@ == field_request_spec(field_name@, field_description@),
{
    proof {
        reveal_strlit("_");
        reveal_strlit("-");
        reveal_strlit(" ");
    }
    let natural = replace_all(&replace_all(field_name, "_", " "), "-", " ");
    let desc_len = field_description.unicode_len();
    let nat_len = natural.unicode_len();
    let desc_lower = to_lowercase(field_description);
    if desc_len > nat_len && desc_len - nat_len > 5 && !starts_with_str(
        desc_lower.as_str(),
        "missing parameter",
    ) {
        desc_lower
    } else {
        let mut out = String::from_str("the ");
        out.append(natural.as_str());
        out
    }
}

impl MatchingInfo {
    /// Builds the natural-language follow-up for the missing required fields,
    /// or nothing when every required field is filled.
    pub fn generate_user_prompt(&self, endpoint_name: &str) -> (r: Option<String>)
        ensures
            opt_view(r) == user_prompt_spec(
                endpoint_name@,
                missing_view(self.missing_required_fields@),
            ),
    {
        let ghost mv = missing_view(self.missing_required_fields@);
        let k = self.missing_required_fields.len();
        if k == 0 {
            return None;
        }
        let lowered = to_lowercase(endpoint_name);
        if k == 1 {
            let f = &self.missing_required_fields[0];
            let fr = format_field_request(f.name.as_str(), f.description.as_str());
            let mut out = String::from_str("To proceed with ");
            out.append(lowered.as_str());
            out.append(", I need one more piece of information: ");
            out.append(fr.as_str());
            out.append(". Could you please provide that?");
            proof {
                assert(mv[0] == (f.name@, f.description@));
            }
            Some(out)
        } else if k == 2 {
            let f0 = &self.missing_required_fields[0];
            let f1 = &self.missing_required_fields[1];
            let fr0 = format_field_request(f0.name.as_str(), f0.description.as_str());
            let fr1 = format_field_request(f1.name.as_str(), f1.description.as_str());
            let mut out = String::from_str("To complete your ");
            out.append(lowered.as_str());
            out.append(" request, I need ");
            out.append(fr0.as_str());
            out.append(" and ");
            out.append(fr1.as_str());
            out.append(". Could you provide these details?");
            proof {
                assert(mv[0] == (f0.name@, f0.description@));
                assert(mv[1] == (f1.name@, f1.description@));
            }
            Some(out)
        } else {
            let mut initial: Vec<String> = Vec::new();
            let mut i: usize = 0;
            while i < k - 1
                invariant
                    k == self.missing_required_fields@.len() >= 3,
                    mv == missing_view(self.missing_required_fields@),
                    0 <= i <= k - 1,
                    crate::text::views_of(initial@) == field_list_spec(mv).subrange(0, i as int),
                decreases k - 1 - i,
            {
                let f = &self.missing_required_fields[i];
                let fr = format_field_request(f.name.as_str(), f.description.as_str());
                let ghost oi = initial@;
                initial.push(fr);
                proof {
                    assert(mv[i as int] == (f.name@, f.description@));
                    assert(crate::text::views_of(oi).len() == oi.len());
                    assert(oi.len() == i as int);
                    assert(initial@ == oi.push(fr));
                    let lhs = crate::text::views_of(initial@);
                    let rhs = field_list_spec(mv).subrange(0, i + 1 as int);
                    assert forall|j: int| 0 <= j < i + 1 implies lhs[j] == rhs[j] by {
                        if j < i {
                            assert(crate::text::views_of(oi)[j] == field_list_spec(mv).subrange(
                                0,
                                i as int,
                            )[j]);
                            assert(initial@[j] == oi[j]);
                        } else {
                            assert(initial@[j] == fr);
                            assert(field_list_spec(mv)[j] == field_request_spec(mv[j].0, mv[j].1));
                        }
                    }
                    assert(lhs =~= rhs);
                }
                i = i + 1;
            }
            let joined = crate::text::join_with_strings(&initial, ", ");
            let fl = &self.missing_required_fields[k - 1];
            let fr_last = format_field_request(fl.name.as_str(), fl.description.as_str());
            let mut out = String::from_str("To process your ");
            out.append(lowered.as_str());
            out.append(" request, I need a few more details: ");
            out.append(joined.as_str());
            out.append(", and ");
            out.append(fr_last.as_str());
            out.append(". Could you provide this information?");
            proof {
                let frs = field_list_spec(mv);
                assert(crate::text::views_of(initial@) =~= frs.drop_last());
                assert(mv[k - 1] == (fl.name@, fl.description@));
                assert(frs.last() == field_request_spec(fl.name@, fl.description@));
            }
            Some(out)
        }
    }
}

/// The views of a parameter list.
pub open spec fn params_view(ps: Seq<EndpointParameter>) -> Seq<EndpointParameterView> {
    ps.map_values(|p: EndpointParameter| p@)
}

/// The views of a match list.
pub open spec fn matches_view(ms: Seq<ParameterMatch>) -> Seq<ParameterMatchView> {
    ms.map_values(|m: ParameterMatch| m@)
}

/// Clones an optional string with its contents known to the verifier.
pub fn clone_opt_string(o: &Option<String>) -> (r: Option<String>)
    ensures
        opt_view(r) == opt_view(*o),
{
    match o {
        Some(s) => Some(crate::endpoint_client::string_clone(s)),
        None => None,
    }
}

/// Clones an optional string list with its contents known to the verifier.
pub fn clone_opt_string_vec(o: &Option<Vec<String>>) -> (r: Option<Vec<String>>)
    ensures
        opt_views(r) == opt_views(*o),
{
    match o {
        Some(v) => {
            let n = v.len();
            let mut out: Vec<String> = Vec::new();
            let mut i: usize = 0;
            while i < n
                invariant
                    n == v@.len(),
                    0 <= i <= n,
                    out@.len() == i,
                    forall|q: int| 0 <= q < i ==> (#[trigger] out@[q])@ == v@[q]@,
                decreases n - i,
            {
                let s = crate::endpoint_client::string_clone(&v[i]);
                out.push(s);
                i = i + 1;
            }
            proof {
                assert(out@.map_values(|x: String| x@) =~= v@.map_values(|x: String| x@));
            }
            Some(out)
        },
        None => None,
    }
}

/// Clones an endpoint parameter with its contents known to the verifier.
pub fn clone_param(p: &EndpointParameter) -> (r: EndpointParameter)
    ensures
        r@ == p@,
{
    EndpointParameter {
        name: crate::endpoint_client::string_clone(&p.name),
        description: crate::endpoint_client::string_clone(&p.description),
        required: match &p.required {
            Some(b) => Some(*b),
            None => None,
        },
        alternatives: clone_opt_string_vec(&p.alternatives),
        semantic_value: clone_opt_string(&p.semantic_value),
    }
}

/// Clones a parameter match with its contents known to the verifier.
pub fn clone_match(m: &ParameterMatch) -> (r: ParameterMatch)
    ensures
        r@ == m@,
{
    ParameterMatch {
        name: crate::endpoint_client::string_clone(&m.name),
        description: crate::endpoint_client::string_clone(&m.description),
        value: clone_opt_string(&m.value),
    }
}

pub struct EndpointView {
    pub id: Seq<char>,
    pub text: Seq<char>,
    pub description: Seq<char>,
    pub parameters: Seq<EndpointParameterView>,
}

impl View for Endpoint {
    type V = EndpointView;

    open spec fn view(&self) -> EndpointView {
        EndpointView {
            id: self.id@,
            text: self.text@,
            description: self.description@,
            parameters: params_view(self.parameters@),
        }
    }
}

pub struct EnhancedEndpointView {
    pub id: Seq<char>,
    pub name: Seq<char>,
    pub text: Seq<char>,
    pub description: Seq<char>,
    pub verb: Seq<char>,
    pub base: Seq<char>,
    pub path: Seq<char>,
    pub essential_path: Seq<char>,
    pub api_group_id: Seq<char>,
    pub api_group_name: Seq<char>,
    pub parameters: Seq<EndpointParameterView>,
}

impl View for EnhancedEndpoint {
    type V = EnhancedEndpointView;

    open spec fn view(&self) -> EnhancedEndpointView {
        EnhancedEndpointView {
            id: self.id@,
            name: self.name@,
            text: self.text@,
            description: self.description@,
            verb: self.verb@,
            base: self.base@,
            path: self.path@,
            essential_path: self.essential_path@,
            api_group_id: self.api_group_id@,
            api_group_name: self.api_group_name@,
            parameters: params_view(self.parameters@),
        }
    }
}

/// Clones a parameter list with its contents known to the verifier.
pub fn clone_params(ps: &Vec<EndpointParameter>) -> (r: Vec<EndpointParameter>)
    ensures
        params_view(r@) == params_view(ps@),
{
    let n = ps.len();
    let mut out: Vec<EndpointParameter> = Vec::new();
    let mut i: usize = 0;
    while i < n
        invariant
            n == ps@.len(),
            0 <= i <= n,
            out@.len() == i,
            forall|q: int| 0 <= q < i ==> (#[trigger] out@[q])@ == ps@[q]@,
        decreases n - i,
    {
        let p = clone_param(&ps[i]);
        out.push(p);
        i = i + 1;
    }
    proof {
        assert(params_view(out@) =~= params_view(ps@));
    }
    out
}

/// Clones an enriched endpoint with its contents known to the verifier.
pub fn clone_enhanced(e: &EnhancedEndpoint) -> (r: EnhancedEndpoint)
    ensures
        r@ == e@,
{
    EnhancedEndpoint {
        id: crate::endpoint_client::string_clone(&e.id),
        name: crate::endpoint_client::string_clone(&e.name),
        text: crate::endpoint_client::string_clone(&e.text),
        description: crate::endpoint_client::string_clone(&e.description),
        verb: crate::endpoint_client::string_clone(&e.verb),
        base: crate::endpoint_client::string_clone(&e.base),
        path: crate::endpoint_client::string_clone(&e.path),
        essential_path: crate::endpoint_client::string_clone(&e.essential_path),
        api_group_id: crate::endpoint_client::string_clone(&e.api_group_id),
        api_group_name: crate::endpoint_client::string_clone(&e.api_group_name),
        parameters: clone_params(&e.parameters),
    }
}

/// The names in `seen` are exactly the names of `ps`, in order.
pub open spec fn views_eq_names(seen: Seq<String>, ps: Seq<EndpointParameter>) -> bool {
    &&& seen.len() == ps.len()
    &&& forall|i: int| 0 <= i < seen.len() ==> seen[i]@ == ps[i].name@
}

/// The matching report ignores duplicate parameter definitions: every quantity
/// it is built from is unchanged when the parameter list is replaced by its
/// deduplication.
pub proof fn lemma_matching_dedup_invariant(ms: Seq<ParameterMatch>, ps: Seq<EndpointParameter>)
    ensures
        required_params(dedup_params(ps)) == required_params(ps),
        optional_params(dedup_params(ps)) == optional_params(ps),
        filled_of(ms, required_params(dedup_params(ps))) == filled_of(ms, required_params(ps)),
        filled_of(ms, optional_params(dedup_params(ps))) == filled_of(ms, optional_params(ps)),
        unfilled_of(ms, required_params(dedup_params(ps))) == unfilled_of(ms, required_params(ps)),
        unfilled_of(ms, optional_params(dedup_params(ps))) == unfilled_of(ms, optional_params(ps)),
{
    lemma_dedup_idempotent(ps);
}

/// A report computed against a parameter list and one computed against the
/// same list with duplicates removed agree on every clause of the
/// specification.
pub proof fn lemma_matching_info_dedup(
    r: MatchingInfo,
    ms: Seq<ParameterMatch>,
    ps: Seq<EndpointParameter>,
)
    ensures
        matching_info_spec(r, ms, ps) == matching_info_spec(r, ms, dedup_params(ps)),
{
    lemma_matching_dedup_invariant(ms, ps);
}


/// The payload reported back with an analysis: the extracted JSON document,
/// or a typed descriptor for the synthesized responses.
#[derive(Debug)]
pub enum RawPayload {
    /// The payload extracted by the workflow.
    Extracted(crate::jsonval::JsonNode),
    /// A progressive match that just completed.
    ProgressiveComplete { endpoint_id: String },
    /// A progressive match that is still incomplete.
    ProgressivePartial {
        endpoint_id: String,
        completion_percentage: u32,
        missing_parameters: Vec<String>,
    },
    /// A help answer, with the number of capabilities listed.
    HelpRequest { response: String, capabilities_count: usize },
    /// A conversational answer to a general question.
    GeneralConversation { response: String },
    /// A conversational answer substituted after the actionable flow failed.
    GeneralConversationFallback { response: String },
}

/// The pipeline's output record.
#[derive(Debug)]
pub struct EnhancedAnalysisResult {
    pub endpoint_id: String,
    pub endpoint_name: String,
    pub endpoint_description: String,
    pub verb: String,
    pub base: String,
    pub path: String,
    pub user_prompt: Option<String>,
    pub essential_path: String,
    pub api_group_id: String,
    pub api_group_name: String,
    pub parameters: Vec<ParameterMatch>,
    pub raw_json: RawPayload,
    pub conversation_id: Option<String>,
    pub matching_info: MatchingInfo,
    pub total_input_tokens: u32,
    pub total_output_tokens: u32,
    pub usage: UsageInfo,
    pub intent: crate::classify_intent::IntentType,
}


/// The names of parameter definitions that repeat an earlier definition's
/// name, in order of appearance: one entry per repeated occurrence.
pub open spec fn duplicate_names(ps: Seq<EndpointParameter>) -> Seq<Seq<char>>
    decreases ps.len(),
{
    if ps.len() == 0 {
        Seq::<Seq<char>>::empty()
    } else {
        let init = duplicate_names(ps.drop_last());
        if has_param_name(ps.drop_last(), ps.last().name@) {
            init.push(ps.last().name@)
        } else {
            init
        }
    }
}

/// Inspects how resolved matches line up with the endpoint's parameter
/// definitions, and reports the names of duplicated parameter definitions:
/// one entry for every occurrence that repeats an earlier name.
pub fn debug_parameter_matches(
    parameter_matches: &Vec<ParameterMatch>,
    endpoint_params: &Vec<EndpointParameter>,
) -> (r: Vec<String>)
    ensures
        crate::text::views_of(r@) == duplicate_names(endpoint_params@),
        parameter_matches@.len() >= 0,
{
    let n = endpoint_params.len();
    let mut out: Vec<String> = Vec::new();
    let mut i: usize = 0;
    proof {
        assert(endpoint_params@.subrange(0, 0) =~= Seq::<EndpointParameter>::empty());
        assert(crate::text::views_of(out@) =~= duplicate_names(
            endpoint_params@.subrange(0, 0),
        ));
    }
    while i < n
        invariant
            n == endpoint_params@.len(),
            0 <= i <= n,
            crate::text::views_of(out@) == duplicate_names(
                endpoint_params@.subrange(0, i as int),
            ),
        decreases n - i,
    {
        let ghost pre = endpoint_params@.subrange(0, i as int);
        let ghost pre1 = endpoint_params@.subrange(0, i + 1 as int);
        proof {
            assert(pre1.drop_last() =~= pre);
            assert(pre1.last() == endpoint_params@[i as int]);
        }
        let mut seen = false;
        let mut j: usize = 0;
        while j < i && !seen
            invariant
                0 <= j <= i < n == endpoint_params@.len(),
                pre == endpoint_params@.subrange(0, i as int),
                !seen ==> forall|q: int|
                    0 <= q < j ==> pre[q].name@ != endpoint_params@[i as int].name@,
                seen ==> has_param_name(pre, endpoint_params@[i as int].name@),
            decreases i - j + (if seen { 0int } else { 1int }),
        {
            proof {
                assert(pre[j as int] == endpoint_params@[j as int]);
            }
            if crate::text::str_eq(
                endpoint_params[j].name.as_str(),
                endpoint_params[i].name.as_str(),
            ) {
                seen = true;
            } else {
                j = j + 1;
            }
        }
        if seen {
            let ghost ov = out@;
            let nm = crate::endpoint_client::string_clone(&endpoint_params[i].name);
            out.push(nm);
            proof {
                assert(has_param_name(pre, pre1.last().name@));
                assert(crate::text::views_of(out@) =~= crate::text::views_of(ov).push(
                    pre1.last().name@,
                ));
            }
        } else {
            proof {
                if has_param_name(pre, pre1.last().name@) {
                    let q = choose|q: int| 0 <= q < pre.len() && pre[q].name@ == pre1.last().name@;
                    assert(false);
                }
            }
        }
        i = i + 1;
    }
    proof {
        assert(endpoint_params@.subrange(0, n as int) =~= endpoint_params@);
    }
    out
}

} // verus!
