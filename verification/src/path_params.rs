//! Discovery of `{name}` placeholders in an endpoint path, and the synthetic
//! required parameters they induce.

use vstd::prelude::*;
use crate::text::{chars_of, string_of, views_of};
use crate::models::{EndpointParameter, EndpointParameterView, ParameterMatch, ParameterMatchView,
    EnhancedEndpoint, params_view, matches_view, clone_param};
use crate::endpoint_client::string_clone;

verus! {

/// The first index at or after `from` holding `c`, or the length when `c`
/// does not occur there.
pub open spec fn find_char_from(s: Seq<char>, c: char, from: int) -> int
    decreases s.len() - from,
{
    if from < 0 || from >= s.len() {
        s.len() as int
    } else if s[from] == c {
        from
    } else {
        find_char_from(s, c, from + 1)
    }
}

proof fn lemma_find_char(s: Seq<char>, c: char, from: int, j: int)
    requires
        0 <= from <= j <= s.len(),
        forall|k: int| from <= k < j ==> s[k] != c,
        j < s.len() ==> s[j] == c,
    ensures
        find_char_from(s, c, from) == j,
    decreases j - from,
{
    if from < j {
        lemma_find_char(s, c, from + 1, j);
    }
}

/// The `{name}` placeholders of a path, in order of appearance: a `{`
/// followed by at least one character other than `}` and then a `}` yields
/// the enclosed name; everything else is skipped.
pub open spec fn path_param_names(s: Seq<char>) -> Seq<Seq<char>>
    decreases s.len(),
{
    if s.len() == 0 {
        Seq::<Seq<char>>::empty()
    } else if s[0] == '{' {
        let j = find_char_from(s, '}', 1);
        if j < s.len() && j > 1 {
            seq![s.subrange(1, j)] + path_param_names(s.subrange(j + 1, s.len() as int))
        } else if j < s.len() {
            path_param_names(s.subrange(1, s.len() as int))
        } else {
            Seq::<Seq<char>>::empty()
        }
    } else {
        path_param_names(s.subrange(1, s.len() as int))
    }
}

/// A path in which `{` never occurs yields no placeholders.
pub proof fn lemma_no_braces_no_params(s: Seq<char>)
    requires
        forall|i: int| 0 <= i < s.len() ==> s[i] != '{',
    ensures
        path_param_names(s) == Seq::<Seq<char>>::empty(),
    decreases s.len(),
{
    if s.len() > 0 {
        let rest = s.subrange(1, s.len() as int);
        assert(forall|i: int| 0 <= i < rest.len() ==> rest[i] != '{');
        lemma_no_braces_no_params(rest);
    }
}

/// Scans a path for `{name}` placeholders and returns the enclosed names in
/// order of appearance.
pub fn extract_path_params_from_path(path: &str) -> (r: Vec<String>)
    ensures
        views_of(r@) == path_param_names(path@),
{
    let v = chars_of(path);
    let n = v.len();
    let mut out: Vec<String> = Vec::new();
    let mut i: usize = 0;
    proof {
        assert(path@.subrange(0, n as int) =~= path@);
        assert(views_of(out@) + path_param_names(path@) =~= path_param_names(path@));
    }
    while i < n
        invariant
            n == v@.len(),
            v@ == path@,
            0 <= i <= n,
            path_param_names(path@) == views_of(out@) + path_param_names(
                path@.subrange(i as int, n as int),
            ),
        decreases n - i,
    {
        let ghost rem = path@.subrange(i as int, n as int);
        proof {
            assert(rem[0] == path@[i as int]);
            assert(rem.subrange(1, rem.len() as int) =~= path@.subrange(i + 1 as int, n as int));
        }
        if v[i] == '{' {
            let mut j: usize = i + 1;
            while j < n && v[j] != '}'
                invariant
                    n == v@.len(),
                    v@ == path@,
                    i + 1 <= j <= n,
                    forall|k: int| i + 1 <= k < j ==> path@[k] != '}',
                decreases n - j,
            {
                j = j + 1;
            }
            proof {
                assert forall|k: int| 1 <= k < j - i implies rem[k] != '}' by {
                    assert(rem[k] == path@[i + k]);
                }
                if j < n {
                    assert(rem[j - i] == path@[j as int]);
                }
                lemma_find_char(rem, '}', 1, j - i);
            }
            if j < n && j > i + 1 {
                let mut name: Vec<char> = Vec::new();
                let mut k: usize = i + 1;
                while k < j
                    invariant
                        i + 1 <= k <= j <= n,
                        n == v@.len(),
                        v@ == path@,
                        name@ == path@.subrange(i + 1 as int, k as int),
                    decreases j - k,
                {
                    name.push(v[k]);
                    proof {
                        assert(name@ =~= path@.subrange(i + 1 as int, k + 1 as int));
                    }
                    k = k + 1;
                }
                let ghost ov = out@;
                let nm = string_of(&name);
                out.push(nm);
                proof {
                    assert(rem.subrange(1, j - i as int) =~= path@.subrange(i + 1 as int, j as int));
                    assert(rem.subrange(j - i + 1 as int, rem.len() as int) =~= path@.subrange(
                        j + 1 as int,
                        n as int,
                    ));
                    assert(views_of(out@) =~= views_of(ov).push(path@.subrange(
                        i + 1 as int,
                        j as int,
                    )));
                    assert(views_of(out@) + path_param_names(path@.subrange(j + 1 as int, n as int))
                        =~= views_of(ov) + path_param_names(rem));
                }
                i = j + 1;
            } else if j < n {
                i = i + 1;
            } else {
                proof {
                    assert(path_param_names(rem) =~= Seq::<Seq<char>>::empty());
                    assert(views_of(out@) + Seq::<Seq<char>>::empty() =~= views_of(out@));
                    assert(path_param_names(path@.subrange(n as int, n as int))
                        =~= Seq::<Seq<char>>::empty());
                    assert(views_of(out@) + path_param_names(path@.subrange(n as int, n as int))
                        =~= views_of(out@));
                }
                i = n;
            }
        } else {
            i = i + 1;
        }
    }
    proof {
        assert(path@.subrange(n as int, n as int) =~= Seq::<char>::empty());
        assert(path_param_names(Seq::<char>::empty()) =~= Seq::<Seq<char>>::empty());
        assert(views_of(out@) + Seq::<Seq<char>>::empty() =~= views_of(out@));
    }
    out
}

/// The synthetic parameter declared for a path placeholder: required, with a
/// descriptive text naming the placeholder.
pub open spec fn synth_param(nm: Seq<char>) -> EndpointParameterView {
    EndpointParameterView {
        name: nm,
        description: "URL path parameter: "@ + nm,
        required: Some(true),
        alternatives: None,
        semantic_value: None,
    }
}

/// The synthetic unresolved match for a path placeholder.
pub open spec fn synth_match(nm: Seq<char>) -> ParameterMatchView {
    ParameterMatchView {
        name: nm,
        description: "URL path parameter: "@ + nm,
        value: None,
    }
}

pub open spec fn has_view_name(ps: Seq<EndpointParameterView>, nm: Seq<char>) -> bool {
    exists|i: int| 0 <= i < ps.len() && ps[i].name == nm
}

pub open spec fn has_match_name(ms: Seq<ParameterMatchView>, nm: Seq<char>) -> bool {
    exists|i: int| 0 <= i < ms.len() && ms[i].name == nm
}

/// Appends a synthetic parameter for each placeholder name not already
/// declared, processing names left to right.
pub open spec fn add_synth_params(
    ps: Seq<EndpointParameterView>,
    names: Seq<Seq<char>>,
) -> Seq<EndpointParameterView>
    decreases names.len(),
{
    if names.len() == 0 {
        ps
    } else {
        let ps1 = if has_view_name(ps, names[0]) {
            ps
        } else {
            ps.push(synth_param(names[0]))
        };
        add_synth_params(ps1, names.subrange(1, names.len() as int))
    }
}

/// Appends a synthetic unresolved match for each placeholder name not already
/// matched, processing names left to right.
pub open spec fn add_synth_matches(
    ms: Seq<ParameterMatchView>,
    names: Seq<Seq<char>>,
) -> Seq<ParameterMatchView>
    decreases names.len(),
{
    if names.len() == 0 {
        ms
    } else {
        let ms1 = if has_match_name(ms, names[0]) {
            ms
        } else {
            ms.push(synth_match(names[0]))
        };
        add_synth_matches(ms1, names.subrange(1, names.len() as int))
    }
}

fn has_param_named(ps: &Vec<EndpointParameter>, nm: &String) -> (r: bool)
    ensures
        r == has_view_name(params_view(ps@), nm@),
{
    let n = ps.len();
    let mut i: usize = 0;
    while i < n
        invariant
            n == ps@.len(),
            0 <= i <= n,
            forall|j: int| 0 <= j < i ==> params_view(ps@)[j].name != nm@,
        decreases n - i,
    {
        if ps[i].name == *nm {
            proof {
                assert(params_view(ps@)[i as int].name == nm@);
            }
            return true;
        }
        i = i + 1;
    }
    false
}

fn has_match_named(ms: &Vec<ParameterMatch>, nm: &String) -> (r: bool)
    ensures
        r == has_match_name(matches_view(ms@), nm@),
{
    let n = ms.len();
    let mut i: usize = 0;
    while i < n
        invariant
            n == ms@.len(),
            0 <= i <= n,
            forall|j: int| 0 <= j < i ==> matches_view(ms@)[j].name != nm@,
        decreases n - i,
    {
        if ms[i].name == *nm {
            proof {
                assert(matches_view(ms@)[i as int].name == nm@);
            }
            return true;
        }
        i = i + 1;
    }
    false
}

/// The effective parameter list of an endpoint: its declared parameters plus
/// a synthetic required parameter for each `{name}` placeholder of its path
/// that is not already declared.  The resolved matches are likewise extended
/// with unresolved entries for the new names.
pub fn add_path_parameters_to_list(
    endpoint: &EnhancedEndpoint,
    parameters: Vec<ParameterMatch>,
) -> (r: (Vec<ParameterMatch>, Vec<EndpointParameter>))
    ensures
        matches_view(r.0@) == add_synth_matches(
            matches_view(parameters@),
            path_param_names(endpoint.path@),
        ),
        params_view(r.1@) == add_synth_params(
            params_view(endpoint.parameters@),
            path_param_names(endpoint.path@),
        ),
{
    let names = extract_path_params_from_path(endpoint.path.as_str());
    let ghost all_names = path_param_names(endpoint.path@);
    let mut all_params: Vec<EndpointParameter> = Vec::new();
    let pn = endpoint.parameters.len();
    let mut i: usize = 0;
    while i < pn
        invariant
            pn == endpoint.parameters@.len(),
            0 <= i <= pn,
            all_params@.len() == i,
            forall|q: int|
                0 <= q < i ==> (#[trigger] all_params@[q])@ == endpoint.parameters@[q]@,
        decreases pn - i,
    {
        let p = clone_param(&endpoint.parameters[i]);
        all_params.push(p);
        i = i + 1;
    }
    proof {
        assert(params_view(all_params@) =~= params_view(endpoint.parameters@));
    }
    let mut matches = parameters;
    let nn = names.len();
    let mut k: usize = 0;
    proof {
        assert(all_names.subrange(0, nn as int) =~= all_names);
    }
    while k < nn
        invariant
            nn == names@.len(),
            views_of(names@) == all_names,
            0 <= k <= nn,
            add_synth_params(params_view(all_params@), all_names.subrange(k as int, nn as int))
                == add_synth_params(params_view(endpoint.parameters@), all_names),
            add_synth_matches(matches_view(matches@), all_names.subrange(k as int, nn as int))
                == add_synth_matches(matches_view(parameters@), all_names),
        decreases nn - k,
    {
        let nm = &names[k];
        let ghost rem = all_names.subrange(k as int, nn as int);
        proof {
            assert(rem[0] == all_names[k as int]);
            assert(all_names[k as int] == nm@);
            assert(rem.subrange(1, rem.len() as int) =~= all_names.subrange(
                k + 1 as int,
                nn as int,
            ));
        }
        if !has_param_named(&all_params, nm) {
            let mut desc = String::from_str("URL path parameter: ");
            desc.append(nm.as_str());
            let ghost op = all_params@;
            all_params.push(
                EndpointParameter {
                    name: string_clone(nm),
                    description: desc,
                    required: Some(true),
                    alternatives: None,
                    semantic_value: None,
                },
            );
            proof {
                assert(params_view(all_params@) =~= params_view(op).push(synth_param(nm@)));
            }
        }
        if !has_match_named(&matches, nm) {
            let mut desc = String::from_str("URL path parameter: ");
            desc.append(nm.as_str());
            let ghost om = matches@;
            matches.push(
                ParameterMatch { name: string_clone(nm), description: desc, value: None },
            );
            proof {
                assert(matches_view(matches@) =~= matches_view(om).push(synth_match(nm@)));
            }
        }
        k = k + 1;
    }
    proof {
        assert(all_names.subrange(nn as int, nn as int) =~= Seq::<Seq<char>>::empty());
    }
    (matches, all_params)
}

} // verus!
