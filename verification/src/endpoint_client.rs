//! Conversion of catalog records into the crate's endpoint model, and the
//! derivation of an endpoint's essential path.
//!
//! Fetching the records themselves is a transport concern and stays outside
//! the library; callers hand the flattened groups in as plain values.

use vstd::prelude::*;
use crate::text::{split_seq, join_seq, split_char, join_strings, chars_of,
    lemma_split_no_sep, lemma_split_join, lemma_filter_push, lemma_filter_all,
    lemma_filter_elems, views_of};
use crate::models::{EndpointParameter, EnhancedEndpoint};

verus! {

/// A parameter as the catalog service reports it: the required flag is the
/// literal text "true" or something else.
#[derive(Debug, Clone)]
pub struct RemoteParameter {
    pub name: String,
    pub description: String,
    pub required: String,
    pub alternatives: Vec<String>,
}

/// An endpoint as the catalog service reports it.
#[derive(Debug, Clone)]
pub struct RemoteEndpoint {
    pub id: String,
    pub text: String,
    pub description: String,
    pub verb: String,
    pub base: String,
    pub path: String,
    pub parameters: Vec<RemoteParameter>,
}

/// A group of endpoints as the catalog service reports it.
#[derive(Debug, Clone)]
pub struct ApiGroup {
    pub id: String,
    pub name: String,
    pub endpoints: Vec<RemoteEndpoint>,
}

/// A path segment is dropped from the essential path exactly when its first
/// character is `{` and its last is `}`.
pub open spec fn keep_segment(seg: Seq<char>) -> bool {
    !(seg.len() >= 1 && seg[0] == '{' && seg[seg.len() - 1] == '}')
}

/// The essential path: the path split on `/`, with templated segments
/// dropped and the rest rejoined; `/` when nothing remains.
pub open spec fn essential_path_spec(path: Seq<char>) -> Seq<char> {
    let kept = split_seq(path, '/').filter(|s: Seq<char>| keep_segment(s));
    let joined = join_seq(kept, '/');
    if joined.len() == 0 {
        seq!['/']
    } else {
        joined
    }
}

fn keep_segment_exec(seg: &String) -> (r: bool)
    ensures
        r == keep_segment(seg@),
{
    let v = chars_of(seg.as_str());
    let n = v.len();
    if n >= 1 && v[0] == '{' && v[n - 1] == '}' {
        false
    } else {
        true
    }
}

/// Derives the essential path of an endpoint path.
pub fn extract_essential_path(path: &str) -> (r: String)
    ensures
        r@ == essential_path_spec(path@),
{
    let parts = split_char(path, '/');
    let n = parts.len();
    let mut kept: Vec<String> = Vec::new();
    let ghost pred = |s: Seq<char>| keep_segment(s);
    let mut i: usize = 0;
    proof {
        assert(views_of(parts@).subrange(0, 0) =~= Seq::<Seq<char>>::empty());
        assert(Seq::<Seq<char>>::empty().filter(pred) =~= Seq::<Seq<char>>::empty()) by {
            crate::text::lemma_filter_all(Seq::<Seq<char>>::empty(), pred);
        }
        assert(views_of(kept@) =~= Seq::<Seq<char>>::empty());
    }
    while i < n
        invariant
            n == parts@.len(),
            0 <= i <= n,
            pred == (|s: Seq<char>| keep_segment(s)),
            views_of(kept@) == views_of(parts@).subrange(0, i as int).filter(pred),
        decreases n - i,
    {
        let keep = keep_segment_exec(&parts[i]);
        proof {
            let vs = views_of(parts@);
            assert(vs[i as int] == parts@[i as int]@);
            assert(vs.subrange(0, i + 1 as int).drop_last() =~= vs.subrange(0, i as int));
            assert(vs.subrange(0, i + 1 as int) =~= vs.subrange(0, i as int).push(vs[i as int]));
            lemma_filter_push(vs.subrange(0, i as int), vs[i as int], pred);
        }
        if keep {
            let ghost ok = kept@;
            let s = string_clone(&parts[i]);
            kept.push(s);
            proof {
                assert(views_of(kept@) =~= views_of(ok).push(parts@[i as int]@));
            }
        }
        i = i + 1;
    }
    proof {
        assert(views_of(parts@).subrange(0, n as int) =~= views_of(parts@));
        assert(views_of(parts@) == split_seq(path@, '/'));
    }
    let joined = join_strings(&kept, '/');
    if joined.unicode_len() == 0 {
        let slash = String::from_str("/");
        proof {
            reveal_strlit("/");
            assert(slash@ =~= seq!['/']);
        }
        slash
    } else {
        joined
    }
}

/// Clones a string with its contents known to the verifier.
pub fn string_clone(s: &String) -> (r: String)
    ensures
        r@ == s@,
{
    String::from_str(s.as_str())
}

/// Applying the essential-path derivation to its own result changes nothing.
pub proof fn lemma_essential_path_idempotent(path: Seq<char>)
    ensures
        essential_path_spec(essential_path_spec(path)) == essential_path_spec(path),
{
    let pred = |s: Seq<char>| keep_segment(s);
    let parts = split_seq(path, '/');
    let kept = parts.filter(pred);
    let joined = join_seq(kept, '/');
    if joined.len() == 0 {
        let root = seq!['/'];
        assert(essential_path_spec(path) == root);
        assert(root.drop_last() =~= Seq::<char>::empty());
        assert(split_seq(root, '/') == seq![Seq::<char>::empty(), Seq::<char>::empty()]) by {
            assert(root.last() == '/');
            assert(split_seq(Seq::<char>::empty(), '/') == seq![Seq::<char>::empty()]);
            assert(seq![Seq::<char>::empty()].push(Seq::<char>::empty()) =~= seq![
                Seq::<char>::empty(),
                Seq::<char>::empty(),
            ]);
        }
        let two = seq![Seq::<char>::empty(), Seq::<char>::empty()];
        assert(forall|i: int| 0 <= i < two.len() ==> pred(two[i]));
        lemma_filter_all(two, pred);
        assert(join_seq(two, '/') =~= seq!['/']) by {
            assert(two.drop_last() =~= seq![Seq::<char>::empty()]);
            assert(join_seq(seq![Seq::<char>::empty()], '/') == Seq::<char>::empty());
            assert(Seq::<char>::empty() + seq!['/'] + Seq::<char>::empty() =~= seq!['/']);
        }
        assert(essential_path_spec(root) == root);
    } else {
        assert(essential_path_spec(path) == joined);
        assert(kept.len() >= 1);
        assert(forall|i: int|
            0 <= i < kept.len() ==> !(#[trigger] kept[i]).contains('/')) by {
            lemma_split_no_sep(path, '/');
            lemma_filter_elems(parts, pred);
            assert forall|i: int| 0 <= i < kept.len() implies !(#[trigger] kept[i]).contains(
                '/',
            ) by {
                assert(parts.contains(kept[i]));
                let j = choose|j: int| 0 <= j < parts.len() && parts[j] == kept[i];
                assert(!parts[j].contains('/'));
            }
        }
        lemma_split_join(kept, '/');
        assert(split_seq(joined, '/') == kept);
        assert forall|i: int| 0 <= i < kept.len() implies pred(#[trigger] kept[i]) by {
            parts.lemma_filter_pred(pred, i);
        }
        lemma_filter_all(kept, pred);
        assert(essential_path_spec(joined) == joined);
    }
}

/// One parameter converted from its catalog form: the required flag is read
/// from the literal "true", the alternatives are carried over, and no
/// semantic value is set yet.
pub open spec fn converted_param(rp: RemoteParameter) -> crate::models::EndpointParameterView {
    crate::models::EndpointParameterView {
        name: rp.name@,
        description: rp.description@,
        required: Some(rp.required@ == "true"@),
        alternatives: Some(rp.alternatives@.map_values(|x: String| x@)),
        semantic_value: None,
    }
}

fn convert_parameter(rp: &RemoteParameter) -> (r: EndpointParameter)
    ensures
        r@ == converted_param(*rp),
{
    let mut alts: Vec<String> = Vec::new();
    let n = rp.alternatives.len();
    let mut i: usize = 0;
    while i < n
        invariant
            n == rp.alternatives@.len(),
            0 <= i <= n,
            alts@.len() == i,
            forall|q: int| 0 <= q < i ==> (#[trigger] alts@[q])@ == rp.alternatives@[q]@,
        decreases n - i,
    {
        let a = string_clone(&rp.alternatives[i]);
        alts.push(a);
        i = i + 1;
    }
    proof {
        assert(views_of(alts@) =~= views_of(rp.alternatives@));
    }
    let req_string_eq: bool = {
        let t = String::from_str("true");
        rp.required == t
    };
    EndpointParameter {
        name: string_clone(&rp.name),
        description: string_clone(&rp.description),
        required: Some(req_string_eq),
        alternatives: Some(alts),
        semantic_value: None,
    }
}

/// One endpoint converted from its catalog form within a group.
pub open spec fn converted_endpoint(re: RemoteEndpoint, group_id: Seq<char>, group_name: Seq<char>, e: EnhancedEndpoint) -> bool {
    &&& e.id@ == re.id@
    &&& e.name@ == re.text@
    &&& e.text@ == re.text@
    &&& e.description@ == re.description@
    &&& e.verb@ == re.verb@
    &&& e.base@ == re.base@
    &&& e.path@ == re.path@
    &&& e.essential_path@ == essential_path_spec(re.path@)
    &&& e.api_group_id@ == group_id
    &&& e.api_group_name@ == group_name
    &&& e.parameters@.len() == re.parameters@.len()
    &&& forall|i: int|
        0 <= i < re.parameters@.len() ==> (#[trigger] e.parameters@[i])@ == converted_param(
            re.parameters@[i],
        )
}

/// The catalog's groups flattened into (group, endpoint) pairs, in order.
pub open spec fn flatten_groups(groups: Seq<ApiGroup>) -> Seq<(ApiGroup, RemoteEndpoint)>
    decreases groups.len(),
{
    if groups.len() == 0 {
        Seq::<(ApiGroup, RemoteEndpoint)>::empty()
    } else {
        flatten_groups(groups.drop_last()) + groups.last().endpoints@.map_values(
            |e: RemoteEndpoint| (groups.last(), e),
        )
    }
}

/// Flattens the catalog's groups into enriched endpoints: each endpoint keeps
/// its own fields, derives its essential path, and is stamped with its
/// group's identity.
pub fn convert_remote_endpoints_enhanced(api_groups: &Vec<ApiGroup>) -> (r: Vec<EnhancedEndpoint>)
    ensures
        r@.len() == flatten_groups(api_groups@).len(),
        forall|i: int|
            0 <= i < r@.len() ==> converted_endpoint(
                flatten_groups(api_groups@)[i].1,
                flatten_groups(api_groups@)[i].0.id@,
                flatten_groups(api_groups@)[i].0.name@,
                #[trigger] r@[i],
            ),
{
    let mut out: Vec<EnhancedEndpoint> = Vec::new();
    let gn = api_groups.len();
    let mut g: usize = 0;
    proof {
        assert(api_groups@.subrange(0, 0) =~= Seq::<ApiGroup>::empty());
    }
    while g < gn
        invariant
            gn == api_groups@.len(),
            0 <= g <= gn,
            out@.len() == flatten_groups(api_groups@.subrange(0, g as int)).len(),
            forall|i: int|
                0 <= i < out@.len() ==> converted_endpoint(
                    flatten_groups(api_groups@.subrange(0, g as int))[i].1,
                    flatten_groups(api_groups@.subrange(0, g as int))[i].0.id@,
                    flatten_groups(api_groups@.subrange(0, g as int))[i].0.name@,
                    #[trigger] out@[i],
                ),
        decreases gn - g,
    {
        let group = &api_groups[g];
        let en = group.endpoints.len();
        let ghost fl0 = flatten_groups(api_groups@.subrange(0, g as int));
        let mut k: usize = 0;
        while k < en
            invariant
                gn == api_groups@.len(),
                0 <= g < gn,
                group == api_groups@[g as int],
                en == group.endpoints@.len(),
                0 <= k <= en,
                fl0 == flatten_groups(api_groups@.subrange(0, g as int)),
                out@.len() == fl0.len() + k,
                forall|i: int|
                    0 <= i < fl0.len() ==> converted_endpoint(
                        fl0[i].1,
                        fl0[i].0.id@,
                        fl0[i].0.name@,
                        #[trigger] out@[i],
                    ),
                forall|j: int|
                    0 <= j < k ==> converted_endpoint(
                        group.endpoints@[j],
                        group.id@,
                        group.name@,
                        #[trigger] out@[fl0.len() + j],
                    ),
            decreases en - k,
        {
            let re = &group.endpoints[k];
            let mut params: Vec<EndpointParameter> = Vec::new();
            let pn = re.parameters.len();
            let mut pi: usize = 0;
            while pi < pn
                invariant
                    pn == re.parameters@.len(),
                    0 <= pi <= pn,
                    params@.len() == pi,
                    forall|q: int|
                        0 <= q < pi ==> (#[trigger] params@[q])@ == converted_param(
                            re.parameters@[q],
                        ),
                decreases pn - pi,
            {
                let p = convert_parameter(&re.parameters[pi]);
                params.push(p);
                pi = pi + 1;
            }
            let e = EnhancedEndpoint {
                id: string_clone(&re.id),
                name: string_clone(&re.text),
                text: string_clone(&re.text),
                description: string_clone(&re.description),
                verb: string_clone(&re.verb),
                base: string_clone(&re.base),
                path: string_clone(&re.path),
                essential_path: extract_essential_path(re.path.as_str()),
                api_group_id: string_clone(&group.id),
                api_group_name: string_clone(&group.name),
                parameters: params,
            };
            out.push(e);
            k = k + 1;
        }
        g = g + 1;
        proof {
            let pre1 = api_groups@.subrange(0, g as int);
            assert(pre1.drop_last() =~= api_groups@.subrange(0, g - 1 as int));
            assert(pre1.last() == api_groups@[g - 1]);
            let fl1 = flatten_groups(pre1);
            assert(fl1 == fl0 + pre1.last().endpoints@.map_values(
                |e: RemoteEndpoint| (pre1.last(), e),
            ));
            assert(fl1.len() == fl0.len() + en);
            assert(pre1.last() == *group);
            assert forall|i: int|
                0 <= i < out@.len() implies converted_endpoint(
                fl1[i].1,
                fl1[i].0.id@,
                fl1[i].0.name@,
                #[trigger] out@[i],
            ) by {
                if i >= fl0.len() {
                    let m = pre1.last().endpoints@.map_values(
                        |e: RemoteEndpoint| (pre1.last(), e),
                    );
                    assert(m[i - fl0.len()] == (pre1.last(), pre1.last().endpoints@[i - fl0.len()]));
                    assert(fl1[i] == m[i - fl0.len()]);
                    let j = i - fl0.len();
                    assert(out@[fl0.len() + j] == out@[i]);
                    assert(converted_endpoint(
                        group.endpoints@[j],
                        group.id@,
                        group.name@,
                        out@[fl0.len() + j],
                    ));
                } else {
                    assert(fl1[i] == fl0[i]);
                }
            }
        }
    }
    proof {
        assert(api_groups@.subrange(0, gn as int) =~= api_groups@);
    }
    out
}

} // verus!
