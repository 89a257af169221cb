//! The progressive-matching store: per (conversation, endpoint) accumulation
//! of parameter values across turns, with merge-on-update semantics and a
//! completion check against an endpoint's required parameters.
//!
//! The store itself is an in-memory table of rows keyed by the pair of
//! conversation id and endpoint id; persistence behind it is a transport
//! concern that stays outside the library.

use vstd::prelude::*;
use crate::text::views_of;
use crate::models::{EndpointParameter, EndpointParameterView, params_view};
use crate::endpoint_client::string_clone;

verus! {

/// One accumulated parameter value.
#[derive(Debug, Clone)]
pub struct ParameterValue {
    pub name: String,
    pub value: String,
    pub description: String,
}

pub struct ParameterValueView {
    pub name: Seq<char>,
    pub value: Seq<char>,
    pub description: Seq<char>,
}

impl View for ParameterValue {
    type V = ParameterValueView;

    open spec fn view(&self) -> ParameterValueView {
        ParameterValueView {
            name: self.name@,
            value: self.value@,
            description: self.description@,
        }
    }
}

pub open spec fn pv_views(ps: Seq<ParameterValue>) -> Seq<ParameterValueView> {
    ps.map_values(|p: ParameterValue| p@)
}

/// One stored row: the accumulated parameters of a conversation for one
/// endpoint, with its creation and last-update times.
#[derive(Debug, Clone)]
pub struct OngoingMatch {
    pub conversation_id: String,
    pub endpoint_id: String,
    pub parameters: Vec<ParameterValue>,
    pub created_at: String,
    pub updated_at: String,
}

pub struct OngoingMatchView {
    pub conversation_id: Seq<char>,
    pub endpoint_id: Seq<char>,
    pub parameters: Seq<ParameterValueView>,
    pub created_at: Seq<char>,
    pub updated_at: Seq<char>,
}

impl View for OngoingMatch {
    type V = OngoingMatchView;

    open spec fn view(&self) -> OngoingMatchView {
        OngoingMatchView {
            conversation_id: self.conversation_id@,
            endpoint_id: self.endpoint_id@,
            parameters: pv_views(self.parameters@),
            created_at: self.created_at@,
            updated_at: self.updated_at@,
        }
    }
}

pub open spec fn rows_view(rows: Seq<OngoingMatch>) -> Seq<OngoingMatchView> {
    rows.map_values(|r: OngoingMatch| r@)
}

/// The snapshot a completion check returns.
#[derive(Debug, Clone)]
pub struct ProgressiveMatchResult {
    pub conversation_id: String,
    pub endpoint_id: String,
    pub endpoint_description: String,
    pub matched_parameters: Vec<ParameterValue>,
    pub missing_parameters: Vec<String>,
    pub is_complete: bool,
    pub completion_percentage: u32,
    pub ready_for_execution: bool,
}

pub open spec fn has_pv_name(ps: Seq<ParameterValueView>, nm: Seq<char>) -> bool {
    exists|i: int| 0 <= i < ps.len() && ps[i].name == nm
}

/// The first index in `ps` holding `nm`, or the length when absent.
pub open spec fn first_pv_index(ps: Seq<ParameterValueView>, nm: Seq<char>) -> int
    decreases ps.len(),
{
    if ps.len() == 0 {
        0
    } else if ps[0].name == nm {
        0
    } else {
        1 + first_pv_index(ps.subrange(1, ps.len() as int), nm)
    }
}

/// Merging one new value into an accumulated list: a value with a known name
/// overwrites that entry's value in place, a new name is appended.
pub open spec fn update_entry(
    ps: Seq<ParameterValueView>,
    np: ParameterValueView,
) -> Seq<ParameterValueView> {
    if has_pv_name(ps, np.name) {
        let j = first_pv_index(ps, np.name);
        ps.update(
            j,
            ParameterValueView {
                name: ps[j].name,
                value: np.value,
                description: ps[j].description,
            },
        )
    } else {
        ps.push(np)
    }
}

/// Merging a list of new values into an accumulated list, left to right.
pub open spec fn merge_params(
    ex: Seq<ParameterValueView>,
    new: Seq<ParameterValueView>,
) -> Seq<ParameterValueView>
    decreases new.len(),
{
    if new.len() == 0 {
        ex
    } else {
        merge_params(update_entry(ex, new[0]), new.subrange(1, new.len() as int))
    }
}

/// The name-to-value map described by an accumulated list; a later entry wins
/// over an earlier one of the same name.
pub open spec fn params_map(ps: Seq<ParameterValueView>) -> Map<Seq<char>, Seq<char>>
    decreases ps.len(),
{
    if ps.len() == 0 {
        Map::<Seq<char>, Seq<char>>::empty()
    } else {
        params_map(ps.drop_last()).insert(ps.last().name, ps.last().value)
    }
}

pub open spec fn unique_pv_names(ps: Seq<ParameterValueView>) -> bool {
    forall|i: int, j: int| 0 <= i < j < ps.len() ==> ps[i].name != ps[j].name
}

/// The first row with the given key, if any.
pub open spec fn find_row(
    rows: Seq<OngoingMatchView>,
    conv: Seq<char>,
    ep: Seq<char>,
) -> Option<OngoingMatchView>
    decreases rows.len(),
{
    if rows.len() == 0 {
        None
    } else if rows[0].conversation_id == conv && rows[0].endpoint_id == ep {
        Some(rows[0])
    } else {
        find_row(rows.subrange(1, rows.len() as int), conv, ep)
    }
}

/// The first row of the conversation, over any endpoint, if any.
pub open spec fn find_conv_row(rows: Seq<OngoingMatchView>, conv: Seq<char>) -> Option<
    OngoingMatchView,
>
    decreases rows.len(),
{
    if rows.len() == 0 {
        None
    } else if rows[0].conversation_id == conv {
        Some(rows[0])
    } else {
        find_conv_row(rows.subrange(1, rows.len() as int), conv)
    }
}

/// The accumulated parameters for a key, or the empty list for an absent row.
pub open spec fn stored_params(
    rows: Seq<OngoingMatchView>,
    conv: Seq<char>,
    ep: Seq<char>,
) -> Seq<ParameterValueView> {
    match find_row(rows, conv, ep) {
        Some(r) => r.parameters,
        None => Seq::<ParameterValueView>::empty(),
    }
}

/// The store after an update: the row for the key carries the merged
/// parameters and the new update time; its creation time is preserved when
/// the row existed and is the update time otherwise; every other row is
/// untouched.
pub open spec fn spec_update_rows(
    rows: Seq<OngoingMatchView>,
    conv: Seq<char>,
    ep: Seq<char>,
    new: Seq<ParameterValueView>,
    now: Seq<char>,
) -> Seq<OngoingMatchView>
    decreases rows.len(),
{
    if rows.len() == 0 {
        seq![
            OngoingMatchView {
                conversation_id: conv,
                endpoint_id: ep,
                parameters: merge_params(Seq::<ParameterValueView>::empty(), new),
                created_at: now,
                updated_at: now,
            },
        ]
    } else if rows[0].conversation_id == conv && rows[0].endpoint_id == ep {
        seq![
            OngoingMatchView {
                conversation_id: rows[0].conversation_id,
                endpoint_id: rows[0].endpoint_id,
                parameters: merge_params(rows[0].parameters, new),
                created_at: rows[0].created_at,
                updated_at: now,
            },
        ] + rows.subrange(1, rows.len() as int)
    } else {
        seq![rows[0]] + spec_update_rows(rows.subrange(1, rows.len() as int), conv, ep, new, now)
    }
}

/// The store after a completion: every row with the key is gone.
pub open spec fn spec_complete_rows(
    rows: Seq<OngoingMatchView>,
    conv: Seq<char>,
    ep: Seq<char>,
) -> Seq<OngoingMatchView> {
    rows.filter(|r: OngoingMatchView| !(r.conversation_id == conv && r.endpoint_id == ep))
}

/// The in-memory progressive-matching store.
#[derive(Debug)]
pub struct ProgressiveMatchingManager {
    pub rows: Vec<OngoingMatch>,
}

fn clone_pv(p: &ParameterValue) -> (r: ParameterValue)
    ensures
        r@ == p@,
{
    ParameterValue {
        name: string_clone(&p.name),
        value: string_clone(&p.value),
        description: string_clone(&p.description),
    }
}

fn clone_pv_list(ps: &Vec<ParameterValue>) -> (r: Vec<ParameterValue>)
    ensures
        pv_views(r@) == pv_views(ps@),
{
    let n = ps.len();
    let mut out: Vec<ParameterValue> = Vec::new();
    let mut i: usize = 0;
    while i < n
        invariant
            n == ps@.len(),
            0 <= i <= n,
            out@.len() == i,
            forall|q: int| 0 <= q < i ==> (#[trigger] out@[q])@ == ps@[q]@,
        decreases n - i,
    {
        let p = clone_pv(&ps[i]);
        out.push(p);
        i = i + 1;
    }
    proof {
        assert(pv_views(out@) =~= pv_views(ps@));
    }
    out
}

fn clone_row(r: &OngoingMatch) -> (out: OngoingMatch)
    ensures
        out@ == r@,
{
    OngoingMatch {
        conversation_id: string_clone(&r.conversation_id),
        endpoint_id: string_clone(&r.endpoint_id),
        parameters: clone_pv_list(&r.parameters),
        created_at: string_clone(&r.created_at),
        updated_at: string_clone(&r.updated_at),
    }
}

impl ProgressiveMatchingManager {
    /// A fresh store with no rows.
    pub fn new() -> (r: ProgressiveMatchingManager)
        ensures
            rows_view(r.rows@) == Seq::<OngoingMatchView>::empty(),
    {
        let r = ProgressiveMatchingManager { rows: Vec::new() };
        proof {
            assert(rows_view(r.rows@) =~= Seq::<OngoingMatchView>::empty());
        }
        r
    }

    /// Merges new parameter values into the row for the key, creating the row
    /// when absent.  Same-named entries overwrite the stored value, new names
    /// append; the creation time is preserved across updates and the update
    /// time is set to `now`.
    pub fn update_match(
        &mut self,
        conversation_id: &str,
        endpoint_id: &str,
        new_parameters: &Vec<ParameterValue>,
        now: &str,
    )
        ensures
            rows_view(final(self).rows@) == spec_update_rows(
                rows_view(old(self).rows@),
                conversation_id@,
                endpoint_id@,
                pv_views(new_parameters@),
                now@,
            ),
    {
        let ghost rs0 = self.rows@;
        let ghost rv0 = rows_view(self.rows@);
        let n = self.rows.len();
        let mut i: usize = 0;
        while i < n
            invariant
                n == self.rows@.len(),
                0 <= i <= n,
                rs0 == self.rows@,
                rs0 == old(self).rows@,
                rv0 == rows_view(self.rows@),
                forall|j: int|
                    0 <= j < i ==> !(rv0[j].conversation_id == conversation_id@
                        && rv0[j].endpoint_id == endpoint_id@),
            decreases n - i,
        {
            if crate::text::str_eq(self.rows[i].conversation_id.as_str(), conversation_id)
                && crate::text::str_eq(self.rows[i].endpoint_id.as_str(), endpoint_id) {
                let row = self.rows.remove(i);
                let merged = merge_exec(row.parameters, new_parameters);
                let updated = OngoingMatch {
                    conversation_id: row.conversation_id,
                    endpoint_id: row.endpoint_id,
                    parameters: merged,
                    created_at: row.created_at,
                    updated_at: now.to_owned(),
                };
                self.rows.insert(i, updated);
                proof {
                    assert(self.rows@ =~= rs0.update(i as int, updated));
                    assert(updated@.parameters == merge_params(
                        rv0[i as int].parameters,
                        pv_views(new_parameters@),
                    ));
                    assert(updated@.conversation_id == rv0[i as int].conversation_id);
                    assert(updated@.endpoint_id == rv0[i as int].endpoint_id);
                    assert(updated@.created_at == rv0[i as int].created_at);
                    assert(updated@.updated_at == now@);
                    lemma_update_at(rv0, conversation_id@, endpoint_id@, pv_views(
                        new_parameters@,
                    ), now@, i as int);
                    assert forall|q: int|
                        0 <= q < rv0.len() implies rows_view(self.rows@)[q] == spec_update_rows(
                        rv0,
                        conversation_id@,
                        endpoint_id@,
                        pv_views(new_parameters@),
                        now@,
                    )[q] by {
                        if q != i {
                            assert(self.rows@[q] == rs0[q]);
                        }
                    }
                    assert(rows_view(self.rows@) =~= spec_update_rows(
                        rv0,
                        conversation_id@,
                        endpoint_id@,
                        pv_views(new_parameters@),
                        now@,
                    ));
                }
                return ;
            }
            i = i + 1;
        }
        let merged = merge_exec(Vec::new(), new_parameters);
        let fresh = OngoingMatch {
            conversation_id: conversation_id.to_owned(),
            endpoint_id: endpoint_id.to_owned(),
            parameters: merged,
            created_at: now.to_owned(),
            updated_at: now.to_owned(),
        };
        self.rows.push(fresh);
        proof {
            assert(pv_views(Seq::<ParameterValue>::empty()) =~= Seq::<
                ParameterValueView,
            >::empty());
            assert(rows_view(self.rows@) =~= rv0.push(fresh@));
            lemma_update_absent(rv0, conversation_id@, endpoint_id@, pv_views(new_parameters@),
                now@);
            assert(rows_view(self.rows@) =~= spec_update_rows(
                rv0,
                conversation_id@,
                endpoint_id@,
                pv_views(new_parameters@),
                now@,
            ));
        }
    }

    /// The row for the key, if any.
    pub fn get_match(&self, conversation_id: &str, endpoint_id: &str) -> (r: Option<OngoingMatch>)
        ensures
            match r {
                Some(row) => find_row(rows_view(self.rows@), conversation_id@, endpoint_id@)
                    == Some(row@),
                None => find_row(rows_view(self.rows@), conversation_id@, endpoint_id@)
                    is None,
            },
    {
        let n = self.rows.len();
        let ghost rv = rows_view(self.rows@);
        let mut i: usize = 0;
        proof {
            lemma_find_row_skip(rv, conversation_id@, endpoint_id@, 0);
        }
        while i < n
            invariant
                n == self.rows@.len(),
                rv == rows_view(self.rows@),
                0 <= i <= n,
                find_row(rv, conversation_id@, endpoint_id@) == find_row(
                    rv.subrange(i as int, n as int),
                    conversation_id@,
                    endpoint_id@,
                ),
            decreases n - i,
        {
            proof {
                let rem = rv.subrange(i as int, n as int);
                assert(rem[0] == rv[i as int]);
                assert(rem.subrange(1, rem.len() as int) =~= rv.subrange(i + 1 as int, n as int));
            }
            if crate::text::str_eq(self.rows[i].conversation_id.as_str(), conversation_id)
                && crate::text::str_eq(self.rows[i].endpoint_id.as_str(), endpoint_id) {
                let row = clone_row(&self.rows[i]);
                return Some(row);
            }
            i = i + 1;
        }
        proof {
            assert(rv.subrange(n as int, n as int) =~= Seq::<OngoingMatchView>::empty());
        }
        None
    }

    /// Any row of the conversation, if one exists (the first in the store).
    pub fn get_incomplete_match(&self, conversation_id: &str) -> (r: Option<OngoingMatch>)
        ensures
            match r {
                Some(row) => find_conv_row(rows_view(self.rows@), conversation_id@) == Some(row@),
                None => find_conv_row(rows_view(self.rows@), conversation_id@) is None,
            },
    {
        let n = self.rows.len();
        let ghost rv = rows_view(self.rows@);
        let mut i: usize = 0;
        proof {
            assert(rv.subrange(0, n as int) =~= rv);
        }
        while i < n
            invariant
                n == self.rows@.len(),
                rv == rows_view(self.rows@),
                0 <= i <= n,
                find_conv_row(rv, conversation_id@) == find_conv_row(
                    rv.subrange(i as int, n as int),
                    conversation_id@,
                ),
            decreases n - i,
        {
            proof {
                let rem = rv.subrange(i as int, n as int);
                assert(rem[0] == rv[i as int]);
                assert(rem.subrange(1, rem.len() as int) =~= rv.subrange(i + 1 as int, n as int));
            }
            if crate::text::str_eq(self.rows[i].conversation_id.as_str(), conversation_id) {
                let row = clone_row(&self.rows[i]);
                return Some(row);
            }
            i = i + 1;
        }
        proof {
            assert(rv.subrange(n as int, n as int) =~= Seq::<OngoingMatchView>::empty());
        }
        None
    }

    /// Deletes the row for the key.
    pub fn complete_match(&mut self, conversation_id: &str, endpoint_id: &str)
        ensures
            rows_view(final(self).rows@) == spec_complete_rows(
                rows_view(old(self).rows@),
                conversation_id@,
                endpoint_id@,
            ),
            find_row(rows_view(final(self).rows@), conversation_id@, endpoint_id@) is None,
    {
        let ghost rv0 = rows_view(self.rows@);
        let ghost pred = |r: OngoingMatchView|
            !(r.conversation_id == conversation_id@ && r.endpoint_id == endpoint_id@);
        let n = self.rows.len();
        let mut out: Vec<OngoingMatch> = Vec::new();
        let mut i: usize = 0;
        proof {
            assert(rv0.subrange(0, 0) =~= Seq::<OngoingMatchView>::empty());
            crate::text::lemma_filter_all(Seq::<OngoingMatchView>::empty(), pred);
        }
        while i < n
            invariant
                n == self.rows@.len(),
                rv0 == rows_view(self.rows@),
                pred == (|r: OngoingMatchView|
                    !(r.conversation_id == conversation_id@ && r.endpoint_id == endpoint_id@)),
                0 <= i <= n,
                rows_view(out@) == rv0.subrange(0, i as int).filter(pred),
            decreases n - i,
        {
            proof {
                assert(rv0.subrange(0, i + 1 as int).drop_last() =~= rv0.subrange(0, i as int));
                assert(rv0.subrange(0, i + 1 as int) =~= rv0.subrange(0, i as int).push(
                    rv0[i as int],
                ));
                crate::text::lemma_filter_push(rv0.subrange(0, i as int), rv0[i as int], pred);
            }
            let keep = !(crate::text::str_eq(
                self.rows[i].conversation_id.as_str(),
                conversation_id,
            ) && crate::text::str_eq(self.rows[i].endpoint_id.as_str(), endpoint_id));
            if keep {
                let ghost ov = out@;
                let row = clone_row(&self.rows[i]);
                out.push(row);
                proof {
                    assert(rows_view(out@) =~= rows_view(ov).push(rv0[i as int]));
                }
            }
            i = i + 1;
        }
        self.rows = out;
        proof {
            assert(rv0.subrange(0, n as int) =~= rv0);
            lemma_find_row_filtered(rv0, conversation_id@, endpoint_id@);
        }
    }
}

/// Merges new values into an accumulated list.
pub fn merge_exec(existing: Vec<ParameterValue>, new_parameters: &Vec<ParameterValue>) -> (r: Vec<
    ParameterValue,
>)
    ensures
        pv_views(r@) == merge_params(pv_views(existing@), pv_views(new_parameters@)),
{
    let ghost ex0 = pv_views(existing@);
    let ghost nv = pv_views(new_parameters@);
    let mut acc = existing;
    let n = new_parameters.len();
    let mut i: usize = 0;
    proof {
        assert(nv.subrange(0, 0) =~= Seq::<ParameterValueView>::empty());
        lemma_merge_prefix(ex0, nv, 0);
    }
    while i < n
        invariant
            n == new_parameters@.len(),
            nv == pv_views(new_parameters@),
            0 <= i <= n,
            pv_views(acc@) == merge_params(ex0, nv.subrange(0, i as int)),
        decreases n - i,
    {
        let np = &new_parameters[i];
        let ghost av = pv_views(acc@);
        let an = acc.len();
        let mut j: usize = 0;
        let mut found = false;
        while j < an && !found
            invariant
                an == acc@.len(),
                av == pv_views(acc@),
                0 <= j <= an,
                !found ==> forall|q: int| 0 <= q < j ==> av[q].name != np@.name,
                found ==> (j < an && av[j as int].name == np@.name && forall|q: int|
                    0 <= q < j ==> av[q].name != np@.name),
            decreases an - j + (if found { 0int } else { 1int }),
        {
            if acc[j].name == np.name {
                found = true;
            } else {
                j = j + 1;
            }
        }
        if found {
            let old_entry = acc.remove(j);
            let replaced = ParameterValue {
                name: old_entry.name,
                value: string_clone(&np.value),
                description: old_entry.description,
            };
            acc.insert(j, replaced);
            proof {
                lemma_first_pv_index(av, np@.name, j as int);
                assert(has_pv_name(av, np@.name));
                assert(pv_views(acc@) =~= update_entry(av, np@));
            }
        } else {
            let cloned = clone_pv(np);
            acc.push(cloned);
            proof {
                assert(!has_pv_name(av, np@.name));
                assert(pv_views(acc@) =~= update_entry(av, np@));
            }
        }
        proof {
            assert(nv.subrange(0, i + 1 as int).drop_last() =~= nv.subrange(0, i as int));
            assert(nv.subrange(0, i + 1 as int) =~= nv.subrange(0, i as int).push(nv[i as int]));
            assert(nv[i as int] == np@);
            lemma_merge_push(ex0, nv.subrange(0, i as int), np@);
        }
        i = i + 1;
    }
    proof {
        assert(nv.subrange(0, n as int) =~= nv);
    }
    acc
}

proof fn lemma_first_pv_index(ps: Seq<ParameterValueView>, nm: Seq<char>, j: int)
    requires
        0 <= j < ps.len(),
        ps[j].name == nm,
        forall|q: int| 0 <= q < j ==> ps[q].name != nm,
    ensures
        first_pv_index(ps, nm) == j,
    decreases j,
{
    if j > 0 {
        let rest = ps.subrange(1, ps.len() as int);
        assert(rest[j - 1].name == nm);
        assert forall|q: int| 0 <= q < j - 1 implies rest[q].name != nm by {
            assert(rest[q] == ps[q + 1]);
        }
        lemma_first_pv_index(rest, nm, j - 1);
    }
}

/// Merging one more value is one entry update on the merged list.
proof fn lemma_merge_push(
    ex: Seq<ParameterValueView>,
    s: Seq<ParameterValueView>,
    x: ParameterValueView,
)
    ensures
        merge_params(ex, s.push(x)) == update_entry(merge_params(ex, s), x),
    decreases s.len(),
{
    let t = s.push(x);
    if s.len() == 0 {
        assert(t[0] == x);
        assert(t.subrange(1, 1) =~= Seq::<ParameterValueView>::empty());
        assert(merge_params(ex, t) == merge_params(update_entry(ex, x), t.subrange(1, 1)));
    } else {
        assert(t[0] == s[0]);
        assert(t.subrange(1, t.len() as int) =~= s.subrange(1, s.len() as int).push(x));
        assert(merge_params(ex, t) == merge_params(
            update_entry(ex, s[0]),
            s.subrange(1, s.len() as int).push(x),
        ));
        lemma_merge_push(update_entry(ex, s[0]), s.subrange(1, s.len() as int), x);
        assert(merge_params(ex, s) == merge_params(
            update_entry(ex, s[0]),
            s.subrange(1, s.len() as int),
        ));
    }
}

proof fn lemma_merge_prefix(ex: Seq<ParameterValueView>, nv: Seq<ParameterValueView>, i: int)
    requires
        i == 0,
    ensures
        merge_params(ex, nv.subrange(0, 0)) == ex,
{
    assert(nv.subrange(0, 0) =~= Seq::<ParameterValueView>::empty());
}

proof fn lemma_find_row_skip(rows: Seq<OngoingMatchView>, conv: Seq<char>, ep: Seq<char>, i: int)
    requires
        i == 0,
    ensures
        find_row(rows, conv, ep) == find_row(rows.subrange(0, rows.len() as int), conv, ep),
{
    assert(rows.subrange(0, rows.len() as int) =~= rows);
}

proof fn lemma_update_at(
    rows: Seq<OngoingMatchView>,
    conv: Seq<char>,
    ep: Seq<char>,
    new: Seq<ParameterValueView>,
    now: Seq<char>,
    i: int,
)
    requires
        0 <= i < rows.len(),
        rows[i].conversation_id == conv && rows[i].endpoint_id == ep,
        forall|j: int|
            0 <= j < i ==> !(rows[j].conversation_id == conv && rows[j].endpoint_id == ep),
    ensures
        spec_update_rows(rows, conv, ep, new, now) == rows.update(
            i,
            OngoingMatchView {
                conversation_id: rows[i].conversation_id,
                endpoint_id: rows[i].endpoint_id,
                parameters: merge_params(rows[i].parameters, new),
                created_at: rows[i].created_at,
                updated_at: now,
            },
        ),
    decreases i,
{
    if i == 0 {
        assert(spec_update_rows(rows, conv, ep, new, now) =~= rows.update(
            0,
            OngoingMatchView {
                conversation_id: rows[0].conversation_id,
                endpoint_id: rows[0].endpoint_id,
                parameters: merge_params(rows[0].parameters, new),
                created_at: rows[0].created_at,
                updated_at: now,
            },
        ));
    } else {
        let rest = rows.subrange(1, rows.len() as int);
        assert(rest[i - 1] == rows[i]);
        assert forall|j: int|
            0 <= j < i - 1 implies !(rest[j].conversation_id == conv && rest[j].endpoint_id
            == ep) by {
            assert(rest[j] == rows[j + 1]);
        }
        lemma_update_at(rest, conv, ep, new, now, i - 1);
        assert(spec_update_rows(rows, conv, ep, new, now) =~= rows.update(
            i,
            OngoingMatchView {
                conversation_id: rows[i].conversation_id,
                endpoint_id: rows[i].endpoint_id,
                parameters: merge_params(rows[i].parameters, new),
                created_at: rows[i].created_at,
                updated_at: now,
            },
        ));
    }
}

proof fn lemma_update_absent(
    rows: Seq<OngoingMatchView>,
    conv: Seq<char>,
    ep: Seq<char>,
    new: Seq<ParameterValueView>,
    now: Seq<char>,
)
    requires
        forall|j: int|
            0 <= j < rows.len() ==> !(rows[j].conversation_id == conv && rows[j].endpoint_id
                == ep),
    ensures
        spec_update_rows(rows, conv, ep, new, now) == rows.push(
            OngoingMatchView {
                conversation_id: conv,
                endpoint_id: ep,
                parameters: merge_params(Seq::<ParameterValueView>::empty(), new),
                created_at: now,
                updated_at: now,
            },
        ),
    decreases rows.len(),
{
    if rows.len() == 0 {
        assert(spec_update_rows(rows, conv, ep, new, now) =~= rows.push(
            OngoingMatchView {
                conversation_id: conv,
                endpoint_id: ep,
                parameters: merge_params(Seq::<ParameterValueView>::empty(), new),
                created_at: now,
                updated_at: now,
            },
        ));
    } else {
        let rest = rows.subrange(1, rows.len() as int);
        assert forall|j: int|
            0 <= j < rest.len() implies !(rest[j].conversation_id == conv && rest[j].endpoint_id
            == ep) by {
            assert(rest[j] == rows[j + 1]);
        }
        lemma_update_absent(rest, conv, ep, new, now);
        assert(spec_update_rows(rows, conv, ep, new, now) =~= rows.push(
            OngoingMatchView {
                conversation_id: conv,
                endpoint_id: ep,
                parameters: merge_params(Seq::<ParameterValueView>::empty(), new),
                created_at: now,
                updated_at: now,
            },
        ));
    }
}

/// A filtered store holds no row with the filtered-out key.
proof fn lemma_find_row_filtered(rows: Seq<OngoingMatchView>, conv: Seq<char>, ep: Seq<char>)
    ensures
        find_row(spec_complete_rows(rows, conv, ep), conv, ep) is None,
{
    let pred = |r: OngoingMatchView| !(r.conversation_id == conv && r.endpoint_id == ep);
    let kept = rows.filter(pred);
    assert forall|i: int| 0 <= i < kept.len() implies pred(#[trigger] kept[i]) by {
        rows.lemma_filter_pred(pred, i);
    }
    lemma_find_row_none(kept, conv, ep);
}

proof fn lemma_find_row_none(rows: Seq<OngoingMatchView>, conv: Seq<char>, ep: Seq<char>)
    requires
        forall|i: int|
            0 <= i < rows.len() ==> !(rows[i].conversation_id == conv && rows[i].endpoint_id
                == ep),
    ensures
        find_row(rows, conv, ep) is None,
    decreases rows.len(),
{
    if rows.len() > 0 {
        let rest = rows.subrange(1, rows.len() as int);
        assert forall|i: int|
            0 <= i < rest.len() implies !(rest[i].conversation_id == conv && rest[i].endpoint_id
            == ep) by {
            assert(rest[i] == rows[i + 1]);
        }
        lemma_find_row_none(rest, conv, ep);
    }
}

/// The first endpoint parameter with the given name, if any.
pub open spec fn find_param_view(eps: Seq<EndpointParameterView>, nm: Seq<char>) -> Option<
    EndpointParameterView,
>
    decreases eps.len(),
{
    if eps.len() == 0 {
        None
    } else if eps[0].name == nm {
        Some(eps[0])
    } else {
        find_param_view(eps.subrange(1, eps.len() as int), nm)
    }
}

/// An endpoint parameter accepts a name as an alias.
pub open spec fn alt_accepts(p: EndpointParameterView, nm: Seq<char>) -> bool {
    match p.alternatives {
        Some(alts) => alts.contains(nm),
        None => false,
    }
}

/// A matched name settles a required name when they are equal, when the
/// required parameter lists the matched name among its alternatives, or when
/// the matched parameter lists the required name among its alternatives.
pub open spec fn satisfied_via(
    req: Seq<char>,
    mname: Seq<char>,
    eps: Seq<EndpointParameterView>,
) -> bool {
    ||| mname == req
    ||| (match find_param_view(eps, req) {
        Some(p) => alt_accepts(p, mname),
        None => false,
    })
    ||| (match find_param_view(eps, mname) {
        Some(mp) => alt_accepts(mp, req),
        None => false,
    })
}

/// A required name is satisfied when some matched parameter settles it.
pub open spec fn satisfied_spec(
    req: Seq<char>,
    matched: Seq<ParameterValueView>,
    eps: Seq<EndpointParameterView>,
) -> bool {
    exists|i: int| 0 <= i < matched.len() && satisfied_via(req, matched[i].name, eps)
}

fn find_param_idx(eps: &Vec<EndpointParameter>, nm: &str) -> (r: Option<usize>)
    ensures
        match r {
            Some(j) => j < eps@.len() && find_param_view(params_view(eps@), nm@) == Some(
                params_view(eps@)[j as int],
            ),
            None => find_param_view(params_view(eps@), nm@) is None,
        },
{
    let n = eps.len();
    let ghost ev = params_view(eps@);
    let mut i: usize = 0;
    proof {
        assert(ev.subrange(0, n as int) =~= ev);
    }
    while i < n
        invariant
            n == eps@.len(),
            ev == params_view(eps@),
            0 <= i <= n,
            find_param_view(ev, nm@) == find_param_view(ev.subrange(i as int, n as int), nm@),
        decreases n - i,
    {
        proof {
            let rem = ev.subrange(i as int, n as int);
            assert(rem[0] == ev[i as int]);
            assert(rem.subrange(1, rem.len() as int) =~= ev.subrange(i + 1 as int, n as int));
        }
        if crate::text::str_eq(eps[i].name.as_str(), nm) {
            return Some(i);
        }
        i = i + 1;
    }
    proof {
        assert(ev.subrange(n as int, n as int) =~= Seq::<EndpointParameterView>::empty());
    }
    None
}

fn alt_accepts_exec(p: &EndpointParameter, nm: &str) -> (r: bool)
    ensures
        r == alt_accepts(p@, nm@),
{
    match &p.alternatives {
        Some(alts) => {
            let n = alts.len();
            let ghost av = views_of(alts@);
            let mut i: usize = 0;
            while i < n
                invariant
                    n == alts@.len(),
                    av == views_of(alts@),
                    p.alternatives == Some(*alts),
                    0 <= i <= n,
                    forall|j: int| 0 <= j < i ==> av[j] != nm@,
                decreases n - i,
            {
                if crate::text::str_eq(alts[i].as_str(), nm) {
                    proof {
                        assert(av[i as int] == alts@[i as int]@);
                        assert(av[i as int] == nm@);
                        assert(av.contains(nm@));
                        assert(p.alternatives == Some(*alts));
                        assert(p@.alternatives == Some(av));
                    }
                    return true;
                }
                i = i + 1;
            }
            proof {
                if av.contains(nm@) {
                    let j = choose|j: int| 0 <= j < av.len() && av[j] == nm@;
                    assert(false);
                }
            }
            false
        },
        None => false,
    }
}

/// Decides whether a required parameter name is already satisfied by the
/// accumulated values, directly or through declared alternatives.
pub fn is_parameter_satisfied(
    required_param: &str,
    matched_parameters: &Vec<ParameterValue>,
    endpoint_parameters: &Vec<EndpointParameter>,
) -> (r: bool)
    ensures
        r == satisfied_spec(
            required_param@,
            pv_views(matched_parameters@),
            params_view(endpoint_parameters@),
        ),
{
    let ghost mv = pv_views(matched_parameters@);
    let ghost ev = params_view(endpoint_parameters@);
    let req_idx = find_param_idx(endpoint_parameters, required_param);
    let n = matched_parameters.len();
    let mut i: usize = 0;
    while i < n
        invariant
            n == matched_parameters@.len(),
            mv == pv_views(matched_parameters@),
            ev == params_view(endpoint_parameters@),
            0 <= i <= n,
            match req_idx {
                Some(j) => j < endpoint_parameters@.len() && find_param_view(ev, required_param@)
                    == Some(ev[j as int]),
                None => find_param_view(ev, required_param@) is None,
            },
            forall|j: int| 0 <= j < i ==> !satisfied_via(required_param@, mv[j].name, ev),
        decreases n - i,
    {
        let mname = &matched_parameters[i].name;
        proof {
            assert(mv[i as int].name == mname@);
        }
        if crate::text::str_eq(mname.as_str(), required_param) {
            return true;
        }
        if let Some(j) = req_idx {
            if alt_accepts_exec(&endpoint_parameters[j], mname.as_str()) {
                return true;
            }
        }
        let m_idx = find_param_idx(endpoint_parameters, mname.as_str());
        if let Some(k) = m_idx {
            if alt_accepts_exec(&endpoint_parameters[k], required_param) {
                return true;
            }
        }
        i = i + 1;
    }
    false
}

impl ProgressiveMatchingManager {
    /// Evaluates how complete the accumulated parameters are against the
    /// required parameter names: each required name is either satisfied (see
    /// `is_parameter_satisfied`) or reported missing, and the match is
    /// complete exactly when nothing is missing.
    pub fn check_completion(
        &self,
        conversation_id: &str,
        endpoint_id: &str,
        required_parameters: &Vec<String>,
        endpoint_parameters: &Vec<EndpointParameter>,
    ) -> (r: ProgressiveMatchResult)
        ensures
            r.conversation_id@ == conversation_id@,
            r.endpoint_id@ == endpoint_id@,
            pv_views(r.matched_parameters@) == stored_params(
                rows_view(self.rows@),
                conversation_id@,
                endpoint_id@,
            ),
            views_of(r.missing_parameters@) == views_of(required_parameters@).filter(
                |nm: Seq<char>|
                    !satisfied_spec(
                        nm,
                        stored_params(rows_view(self.rows@), conversation_id@, endpoint_id@),
                        params_view(endpoint_parameters@),
                    ),
            ),
            r.is_complete == (forall|i: int|
                0 <= i < required_parameters@.len() ==> satisfied_spec(
                    views_of(required_parameters@)[i],
                    stored_params(rows_view(self.rows@), conversation_id@, endpoint_id@),
                    params_view(endpoint_parameters@),
                )),
            r.ready_for_execution == r.is_complete,
            r.completion_percentage == (if required_parameters@.len() > 0 {
                100 * (required_parameters@.len() - r.missing_parameters@.len()) as int
                    / required_parameters@.len() as int
            } else {
                100int
            }),
            0 <= r.completion_percentage <= 100,
    {
        let ghost stored = stored_params(rows_view(self.rows@), conversation_id@, endpoint_id@);
        let ghost ev = params_view(endpoint_parameters@);
        let ghost pred = |nm: Seq<char>| !satisfied_spec(nm, stored, ev);
        let matched_parameters: Vec<ParameterValue> = match self.get_match(
            conversation_id,
            endpoint_id,
        ) {
            Some(row) => row.parameters,
            None => Vec::new(),
        };
        proof {
            assert(pv_views(matched_parameters@) =~= stored);
        }
        let n = required_parameters.len();
        let ghost rv = views_of(required_parameters@);
        let mut missing: Vec<String> = Vec::new();
        let mut satisfied_count: usize = 0;
        let mut i: usize = 0;
        proof {
            assert(rv.subrange(0, 0) =~= Seq::<Seq<char>>::empty());
            crate::text::lemma_filter_all(Seq::<Seq<char>>::empty(), pred);
            assert(views_of(missing@) =~= Seq::<Seq<char>>::empty());
        }
        while i < n
            invariant
                n == required_parameters@.len(),
                rv == views_of(required_parameters@),
                stored == pv_views(matched_parameters@),
                ev == params_view(endpoint_parameters@),
                pred == (|nm: Seq<char>| !satisfied_spec(nm, stored, ev)),
                0 <= i <= n,
                views_of(missing@) == rv.subrange(0, i as int).filter(pred),
                satisfied_count + missing@.len() == i,
            decreases n - i,
        {
            proof {
                assert(rv.subrange(0, i + 1 as int).drop_last() =~= rv.subrange(0, i as int));
                assert(rv.subrange(0, i + 1 as int) =~= rv.subrange(0, i as int).push(
                    rv[i as int],
                ));
                crate::text::lemma_filter_push(rv.subrange(0, i as int), rv[i as int], pred);
                assert(rv[i as int] == required_parameters@[i as int]@);
            }
            let ok = is_parameter_satisfied(
                required_parameters[i].as_str(),
                &matched_parameters,
                endpoint_parameters,
            );
            if ok {
                satisfied_count = satisfied_count + 1;
            } else {
                let ghost om = missing@;
                let nm = string_clone(&required_parameters[i]);
                missing.push(nm);
                proof {
                    assert(views_of(missing@) =~= views_of(om).push(rv[i as int]));
                }
            }
            i = i + 1;
        }
        proof {
            assert(rv.subrange(0, n as int) =~= rv);
        }
        let is_complete = missing.is_empty();
        proof {
            if missing@.len() == 0 {
                assert forall|q: int| 0 <= q < rv.len() implies satisfied_spec(
                    rv[q],
                    stored,
                    ev,
                ) by {
                    if !satisfied_spec(rv[q], stored, ev) {
                        rv.lemma_filter_contains(pred, q);
                    }
                }
            } else {
                let bad = views_of(missing@)[0];
                rv.lemma_filter_pred(pred, 0);
                crate::text::lemma_filter_elems(rv, pred);
                assert(rv.contains(bad));
                let q = choose|q: int| 0 <= q < rv.len() && rv[q] == bad;
                assert(!satisfied_spec(rv[q], stored, ev));
            }
        }
        let completion_percentage: u32 = if n > 0 {
            proof {
                crate::text::lemma_filter_len_le(rv, pred);
                assert(100 * (satisfied_count as int) / (n as int) <= 100) by (nonlinear_arith)
                    requires
                        0 < n as int,
                        satisfied_count as int <= n as int,
                ;
                assert(100 * (satisfied_count as int) / (n as int) >= 0) by (nonlinear_arith)
                    requires
                        0 < n as int,
                        0 <= satisfied_count as int,
                ;
            }
            (((satisfied_count as u128) * 100) / (n as u128)) as u32
        } else {
            100
        };
        ProgressiveMatchResult {
            conversation_id: conversation_id.to_owned(),
            endpoint_id: endpoint_id.to_owned(),
            endpoint_description: {
                let mut d = String::from_str("Endpoint ");
                d.append(endpoint_id);
                d
            },
            matched_parameters,
            missing_parameters: missing,
            is_complete,
            completion_percentage,
            ready_for_execution: is_complete,
        }
    }
}

/// Updates the store and immediately evaluates completion for the key.
pub fn integrate_progressive_matching(
    conversation_id: &str,
    endpoint_id: &str,
    new_parameters: &Vec<ParameterValue>,
    required_parameter_names: &Vec<String>,
    manager: &mut ProgressiveMatchingManager,
    endpoint_parameters: &Vec<EndpointParameter>,
    now: &str,
) -> (r: ProgressiveMatchResult)
    ensures
        rows_view(final(manager).rows@) == spec_update_rows(
            rows_view(old(manager).rows@),
            conversation_id@,
            endpoint_id@,
            pv_views(new_parameters@),
            now@,
        ),
        r.conversation_id@ == conversation_id@,
        r.endpoint_id@ == endpoint_id@,
        r.is_complete == (forall|i: int|
            0 <= i < required_parameter_names@.len() ==> satisfied_spec(
                views_of(required_parameter_names@)[i],
                stored_params(rows_view(final(manager).rows@), conversation_id@, endpoint_id@),
                params_view(endpoint_parameters@),
            )),
        r.ready_for_execution == r.is_complete,
{
    manager.update_match(conversation_id, endpoint_id, new_parameters, now);
    manager.check_completion(
        conversation_id,
        endpoint_id,
        required_parameter_names,
        endpoint_parameters,
    )
}

/// The current UTC time rendered as an RFC 3339 string.
///
/// Relies on `chrono::Utc::now` and `chrono::DateTime::to_rfc3339`.  The
/// result depends on the clock, so nothing is promised of its contents.
#[verifier::external_body]
pub fn now_rfc3339() -> String {
    chrono::Utc::now().to_rfc3339()
}

/// Completing a match after any update leaves nothing behind for the key:
/// a read after the deletion finds no row.
pub proof fn lemma_complete_after_update(
    rows: Seq<OngoingMatchView>,
    conv: Seq<char>,
    ep: Seq<char>,
    new: Seq<ParameterValueView>,
    now: Seq<char>,
)
    ensures
        find_row(
            spec_complete_rows(spec_update_rows(rows, conv, ep, new, now), conv, ep),
            conv,
            ep,
        ) is None,
{
    lemma_find_row_filtered(spec_update_rows(rows, conv, ep, new, now), conv, ep);
}


proof fn lemma_params_map_dom(ps: Seq<ParameterValueView>, nm: Seq<char>)
    ensures
        params_map(ps).dom().contains(nm) == has_pv_name(ps, nm),
    decreases ps.len(),
{
    if ps.len() > 0 {
        lemma_params_map_dom(ps.drop_last(), nm);
        if has_pv_name(ps, nm) {
            let i = choose|i: int| 0 <= i < ps.len() && ps[i].name == nm;
            if i < ps.len() - 1 {
                assert(ps.drop_last()[i].name == nm);
            }
        }
        if has_pv_name(ps.drop_last(), nm) {
            let i = choose|i: int| 0 <= i < ps.drop_last().len() && ps.drop_last()[i].name == nm;
            assert(ps[i].name == nm);
        }
        if ps.last().name == nm {
            assert(ps[ps.len() - 1].name == nm);
        }
    }
}

proof fn lemma_params_map_at(ps: Seq<ParameterValueView>, j: int)
    requires
        unique_pv_names(ps),
        0 <= j < ps.len(),
    ensures
        params_map(ps).dom().contains(ps[j].name),
        params_map(ps)[ps[j].name] == ps[j].value,
    decreases ps.len(),
{
    if j == ps.len() - 1 {
    } else {
        assert(unique_pv_names(ps.drop_last())) by {
            assert forall|a: int, b: int|
                0 <= a < b < ps.drop_last().len() implies ps.drop_last()[a].name
                != ps.drop_last()[b].name by {
                assert(ps[a].name != ps[b].name);
            }
        }
        assert(ps.drop_last()[j] == ps[j]);
        lemma_params_map_at(ps.drop_last(), j);
        assert(ps[j].name != ps.last().name);
    }
}

proof fn lemma_unique_drop_last(ps: Seq<ParameterValueView>)
    requires
        unique_pv_names(ps),
        ps.len() > 0,
    ensures
        unique_pv_names(ps.drop_last()),
{
    assert forall|a: int, b: int|
        0 <= a < b < ps.drop_last().len() implies ps.drop_last()[a].name
        != ps.drop_last()[b].name by {
        assert(ps[a].name != ps[b].name);
    }
}

proof fn lemma_update_entry_unique(ps: Seq<ParameterValueView>, np: ParameterValueView)
    requires
        unique_pv_names(ps),
    ensures
        unique_pv_names(update_entry(ps, np)),
        update_entry(ps, np).len() >= ps.len(),
        forall|q: int|
            0 <= q < update_entry(ps, np).len() ==> (#[trigger] update_entry(ps, np)[q]).name
                == if q < ps.len() {
                ps[q].name
            } else {
                np.name
            },
{
    if has_pv_name(ps, np.name) {
        let j = first_pv_index(ps, np.name);
        lemma_first_pv_index_props(ps, np.name);
    }
}

proof fn lemma_first_pv_index_props(ps: Seq<ParameterValueView>, nm: Seq<char>)
    requires
        has_pv_name(ps, nm),
    ensures
        0 <= first_pv_index(ps, nm) < ps.len(),
        ps[first_pv_index(ps, nm)].name == nm,
    decreases ps.len(),
{
    if ps.len() > 0 && ps[0].name != nm {
        let rest = ps.subrange(1, ps.len() as int);
        assert(has_pv_name(rest, nm)) by {
            let i = choose|i: int| 0 <= i < ps.len() && ps[i].name == nm;
            assert(rest[i - 1].name == nm);
        }
        lemma_first_pv_index_props(rest, nm);
        assert(ps[1 + first_pv_index(rest, nm)] == rest[first_pv_index(rest, nm)]);
    }
}

/// Merging one value updates the name-to-value map by one insertion.
proof fn lemma_update_entry_map(ps: Seq<ParameterValueView>, np: ParameterValueView)
    requires
        unique_pv_names(ps),
    ensures
        params_map(update_entry(ps, np)) == params_map(ps).insert(np.name, np.value),
{
    let out = update_entry(ps, np);
    lemma_update_entry_unique(ps, np);
    let lhs = params_map(out);
    let rhs = params_map(ps).insert(np.name, np.value);
    assert forall|k: Seq<char>| lhs.dom().contains(k) == rhs.dom().contains(k) by {
        lemma_params_map_dom(out, k);
        lemma_params_map_dom(ps, k);
        if has_pv_name(out, k) {
            let i = choose|i: int| 0 <= i < out.len() && out[i].name == k;
            if i < ps.len() {
                assert(ps[i].name == k);
            }
        }
        if has_pv_name(ps, k) {
            let i = choose|i: int| 0 <= i < ps.len() && ps[i].name == k;
            assert(out[i].name == k);
        }
        if np.name == k && !has_pv_name(ps, k) {
            assert(out[out.len() - 1].name == k);
        }
    }
    assert forall|k: Seq<char>| lhs.dom().contains(k) implies lhs[k] == rhs[k] by {
        lemma_params_map_dom(out, k);
        let i = choose|i: int| 0 <= i < out.len() && out[i].name == k;
        lemma_params_map_at(out, i);
        if k == np.name {
            if has_pv_name(ps, np.name) {
                lemma_first_pv_index_props(ps, np.name);
                let j = first_pv_index(ps, np.name);
                assert(out[j].name == k && out[j].value == np.value);
                lemma_params_map_at(out, j);
            } else {
                assert(out[out.len() - 1].value == np.value);
                lemma_params_map_at(out, out.len() - 1);
            }
        } else {
            assert(i < ps.len());
            assert(out[i].value == ps[i].value) by {
                if has_pv_name(ps, np.name) {
                    lemma_first_pv_index_props(ps, np.name);
                    assert(i != first_pv_index(ps, np.name));
                }
            }
            lemma_params_map_at(ps, i);
        }
    }
    assert(lhs =~= rhs);
}

proof fn lemma_merge_unique(ex: Seq<ParameterValueView>, new: Seq<ParameterValueView>)
    requires
        unique_pv_names(ex),
    ensures
        unique_pv_names(merge_params(ex, new)),
    decreases new.len(),
{
    if new.len() > 0 {
        lemma_update_entry_unique(ex, new[0]);
        lemma_merge_unique(update_entry(ex, new[0]), new.subrange(1, new.len() as int));
    }
}

/// The map described by a merged list: the new values win over the stored
/// ones, key by key.
proof fn lemma_merge_map(ex: Seq<ParameterValueView>, new: Seq<ParameterValueView>)
    requires
        unique_pv_names(ex),
    ensures
        params_map(merge_params(ex, new)) == params_map(ex).union_prefer_right(params_map(new)),
    decreases new.len(),
{
    if new.len() == 0 {
        assert(params_map(new) =~= Map::<Seq<char>, Seq<char>>::empty());
        assert(params_map(ex).union_prefer_right(params_map(new)) =~= params_map(ex));
    } else {
        let s = new.drop_last();
        let x = new.last();
        assert(s.push(x) =~= new);
        lemma_merge_push(ex, s, x);
        assert(merge_params(ex, new) == update_entry(merge_params(ex, s), x));
        lemma_merge_map(ex, s);
        lemma_merge_unique(ex, s);
        lemma_update_entry_map(merge_params(ex, s), x);
        assert(params_map(merge_params(ex, new)) == params_map(ex).union_prefer_right(
            params_map(s),
        ).insert(x.name, x.value));
        assert(params_map(new) == params_map(s).insert(x.name, x.value));
        assert(params_map(ex).union_prefer_right(params_map(s)).insert(x.name, x.value)
            =~= params_map(ex).union_prefer_right(params_map(s).insert(x.name, x.value)));
    }
}

/// Updates with disjoint parameter-name sets commute: for one key, merging
/// first `a` and then `b` describes the same name-to-value map as merging
/// first `b` and then `a`.
pub proof fn lemma_update_commutative_disjoint(
    ex: Seq<ParameterValueView>,
    a: Seq<ParameterValueView>,
    b: Seq<ParameterValueView>,
)
    requires
        unique_pv_names(ex),
        forall|nm: Seq<char>| !(has_pv_name(a, nm) && has_pv_name(b, nm)),
    ensures
        params_map(merge_params(merge_params(ex, a), b)) == params_map(
            merge_params(merge_params(ex, b), a),
        ),
{
    lemma_merge_map(ex, a);
    lemma_merge_map(ex, b);
    lemma_merge_unique(ex, a);
    lemma_merge_unique(ex, b);
    lemma_merge_map(merge_params(ex, a), b);
    lemma_merge_map(merge_params(ex, b), a);
    let me = params_map(ex);
    let ma = params_map(a);
    let mb = params_map(b);
    assert forall|nm: Seq<char>| !(ma.dom().contains(nm) && mb.dom().contains(nm)) by {
        lemma_params_map_dom(a, nm);
        lemma_params_map_dom(b, nm);
    }
    assert(me.union_prefer_right(ma).union_prefer_right(mb) =~= me.union_prefer_right(
        mb,
    ).union_prefer_right(ma));
}

/// For an overlapping name, the later update wins: after merging `a` and
/// then `b`, a name that `b` carries holds `b`'s value for it.
pub proof fn lemma_update_last_write_wins(
    ex: Seq<ParameterValueView>,
    a: Seq<ParameterValueView>,
    b: Seq<ParameterValueView>,
    nm: Seq<char>,
)
    requires
        unique_pv_names(ex),
        has_pv_name(b, nm),
    ensures
        params_map(merge_params(merge_params(ex, a), b))[nm] == params_map(b)[nm],
{
    lemma_merge_map(ex, a);
    lemma_merge_unique(ex, a);
    lemma_merge_map(merge_params(ex, a), b);
    lemma_params_map_dom(b, nm);
}

/// The names of a merged list are the union of the names merged.
proof fn lemma_merge_names(
    ex: Seq<ParameterValueView>,
    new: Seq<ParameterValueView>,
    nm: Seq<char>,
)
    ensures
        has_pv_name(merge_params(ex, new), nm) == (has_pv_name(ex, nm) || has_pv_name(new, nm)),
    decreases new.len(),
{
    if new.len() == 0 {
        if has_pv_name(new, nm) {
            let i = choose|i: int| 0 <= i < new.len() && new[i].name == nm;
            assert(false);
        }
    } else {
        let ex1 = update_entry(ex, new[0]);
        let rest = new.subrange(1, new.len() as int);
        lemma_merge_names(ex1, rest, nm);
        assert(has_pv_name(ex1, nm) == (has_pv_name(ex, nm) || new[0].name == nm)) by {
            lemma_has_pv_update_entry(ex, new[0], nm);
        }
        assert(has_pv_name(new, nm) == (new[0].name == nm || has_pv_name(rest, nm))) by {
            if has_pv_name(new, nm) {
                let i = choose|i: int| 0 <= i < new.len() && new[i].name == nm;
                if i > 0 {
                    assert(rest[i - 1].name == nm);
                }
            }
            if has_pv_name(rest, nm) {
                let i = choose|i: int| 0 <= i < rest.len() && rest[i].name == nm;
                assert(new[i + 1].name == nm);
            }
            if new[0].name == nm {
                assert(new[0].name == nm && 0 < new.len());
            }
        }
    }
}

proof fn lemma_has_pv_update_entry(
    ps: Seq<ParameterValueView>,
    np: ParameterValueView,
    nm: Seq<char>,
)
    ensures
        has_pv_name(update_entry(ps, np), nm) == (has_pv_name(ps, nm) || np.name == nm),
{
    let out = update_entry(ps, np);
    if has_pv_name(ps, np.name) {
        lemma_first_pv_index_props(ps, np.name);
        let j = first_pv_index(ps, np.name);
        if has_pv_name(ps, nm) {
            let i = choose|i: int| 0 <= i < ps.len() && ps[i].name == nm;
            assert(out[i].name == nm);
        }
        if np.name == nm {
            assert(out[j].name == nm);
        }
        if has_pv_name(out, nm) {
            let i = choose|i: int| 0 <= i < out.len() && out[i].name == nm;
            assert(ps[i].name == nm);
        }
    } else {
        if has_pv_name(ps, nm) {
            let i = choose|i: int| 0 <= i < ps.len() && ps[i].name == nm;
            assert(out[i].name == nm);
        }
        if np.name == nm {
            assert(out[out.len() - 1].name == nm);
        }
        if has_pv_name(out, nm) {
            let i = choose|i: int| 0 <= i < out.len() && out[i].name == nm;
            if i < ps.len() {
                assert(ps[i].name == nm);
            }
        }
    }
}

/// After an update, the stored parameters for the key are the merge of what
/// was stored with what was supplied.
pub proof fn lemma_stored_after_update(
    rows: Seq<OngoingMatchView>,
    conv: Seq<char>,
    ep: Seq<char>,
    new: Seq<ParameterValueView>,
    now: Seq<char>,
)
    ensures
        stored_params(spec_update_rows(rows, conv, ep, new, now), conv, ep) == merge_params(
            stored_params(rows, conv, ep),
            new,
        ),
    decreases rows.len(),
{
    let out = spec_update_rows(rows, conv, ep, new, now);
    if rows.len() == 0 {
        assert(out[0].conversation_id == conv && out[0].endpoint_id == ep);
        assert(out.subrange(1, 1) =~= Seq::<OngoingMatchView>::empty());
    } else if rows[0].conversation_id == conv && rows[0].endpoint_id == ep {
        assert(out[0].parameters == merge_params(rows[0].parameters, new));
    } else {
        let rest = rows.subrange(1, rows.len() as int);
        lemma_stored_after_update(rest, conv, ep, new, now);
        assert(out[0] == rows[0]);
        assert(out.subrange(1, out.len() as int) =~= spec_update_rows(rest, conv, ep, new, now));
    }
}

/// A follow-up that supplies every still-missing required name completes the
/// match: afterwards every required name is satisfied.
pub proof fn lemma_followup_completes(
    rows: Seq<OngoingMatchView>,
    conv: Seq<char>,
    ep: Seq<char>,
    new: Seq<ParameterValueView>,
    now: Seq<char>,
    required: Seq<Seq<char>>,
    eps: Seq<EndpointParameterView>,
)
    requires
        forall|i: int|
            0 <= i < required.len() ==> satisfied_spec(
                #[trigger] required[i],
                stored_params(rows, conv, ep),
                eps,
            ) || has_pv_name(new, required[i]),
    ensures
        forall|i: int|
            0 <= i < required.len() ==> satisfied_spec(
                #[trigger] required[i],
                stored_params(spec_update_rows(rows, conv, ep, new, now), conv, ep),
                eps,
            ),
{
    lemma_stored_after_update(rows, conv, ep, new, now);
    let ex = stored_params(rows, conv, ep);
    let merged = merge_params(ex, new);
    assert forall|i: int| 0 <= i < required.len() implies satisfied_spec(
        #[trigger] required[i],
        merged,
        eps,
    ) by {
        let req = required[i];
        if satisfied_spec(req, ex, eps) {
            let k = choose|k: int| 0 <= k < ex.len() && satisfied_via(req, ex[k].name, eps);
            assert(has_pv_name(ex, ex[k].name));
            lemma_merge_names(ex, new, ex[k].name);
            assert(has_pv_name(merged, ex[k].name));
            let j = choose|j: int| 0 <= j < merged.len() && merged[j].name == ex[k].name;
            assert(satisfied_via(req, merged[j].name, eps));
        } else {
            lemma_merge_names(ex, new, req);
            assert(has_pv_name(merged, req));
            let j = choose|j: int| 0 <= j < merged.len() && merged[j].name == req;
            assert(satisfied_via(req, merged[j].name, eps));
        }
    }
}


/// One progressive resume, end to end: when a follow-up supplies every
/// still-missing required name for a key, then after merging it into the
/// store every required name is satisfied; any name the follow-up supplies
/// reads back with the follow-up's value for it; and completing the match
/// afterwards leaves no row behind for the key.
pub proof fn lemma_progressive_resume(
    rows: Seq<OngoingMatchView>,
    conv: Seq<char>,
    ep: Seq<char>,
    new: Seq<ParameterValueView>,
    now: Seq<char>,
    required: Seq<Seq<char>>,
    eps: Seq<EndpointParameterView>,
    nm: Seq<char>,
)
    requires
        unique_pv_names(stored_params(rows, conv, ep)),
        forall|i: int|
            0 <= i < required.len() ==> satisfied_spec(
                #[trigger] required[i],
                stored_params(rows, conv, ep),
                eps,
            ) || has_pv_name(new, required[i]),
        has_pv_name(new, nm),
    ensures
        forall|i: int|
            0 <= i < required.len() ==> satisfied_spec(
                #[trigger] required[i],
                stored_params(spec_update_rows(rows, conv, ep, new, now), conv, ep),
                eps,
            ),
        params_map(stored_params(spec_update_rows(rows, conv, ep, new, now), conv, ep))[nm]
            == params_map(new)[nm],
        find_row(
            spec_complete_rows(spec_update_rows(rows, conv, ep, new, now), conv, ep),
            conv,
            ep,
        ) is None,
{
    lemma_followup_completes(rows, conv, ep, new, now, required, eps);
    lemma_stored_after_update(rows, conv, ep, new, now);
    lemma_merge_map(stored_params(rows, conv, ep), new);
    lemma_params_map_dom(new, nm);
    lemma_complete_after_update(rows, conv, ep, new, now);
}

} // verus!
