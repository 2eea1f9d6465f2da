//! The reconciliation pipeline.
//!
//! Each scanned recipe with monitoring data and a non-zero project id is
//! checked against the upstream version service. The version-selection
//! policy resolves the upstream version in strict priority order: first
//! stable version, else the latest version, else the first known version.
//! A recipe whose sanitized local version differs from the resolved upstream
//! version yields one required update. Fetches run under a bounded-
//! concurrency scheduler: at most `cap` lookups are outstanding at once, a
//! slot freeing as soon as any one lookup completes; one recipe's fetch
//! failure never aborts the rest. The collected updates are sorted by source
//! name before rendering.

use vstd::prelude::*;

use crate::recipes::{Recipe, RecipeView};
use crate::sequences::{lemma_vec_deep_view_insert, lemma_vec_deep_view_push};
use crate::strorder::{lemma_lex_le_total, lemma_lex_le_trans, lex_le, str_le};
use crate::version::{sanitize_version, spec_sanitize};

verus! {

/// The mathematical value of a [`VersionResponse`].
#[verifier::ext_equal]
pub ghost struct VersionResponseView {
    pub latest_version: Option<Seq<char>>,
    pub stable_versions: Seq<Seq<char>>,
    pub versions: Seq<Seq<char>>,
}

/// A version response from the upstream version-tracking service.
#[derive(Debug, Clone)]
pub struct VersionResponse {
    pub latest_version: Option<String>,
    pub stable_versions: Vec<String>,
    pub versions: Vec<String>,
}

impl View for VersionResponse {
    type V = VersionResponseView;

    open spec fn view(&self) -> VersionResponseView {
        VersionResponseView {
            latest_version: self.latest_version.deep_view(),
            stable_versions: self.stable_versions.deep_view(),
            versions: self.versions.deep_view(),
        }
    }
}

impl DeepView for VersionResponse {
    type V = VersionResponseView;

    open spec fn deep_view(&self) -> VersionResponseView {
        self.view()
    }
}

/// The mathematical value of a [`RequiredUpdate`].
#[verifier::ext_equal]
pub ghost struct RequiredUpdateView {
    pub source: Seq<char>,
    pub current_version: Seq<char>,
    pub latest_version: Seq<char>,
}

/// One package in need of a version bump: its name, its sanitized local
/// version, and the resolved upstream version.
#[derive(Debug, Clone)]
pub struct RequiredUpdate {
    pub source: String,
    pub current_version: String,
    pub latest_version: String,
}

impl View for RequiredUpdate {
    type V = RequiredUpdateView;

    open spec fn view(&self) -> RequiredUpdateView {
        RequiredUpdateView {
            source: self.source@,
            current_version: self.current_version@,
            latest_version: self.latest_version@,
        }
    }
}

impl DeepView for RequiredUpdate {
    type V = RequiredUpdateView;

    open spec fn deep_view(&self) -> RequiredUpdateView {
        self.view()
    }
}

/// The version-selection policy, in strict priority order: the first stable
/// version; else the latest version, if present; else the first known
/// version; else none.
pub open spec fn spec_select_version(v: VersionResponseView) -> Option<Seq<char>> {
    if v.stable_versions.len() > 0 {
        Some(v.stable_versions[0])
    } else if v.latest_version is Some {
        v.latest_version
    } else if v.versions.len() > 0 {
        Some(v.versions[0])
    } else {
        None
    }
}

/// Resolves the upstream version of a response by the version-selection
/// policy.
pub fn select_version(v: &VersionResponse) -> (o: Option<String>)
    ensures
        o.deep_view() == spec_select_version(v@),
{
    if v.stable_versions.len() > 0 {
        Some(v.stable_versions[0].clone())
    } else {
        match &v.latest_version {
            Some(l) => Some(l.clone()),
            None => {
                if v.versions.len() > 0 {
                    Some(v.versions[0].clone())
                } else {
                    None
                }
            },
        }
    }
}

/// The policy is total: it resolves a version exactly when the response
/// carries any version at all.
pub proof fn lemma_select_version_total(v: VersionResponseView)
    ensures
        spec_select_version(v) is Some <==> (v.stable_versions.len() > 0 || v.latest_version
            is Some || v.versions.len() > 0),
{
}

/// The project id to fetch for a recipe: its monitoring project id, except
/// that a recipe without monitoring data, or with the "not tracked" sentinel
/// id 0, needs no fetch.
pub open spec fn spec_fetch_needed(r: RecipeView) -> Option<i64> {
    match r.monitoring {
        Some(m) => if m.project_id != 0 {
            Some(m.project_id)
        } else {
            None
        },
        None => None,
    }
}

/// Whether a recipe needs an upstream lookup, and for which project id.
pub fn fetch_needed(r: &Recipe) -> (o: Option<i64>)
    ensures
        o == spec_fetch_needed(r@),
{
    match &r.monitoring {
        Some(m) => if m.project_id != 0 {
            Some(m.project_id)
        } else {
            None
        },
        None => None,
    }
}

/// What one recipe contributes: an update exactly when the recipe is
/// tracked, its fetch succeeded, the policy resolved a version, and that
/// version differs from the sanitized local version. `upstream` is `None`
/// when no fetch was made or the fetch failed.
pub open spec fn spec_evaluate(r: RecipeView, upstream: Option<VersionResponseView>) -> Option<
    RequiredUpdateView,
> {
    if spec_fetch_needed(r) is None {
        None
    } else {
        match upstream {
            None => None,
            Some(u) => match spec_select_version(u) {
                None => None,
                Some(next) => if next != spec_sanitize(r.version) {
                    Some(
                        RequiredUpdateView {
                            source: r.name,
                            current_version: spec_sanitize(r.version),
                            latest_version: next,
                        },
                    )
                } else {
                    None
                },
            },
        }
    }
}

/// A recipe with no monitoring data, or with the "not tracked" sentinel
/// project id 0, contributes no update, whatever the upstream returned.
pub proof fn lemma_untracked_contributes_nothing(
    r: RecipeView,
    upstream: Option<VersionResponseView>,
)
    requires
        r.monitoring is None || r.monitoring->Some_0.project_id == 0,
    ensures
        spec_evaluate(r, upstream) is None,
{
}

/// Evaluates one recipe against its fetched upstream response, `None`
/// standing for a skipped or failed fetch.
pub fn evaluate_recipe(r: &Recipe, upstream: Option<&VersionResponse>) -> (o: Option<
    RequiredUpdate,
>)
    ensures
        o.deep_view() == spec_evaluate(r@, upstream.deep_view()),
{
    let tracked_id = fetch_needed(r);
    if tracked_id.is_none() {
        return None;
    }
    match upstream {
        None => None,
        Some(u) => {
            match select_version(u) {
                None => None,
                Some(next) => {
                    let sanitized = sanitize_version(r.version.as_str());
                    let sanitized = sanitized.to_owned();
                    if !(next == sanitized) {
                        Some(
                            RequiredUpdate {
                                source: r.name.clone(),
                                current_version: sanitized,
                                latest_version: next,
                            },
                        )
                    } else {
                        None
                    }
                },
            }
        },
    }
}

/// The bounded-concurrency scheduler of the reconciliation fan-out.
///
/// The caller drains it by alternating two moves: [`Reconciler::start`]
/// admits the next recipe and hands back a token with the project id to
/// fetch, refusing while `cap` lookups are outstanding; and
/// [`Reconciler::complete`] returns a token with the fetch outcome,
/// recording that recipe's contribution. A slot frees as soon as any one
/// lookup completes; completion order is free. When all recipes are
/// admitted and no lookup is outstanding, [`Reconciler::into_updates`]
/// yields the collected updates.
pub struct Reconciler {
    recipes: Vec<Recipe>,
    cap: usize,
    next: usize,
    in_flight: Vec<usize>,
    completed: usize,
    updates: Vec<RequiredUpdate>,
}

impl Reconciler {
    /// The recipes under reconciliation.
    pub closed spec fn spec_recipes(&self) -> Seq<RecipeView> {
        self.recipes.deep_view()
    }

    /// The in-flight cap.
    pub closed spec fn spec_cap(&self) -> int {
        self.cap as int
    }

    /// How many recipes have been admitted.
    pub closed spec fn spec_next(&self) -> int {
        self.next as int
    }

    /// The tokens of the outstanding lookups, in admission order.
    pub closed spec fn spec_in_flight(&self) -> Seq<usize> {
        self.in_flight@
    }

    /// How many lookups have completed.
    pub closed spec fn spec_completed(&self) -> int {
        self.completed as int
    }

    /// The updates collected so far, in completion order.
    pub closed spec fn spec_updates(&self) -> Seq<RequiredUpdateView> {
        self.updates.deep_view()
    }

    /// The scheduler's invariant: every admitted recipe is either completed
    /// or outstanding, tokens are distinct and in range, and never more than
    /// `cap` lookups are outstanding at once.
    pub closed spec fn wf(&self) -> bool {
        &&& self.cap >= 1
        &&& self.next <= self.recipes@.len()
        &&& self.completed + self.in_flight@.len() == self.next
        &&& forall|i: int|
            0 <= i < self.in_flight@.len() ==> (#[trigger] self.in_flight@[i]) < self.next
        &&& forall|i: int, j: int|
            0 <= i < j < self.in_flight@.len() ==> self.in_flight@[i] != self.in_flight@[j]
        &&& self.in_flight@.len() <= self.cap
    }

    /// All recipes admitted and no lookup outstanding.
    pub open spec fn spec_done(&self) -> bool {
        self.spec_next() == self.spec_recipes().len() && self.spec_in_flight().len() == 0
    }

    /// A fresh scheduler over `recipes` with in-flight cap `cap`.
    pub fn new(recipes: Vec<Recipe>, cap: usize) -> (r: Reconciler)
        requires
            cap >= 1,
        ensures
            r.wf(),
            r.spec_recipes() == recipes.deep_view(),
            r.spec_cap() == cap as int,
            r.spec_next() == 0,
            r.spec_in_flight() == Seq::<usize>::empty(),
            r.spec_completed() == 0,
            r.spec_updates() == Seq::<RequiredUpdateView>::empty(),
    {
        let r = Reconciler {
            recipes,
            cap,
            next: 0,
            in_flight: Vec::new(),
            completed: 0,
            updates: Vec::new(),
        };
        proof {
            assert(r.spec_in_flight() =~= Seq::<usize>::empty());
            assert(r.spec_updates() =~= Seq::<RequiredUpdateView>::empty());
        }
        r
    }

    /// Admits the next recipe, handing back its token and the project id to
    /// fetch (`None` when the recipe is untracked and needs no lookup).
    /// Refuses exactly when no recipe is pending or `cap` lookups are
    /// already outstanding.
    pub fn start(&mut self) -> (r: Option<(usize, Option<i64>)>)
        requires
            old(self).wf(),
        ensures
            final(self).wf(),
            final(self).spec_recipes() == old(self).spec_recipes(),
            final(self).spec_cap() == old(self).spec_cap(),
            final(self).spec_updates() == old(self).spec_updates(),
            final(self).spec_completed() == old(self).spec_completed(),
            (r is Some) == (old(self).spec_next() < old(self).spec_recipes().len()
                && old(self).spec_in_flight().len() < old(self).spec_cap()),
            r matches Some(p) ==> ({
                &&& p.0 as int == old(self).spec_next()
                &&& p.1 == spec_fetch_needed(old(self).spec_recipes()[p.0 as int])
                &&& final(self).spec_next() == old(self).spec_next() + 1
                &&& final(self).spec_in_flight() == old(self).spec_in_flight().push(p.0)
            }),
            r is None ==> final(self).spec_next() == old(self).spec_next()
                && final(self).spec_in_flight() == old(self).spec_in_flight(),
    {
        if self.next < self.recipes.len() && self.in_flight.len() < self.cap {
            let token = self.next;
            proof {
                assert(self.spec_recipes()[token as int]
                    == self.recipes@[token as int].deep_view());
            }
            let pid = fetch_needed(&self.recipes[token]);
            self.in_flight.push(token);
            self.next = token + 1;
            proof {
                assert forall|i: int, j: int|
                    0 <= i < j < self.in_flight@.len() implies self.in_flight@[i]
                    != self.in_flight@[j] by {
                    if j < self.in_flight@.len() - 1 {
                    } else {
                        assert(self.in_flight@[i] < token);
                    }
                }
            }
            Some((token, pid))
        } else {
            None
        }
    }

    /// Returns a token with its fetch outcome, freeing its slot and
    /// recording the recipe's contribution: the collected updates grow by
    /// exactly that recipe's evaluation, failed or skipped fetches
    /// contributing nothing.
    pub fn complete(&mut self, token: usize, upstream: Option<&VersionResponse>)
        requires
            old(self).wf(),
            old(self).spec_in_flight().contains(token),
        ensures
            final(self).wf(),
            final(self).spec_recipes() == old(self).spec_recipes(),
            final(self).spec_cap() == old(self).spec_cap(),
            final(self).spec_next() == old(self).spec_next(),
            final(self).spec_completed() == old(self).spec_completed() + 1,
            final(self).spec_in_flight() == old(self).spec_in_flight().remove_value(token),
            final(self).spec_updates() == (match spec_evaluate(
                old(self).spec_recipes()[token as int],
                upstream.deep_view(),
            ) {
                Some(u) => old(self).spec_updates().push(u),
                None => old(self).spec_updates(),
            }),
    {
        proof {
            let iw = choose|i: int|
                0 <= i < self.in_flight@.len() && self.in_flight@[i] == token;
            assert(self.in_flight@[iw] == token);
            assert(self.in_flight@[iw] < self.next);
            assert(token < self.recipes@.len());
            assert(self.spec_recipes()[token as int] == self.recipes@[token as int].deep_view());
        }
        let upd = evaluate_recipe(&self.recipes[token], upstream);
        let n = self.in_flight.len();
        let mut idx: usize = 0;
        while idx < n && self.in_flight[idx] != token
            invariant
                0 <= idx <= n,
                n == self.in_flight@.len(),
                forall|j: int| 0 <= j < idx ==> self.in_flight@[j] != token,
            decreases n - idx,
        {
            idx += 1;
        }
        proof {
            if idx >= n {
                let iw = choose|i: int|
                    0 <= i < self.in_flight@.len() && self.in_flight@[i] == token;
                assert(self.in_flight@[iw] == token);
                assert(false);
            }
            self.in_flight@.index_of_first_ensures(token);
            let first = self.in_flight@.index_of_first(token)->Some_0;
            assert(self.in_flight@[first] == token);
            assert(first == idx as int);
        }
        let ghost old_in_flight = self.in_flight@;
        self.in_flight.remove(idx);
        self.completed = self.completed + 1;
        let ghost prev_updates = self.updates;
        match upd {
            Some(u) => {
                self.updates.push(u);
                proof {
                    lemma_vec_deep_view_push(self.updates, prev_updates, u);
                }
            },
            None => {},
        }
        proof {
            assert(old_in_flight.remove_value(token) =~= old_in_flight.remove(idx as int));
            assert forall|i: int, j: int|
                0 <= i < j < self.in_flight@.len() implies self.in_flight@[i]
                != self.in_flight@[j] by {
                let a = if i < idx as int {
                    i
                } else {
                    i + 1
                };
                let b = if j < idx as int {
                    j
                } else {
                    j + 1
                };
                assert(self.in_flight@[i] == old_in_flight[a]);
                assert(self.in_flight@[j] == old_in_flight[b]);
            }
        }
    }

    /// Never more than `cap` lookups are outstanding at once.
    pub proof fn lemma_in_flight_bounded(&self)
        requires
            self.wf(),
        ensures
            self.spec_in_flight().len() <= self.spec_cap(),
    {
    }

    /// While reconciliation is not done, the scheduler can always move:
    /// either a completion is outstanding, or a pending recipe can start
    /// within the cap. With each start and each completion counted by
    /// [`Reconciler::spec_outstanding`], every recipe is eventually
    /// resolved or skipped.
    pub proof fn lemma_progress(&self)
        requires
            self.wf(),
            !self.spec_done(),
        ensures
            self.spec_in_flight().len() > 0 || (self.spec_next() < self.spec_recipes().len()
                && self.spec_in_flight().len() < self.spec_cap()),
    {
    }

    /// The termination measure: pending admissions plus pending
    /// completions. Each start and each completion strictly decreases it.
    pub open spec fn spec_outstanding(&self) -> int {
        2 * self.spec_recipes().len() - self.spec_next() - self.spec_completed()
    }

    /// The measure never goes negative, and reaching zero is exactly being
    /// done.
    pub proof fn lemma_outstanding_zero_is_done(&self)
        requires
            self.wf(),
        ensures
            self.spec_outstanding() >= 0,
            self.spec_outstanding() == 0 ==> self.spec_done(),
    {
    }

    /// Whether all recipes are admitted and no lookup is outstanding.
    pub fn is_done(&self) -> (b: bool)
        ensures
            b == self.spec_done(),
    {
        self.next == self.recipes.len() && self.in_flight.len() == 0
    }

    /// Whether `token` names an outstanding lookup.
    pub fn is_in_flight(&self, token: usize) -> (b: bool)
        ensures
            b == self.spec_in_flight().contains(token),
    {
        let n = self.in_flight.len();
        let mut idx: usize = 0;
        while idx < n
            invariant
                0 <= idx <= n,
                n == self.in_flight@.len(),
                forall|j: int| 0 <= j < idx ==> self.in_flight@[j] != token,
            decreases n - idx,
        {
            if self.in_flight[idx] == token {
                return true;
            }
            idx += 1;
        }
        false
    }

    /// How many lookups are outstanding.
    pub fn in_flight_count(&self) -> (c: usize)
        ensures
            c as int == self.spec_in_flight().len(),
    {
        self.in_flight.len()
    }

    /// The collected updates, in completion order.
    pub fn into_updates(self) -> (out: Vec<RequiredUpdate>)
        ensures
            out.deep_view() == self.spec_updates(),
    {
        let Reconciler { updates, .. } = self;
        updates
    }
}

/// What reconciling a recipe list against per-recipe fetched responses
/// yields: each recipe's contribution in recipe order, recipes that
/// contribute nothing leaving no row.
pub open spec fn spec_updates_of(
    recipes: Seq<RecipeView>,
    responses: Seq<Option<VersionResponseView>>,
) -> Seq<RequiredUpdateView>
    decreases recipes.len(),
{
    if recipes.len() == 0 {
        Seq::empty()
    } else {
        let rest = spec_updates_of(recipes.drop_last(), responses.drop_last());
        match spec_evaluate(recipes.last(), responses[recipes.len() - 1]) {
            Some(u) => rest.push(u),
            None => rest,
        }
    }
}

/// Reconciles recipes against already-fetched upstream responses, one slot
/// per recipe with `None` for a skipped or failed fetch: drives the bounded
/// scheduler to completion and sorts the collected updates by source name.
pub fn reconcile_fetched(
    recipes: Vec<Recipe>,
    responses: &Vec<Option<VersionResponse>>,
    cap: usize,
) -> (out: Vec<RequiredUpdate>)
    requires
        cap >= 1,
        responses@.len() == recipes@.len(),
    ensures
        sorted_by_source(out.deep_view()),
        out.deep_view().to_multiset() == spec_updates_of(
            recipes.deep_view(),
            responses.deep_view(),
        ).to_multiset(),
{
    let ghost recs = recipes.deep_view();
    let ghost resps = responses.deep_view();
    let n = recipes.len();
    let mut rec = Reconciler::new(recipes, cap);
    let mut i: usize = 0;
    proof {
        assert(recs.take(0) =~= Seq::<RecipeView>::empty());
        assert(rec.spec_updates() =~= spec_updates_of(recs.take(0), resps.take(0)));
    }
    while i < n
        invariant
            0 <= i <= n,
            rec.wf(),
            rec.spec_recipes() == recs,
            recs.len() == n,
            resps.len() == n,
            resps == responses.deep_view(),
            n == responses@.len(),
            rec.spec_cap() == cap as int,
            cap >= 1,
            rec.spec_next() == i as int,
            rec.spec_in_flight().len() == 0,
            rec.spec_updates() == spec_updates_of(recs.take(i as int), resps.take(i as int)),
        decreases n - i,
    {
        let ghost prev_updates = rec.spec_updates();
        let r = rec.start();
        match r {
            Some((token, _pid)) => {
                proof {
                    assert(token == i);
                    assert(rec.spec_in_flight()[0] == token);
                    assert(rec.spec_in_flight().contains(token));
                }
                let resp: Option<&VersionResponse> = match &responses[token] {
                    Some(v) => Some(v),
                    None => None,
                };
                proof {
                    assert(responses@[token as int].deep_view() == resps[token as int]);
                    assert(resp.deep_view() == resps[token as int]);
                }
                let ghost before = rec.spec_in_flight();
                rec.complete(token, resp);
                proof {
                    before.index_of_first_ensures(token);
                    assert(before.index_of_first(token) == Some(0int));
                    assert(rec.spec_in_flight() =~= Seq::<usize>::empty());
                    assert(recs.take(i + 1).drop_last() =~= recs.take(i as int));
                    assert(resps.take(i + 1).drop_last() =~= resps.take(i as int));
                    assert(recs.take(i + 1).last() == recs[i as int]);
                    assert(resps.take(i + 1)[i as int] == resps[i as int]);
                    assert(rec.spec_updates() == spec_updates_of(
                        recs.take(i + 1),
                        resps.take(i + 1),
                    ));
                }
            },
            None => {
                proof {
                    assert(false);
                }
            },
        }
        i += 1;
    }
    proof {
        assert(recs.take(n as int) =~= recs);
        assert(resps.take(n as int) =~= resps);
    }
    let ups = rec.into_updates();
    let out = sort_updates(&ups);
    out
}

/// The rows of a report sorted ascending by source name.
pub open spec fn sorted_by_source(s: Seq<RequiredUpdateView>) -> bool {
    forall|i: int, j: int| 0 <= i < j < s.len() ==> lex_le(s[i].source, s[j].source)
}

/// A field-by-field copy of an update.
fn clone_update(u: &RequiredUpdate) -> (r: RequiredUpdate)
    ensures
        r == *u,
{
    let r = RequiredUpdate {
        source: u.source.clone(),
        current_version: u.current_version.clone(),
        latest_version: u.latest_version.clone(),
    };
    r
}

/// Sorts updates ascending by source name, case-sensitively, keeping
/// exactly the given rows.
pub fn sort_updates(v: &Vec<RequiredUpdate>) -> (out: Vec<RequiredUpdate>)
    ensures
        sorted_by_source(out.deep_view()),
        out@.to_multiset() == v@.to_multiset(),
        out.deep_view().to_multiset() == v.deep_view().to_multiset(),
{
    broadcast use vstd::seq_lib::group_to_multiset_ensures;

    let ghost vdv = v.deep_view();
    let mut out: Vec<RequiredUpdate> = Vec::new();
    let n = v.len();
    let mut i: usize = 0;
    proof {
        assert(v@.take(0) =~= Seq::<RequiredUpdate>::empty());
        assert(vdv.take(0) =~= Seq::<RequiredUpdateView>::empty());
        assert(out@ =~= Seq::<RequiredUpdate>::empty());
        assert(out.deep_view() =~= Seq::<RequiredUpdateView>::empty());
        assert(out@.to_multiset() =~= v@.take(0).to_multiset());
        assert(out.deep_view().to_multiset() =~= vdv.take(0).to_multiset());
    }
    while i < n
        invariant
            0 <= i <= n,
            n == v@.len(),
            vdv == v.deep_view(),
            vdv.len() == n,
            sorted_by_source(out.deep_view()),
            out@.to_multiset() == v@.take(i as int).to_multiset(),
            out.deep_view().to_multiset() == vdv.take(i as int).to_multiset(),
        decreases n - i,
    {
        let x = clone_update(&v[i]);
        let m = out.len();
        let mut p: usize = 0;
        while p < m && str_le(out[p].source.as_str(), x.source.as_str())
            invariant
                0 <= p <= m,
                m == out@.len(),
                x == v@[i as int],
                forall|q: int|
                    0 <= q < p ==> lex_le(#[trigger] out.deep_view()[q].source, x@.source),
            decreases m - p,
        {
            proof {
                assert(out.deep_view()[p as int] == out@[p as int].deep_view());
            }
            p += 1;
        }
        let ghost prev = out;
        let ghost xs = x@.source;
        out.insert(p, x);
        i += 1;
        proof {
            lemma_vec_deep_view_insert(out, prev, p as int, x);
            let dv = out.deep_view();
            let pdv = prev.deep_view();
            assert forall|a: int, b: int| 0 <= a < b < dv.len() implies lex_le(
                dv[a].source,
                dv[b].source,
            ) by {
                let pa = if a < p as int {
                    a
                } else {
                    a - 1
                };
                let pb = if b < p as int {
                    b
                } else {
                    b - 1
                };
                if a == p as int {
                    // x precedes the first row it does not follow, and by
                    // transitivity every row after that one.
                    assert(pdv[p as int] == prev@[p as int].deep_view());
                    assert(!lex_le(pdv[p as int].source, xs));
                    lemma_lex_le_total(pdv[p as int].source, xs);
                    assert(lex_le(xs, pdv[p as int].source));
                    if pb > p as int {
                        assert(lex_le(pdv[p as int].source, pdv[pb].source));
                        lemma_lex_le_trans(xs, pdv[p as int].source, pdv[pb].source);
                    }
                } else if b == p as int {
                    assert(lex_le(pdv[pa].source, xs));
                } else {
                    assert(lex_le(pdv[pa].source, pdv[pb].source));
                }
            }
            assert(v@.take(i as int) =~= v@.take(i - 1).push(v@[i - 1]));
            vstd::seq_lib::to_multiset_insert(prev@, p as int, x);
            vstd::seq_lib::to_multiset_build(v@.take(i - 1), v@[i - 1]);
            assert(out@.to_multiset() == v@.take(i as int).to_multiset());
            assert(vdv[i - 1] == v@[i - 1].deep_view());
            assert(vdv.take(i as int) =~= vdv.take(i - 1).push(vdv[i - 1]));
            vstd::seq_lib::to_multiset_insert(prev.deep_view(), p as int, x.deep_view());
            vstd::seq_lib::to_multiset_build(vdv.take(i - 1), vdv[i - 1]);
            assert(out.deep_view().to_multiset() == vdv.take(i as int).to_multiset());
        }
    }
    proof {
        assert(v@.take(n as int) =~= v@);
        assert(vdv.take(n as int) =~= vdv);
    }
    out
}

} // verus!
