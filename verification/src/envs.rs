//! Listing environments: which of the registered ones are inactive, and
//! what a listing shows.

use vstd::prelude::*;
use crate::bytes::lemma_lex_irreflexive;
use crate::environment::{
    copy_envs, dot_flox_views, env_views, holds, identity_lt, lemma_identity_total,
    lemma_identity_transitive, ActivatedEnvironments, DotFlox, EnvIdentity,
    UninitializedEnvironment,
};
use crate::error::RegistryError;
use crate::registered::{descriptors, RegisteredEnvironments};
use crate::registry::live;

verus! {

/// The ordered identities with `d` put in its place among them.
pub open spec fn insert_sorted(s: Seq<EnvIdentity>, d: EnvIdentity) -> Seq<EnvIdentity>
    decreases s.len(),
{
    if s.len() == 0 {
        seq![d]
    } else if identity_lt(s.last(), d) {
        s.push(d)
    } else {
        insert_sorted(s.drop_last(), d).push(s.last())
    }
}

/// Each identity comes before all that follow it.
pub open spec fn strictly_ordered(s: Seq<EnvIdentity>) -> bool {
    forall|i: int, j: int| 0 <= i < j < s.len() ==> identity_lt(#[trigger] s[i], #[trigger] s[j])
}

/// The registered environments that are not active, each once, in the
/// order of identities.
pub open spec fn inactive_spec(registered: Seq<EnvIdentity>, active: Seq<EnvIdentity>) -> Seq<
    EnvIdentity,
>
    decreases registered.len(),
{
    if registered.len() == 0 {
        Seq::empty()
    } else {
        let rest = inactive_spec(registered.drop_last(), active);
        let d = registered.last();
        if active.contains(d) || rest.contains(d) {
            rest
        } else {
            insert_sorted(rest, d)
        }
    }
}

/// Putting `d` in its place adds `d` and nothing else.
pub proof fn lemma_insert_members(s: Seq<EnvIdentity>, d: EnvIdentity)
    ensures
        insert_sorted(s, d).len() == s.len() + 1,
        forall|x: EnvIdentity| #[trigger]
            insert_sorted(s, d).contains(x) <==> (s.contains(x) || x == d),
    decreases s.len(),
{
    let out = insert_sorted(s, d);
    if s.len() == 0 {
        assert(out[0] == d);
    } else if identity_lt(s.last(), d) {
        assert(out[s.len() as int] == d);
        assert forall|x: EnvIdentity| #[trigger] out.contains(x) <==> (s.contains(x) || x == d) by {
            if s.contains(x) {
                let j = choose|j: int| 0 <= j < s.len() && s[j] == x;
                assert(out[j] == x);
            }
            if out.contains(x) && x != d {
                let j = choose|j: int| 0 <= j < out.len() && out[j] == x;
                assert(s[j] == x);
            }
        }
    } else {
        let front = s.drop_last();
        let inner = insert_sorted(front, d);
        lemma_insert_members(front, d);
        assert(out[out.len() - 1] == s.last());
        assert(s[s.len() - 1] == s.last());
        assert forall|x: EnvIdentity| #[trigger] out.contains(x) <==> (s.contains(x) || x == d) by {
            assert(inner.contains(x) <==> (front.contains(x) || x == d));
            if inner.contains(x) {
                let j = choose|j: int| 0 <= j < inner.len() && inner[j] == x;
                assert(out[j] == x);
            }
            if out.contains(x) && x != s.last() {
                let j = choose|j: int| 0 <= j < out.len() && out[j] == x;
                assert(inner[j] == x);
            }
            if front.contains(x) {
                let j = choose|j: int| 0 <= j < front.len() && front[j] == x;
                assert(s[j] == x);
            }
            if s.contains(x) && x != s.last() {
                let j = choose|j: int| 0 <= j < s.len() && s[j] == x;
                assert(front[j] == x);
            }
        }
    }
}

/// Putting a new identity in its place keeps the order.
pub proof fn lemma_insert_ordered(s: Seq<EnvIdentity>, d: EnvIdentity)
    requires
        strictly_ordered(s),
        !s.contains(d),
    ensures
        strictly_ordered(insert_sorted(s, d)),
    decreases s.len(),
{
    let out = insert_sorted(s, d);
    if s.len() == 0 {
    } else if identity_lt(s.last(), d) {
        assert forall|i: int, j: int| 0 <= i < j < out.len() implies identity_lt(
            #[trigger] out[i],
            #[trigger] out[j],
        ) by {
            if j == s.len() {
                if i < s.len() - 1 {
                    assert(identity_lt(s[i], s[s.len() - 1]));
                    lemma_identity_transitive(s[i], s.last(), d);
                }
            } else {
                assert(identity_lt(s[i], s[j]));
            }
        }
    } else {
        let front = s.drop_last();
        let inner = insert_sorted(front, d);
        let top = s.last();
        assert(strictly_ordered(front)) by {
            assert forall|i: int, j: int| 0 <= i < j < front.len() implies identity_lt(
                #[trigger] front[i],
                #[trigger] front[j],
            ) by {
                assert(identity_lt(s[i], s[j]));
            }
        }
        assert(!front.contains(d)) by {
            if front.contains(d) {
                let j = choose|j: int| 0 <= j < front.len() && front[j] == d;
                assert(s[j] == d);
            }
        }
        lemma_insert_ordered(front, d);
        lemma_insert_members(front, d);
        assert(s[s.len() - 1] == top);
        lemma_identity_total(d, top);
        assert forall|i: int, j: int| 0 <= i < j < out.len() implies identity_lt(
            #[trigger] out[i],
            #[trigger] out[j],
        ) by {
            if j == out.len() - 1 {
                let x = inner[i];
                assert(inner.contains(x));
                if x != d {
                    let k = choose|k: int| 0 <= k < front.len() && front[k] == x;
                    assert(identity_lt(s[k], s[s.len() - 1]));
                }
            } else {
                assert(identity_lt(inner[i], inner[j]));
            }
        }
    }
}

/// An environment is inactive exactly where it is registered and not active;
/// the inactive ones stand in the order of identities, so none stands twice.
pub proof fn law_inactive_is_difference(registered: Seq<EnvIdentity>, active: Seq<EnvIdentity>)
    ensures
        strictly_ordered(inactive_spec(registered, active)),
        inactive_spec(registered, active).no_duplicates(),
        forall|d: EnvIdentity| #[trigger]
            inactive_spec(registered, active).contains(d) <==> (registered.contains(d)
                && !active.contains(d)),
    decreases registered.len(),
{
    let out = inactive_spec(registered, active);
    if registered.len() > 0 {
        let front = registered.drop_last();
        let rest = inactive_spec(front, active);
        let last = registered.last();
        law_inactive_is_difference(front, active);
        assert(registered[registered.len() - 1] == last);
        if !(active.contains(last) || rest.contains(last)) {
            lemma_insert_members(rest, last);
            lemma_insert_ordered(rest, last);
        }
        assert forall|d: EnvIdentity| #[trigger]
            out.contains(d) <==> (registered.contains(d) && !active.contains(d)) by {
            assert(rest.contains(d) <==> (front.contains(d) && !active.contains(d)));
            if front.contains(d) {
                let j = choose|j: int| 0 <= j < front.len() && front[j] == d;
                assert(registered[j] == d);
            }
            if registered.contains(d) && d != last {
                let j = choose|j: int| 0 <= j < registered.len() && registered[j] == d;
                assert(front[j] == d);
            }
        }
    }
    assert forall|i: int, j: int| 0 <= i < j < out.len() implies out[i] != out[j] by {
        assert(identity_lt(out[i], out[j]));
        lemma_lex_irreflexive(out[i].name);
        if out[i].path is Some {
            lemma_lex_irreflexive(out[i].path->Some_0);
        }
    }
}

/// Two ordered sequences with the same members are the same sequence: the
/// order and the members fix the listing.
pub proof fn law_ordered_listing_is_unique(a: Seq<EnvIdentity>, b: Seq<EnvIdentity>)
    requires
        strictly_ordered(a),
        strictly_ordered(b),
        forall|d: EnvIdentity| a.contains(d) <==> b.contains(d),
    ensures
        a == b,
    decreases a.len(),
{
    if a.len() == 0 {
        if b.len() > 0 {
            assert(b.contains(b[0]));
        }
        assert(a =~= b);
    } else {
        let top = a.last();
        assert(a.contains(a[a.len() - 1]));
        assert(b.contains(top));
        let k = choose|k: int| 0 <= k < b.len() && b[k] == top;
        if k < b.len() - 1 {
            let other = b[b.len() - 1];
            assert(identity_lt(b[k], other));
            assert(b.contains(other));
            let m = choose|m: int| 0 <= m < a.len() && a[m] == other;
            if m < a.len() - 1 {
                assert(identity_lt(a[m], a[a.len() - 1]));
                lemma_identity_transitive(top, other, top);
            }
            lemma_lex_irreflexive(top.name);
            if top.path is Some {
                lemma_lex_irreflexive(top.path->Some_0);
            }
            assert(false);
        }
        let fa = a.drop_last();
        let fb = b.drop_last();
        assert forall|d: EnvIdentity| fa.contains(d) <==> fb.contains(d) by {
            lemma_lex_irreflexive(d.name);
            if d.path is Some {
                lemma_lex_irreflexive(d.path->Some_0);
            }
            if fa.contains(d) {
                let i = choose|i: int| 0 <= i < fa.len() && fa[i] == d;
                assert(identity_lt(a[i], a[a.len() - 1]));
                assert(a.contains(a[i]));
                let j = choose|j: int| 0 <= j < b.len() && b[j] == d;
                assert(fb[j] == d);
            }
            if fb.contains(d) {
                let i = choose|i: int| 0 <= i < fb.len() && fb[i] == d;
                assert(identity_lt(b[i], b[b.len() - 1]));
                assert(b.contains(b[i]));
                let j = choose|j: int| 0 <= j < a.len() && a[j] == d;
                assert(fa[j] == d);
            }
        }
        assert(strictly_ordered(fa)) by {
            assert forall|i: int, j: int| 0 <= i < j < fa.len() implies identity_lt(
                #[trigger] fa[i],
                #[trigger] fa[j],
            ) by {
                assert(identity_lt(a[i], a[j]));
            }
        }
        assert(strictly_ordered(fb)) by {
            assert forall|i: int, j: int| 0 <= i < j < fb.len() implies identity_lt(
                #[trigger] fb[i],
                #[trigger] fb[j],
            ) by {
                assert(identity_lt(b[i], b[j]));
            }
        }
        law_ordered_listing_is_unique(fa, fb);
        assert(a =~= fa.push(top));
        assert(b =~= fb.push(top));
    }
}

/// An environment that is both registered and active is never listed as
/// inactive.
pub proof fn law_active_never_inactive(
    registered: Seq<EnvIdentity>,
    active: Seq<EnvIdentity>,
    d: EnvIdentity,
)
    requires
        active.contains(d),
    ensures
        !inactive_spec(registered, active).contains(d),
{
    law_inactive_is_difference(registered, active);
}

proof fn lemma_insert_at(s: Seq<EnvIdentity>, d: EnvIdentity, k: int)
    requires
        0 <= k <= s.len(),
        k > 0 ==> identity_lt(s[k - 1], d),
        forall|j: int| k <= j < s.len() ==> !identity_lt(#[trigger] s[j], d),
    ensures
        insert_sorted(s, d) == s.insert(k, d),
    decreases s.len() - k,
{
    if s.len() == 0 {
        assert(seq![d] =~= s.insert(k, d));
    } else if k == s.len() {
        assert(s.push(d) =~= s.insert(k, d));
    } else {
        assert(!identity_lt(s[s.len() - 1], d));
        lemma_insert_at(s.drop_last(), d, k);
        assert(s.drop_last().insert(k, d).push(s.last()) =~= s.insert(k, d));
    }
}

/// The registered environments that are not active, each once, in the order
/// of identities.
pub fn inactive(
    registered: &Vec<UninitializedEnvironment>,
    active: &Vec<UninitializedEnvironment>,
) -> (out: Vec<UninitializedEnvironment>)
    ensures
        env_views(out@) == inactive_spec(env_views(registered@), env_views(active@)),
        strictly_ordered(env_views(out@)),
        forall|d: EnvIdentity| #[trigger]
            env_views(out@).contains(d) <==> (env_views(registered@).contains(d) && !env_views(
                active@,
            ).contains(d)),
{
    let ghost all = env_views(registered@);
    let ghost busy = env_views(active@);
    let mut out: Vec<UninitializedEnvironment> = Vec::new();
    let mut i: usize = 0;
    assert(env_views(out@) =~= inactive_spec(all.take(0), busy));
    while i < registered.len()
        invariant
            i <= registered.len(),
            all == env_views(registered@),
            busy == env_views(active@),
            env_views(out@) == inactive_spec(all.take(i as int), busy),
        decreases registered.len() - i,
    {
        assert(all.take(i + 1).drop_last() =~= all.take(i as int));
        assert(all.take(i + 1).last() == registered@[i as int]@);
        let env = &registered[i];
        if !holds(active, env) && !holds(&out, env) {
            let ghost earlier = env_views(out@);
            let mut k: usize = out.len();
            while k > 0 && !out[k - 1].precedes(env)
                invariant
                    k <= out.len(),
                    earlier == env_views(out@),
                    forall|j: int| k <= j < earlier.len() ==> !identity_lt(
                        #[trigger] earlier[j],
                        env@,
                    ),
                decreases k,
            {
                k -= 1;
            }
            proof {
                lemma_insert_at(earlier, env@, k as int);
            }
            let copy = env.duplicate();
            out.insert(k, copy);
            assert(env_views(out@) =~= earlier.insert(k as int, copy@));
        }
        i += 1;
    }
    assert(all.take(all.len() as int) =~= all);
    proof {
        law_inactive_is_difference(all, busy);
    }
    out
}

/// The given environments as an ordered set: each once, in the order of
/// identities.
pub fn ordered_set(envs: &Vec<UninitializedEnvironment>) -> (out: Vec<UninitializedEnvironment>)
    ensures
        env_views(out@) == inactive_spec(env_views(envs@), Seq::empty()),
        strictly_ordered(env_views(out@)),
        forall|d: EnvIdentity| #[trigger]
            env_views(out@).contains(d) <==> env_views(envs@).contains(d),
{
    let none: Vec<UninitializedEnvironment> = Vec::new();
    assert(env_views(none@) =~= Seq::empty());
    inactive(envs, &none)
}

/// The environments of the registry that are not active in the session.
/// `parsed` holds the descriptor files that could be read under the
/// registry's paths.
pub fn get_inactive_environments(
    registry: &RegisteredEnvironments,
    parsed: &Vec<DotFlox>,
    active: &ActivatedEnvironments,
) -> (out: Vec<UninitializedEnvironment>)
    ensures
        env_views(out@) == inactive_spec(
            descriptors(live(registry@), dot_flox_views(parsed@)),
            active@,
        ),
        strictly_ordered(env_views(out@)),
        forall|d: EnvIdentity| #[trigger]
            env_views(out@).contains(d) <==> (descriptors(
                live(registry@),
                dot_flox_views(parsed@),
            ).contains(d) && !active@.contains(d)),
{
    let available = registry.try_iter(parsed);
    inactive(&available, active.iter())
}

/// What a listing shows.
pub ghost enum ReportView {
    ActiveJson(Seq<EnvIdentity>),
    AllJson { active: Seq<EnvIdentity>, inactive: Seq<EnvIdentity> },
    NoActive,
    ActiveText(Seq<EnvIdentity>),
    NoneKnown,
    AllText { active: Seq<EnvIdentity>, inactive: Seq<EnvIdentity> },
}

/// What a listing shows, for the caller to print.
#[derive(Debug)]
pub enum Report {
    /// The active environments, as one structured list.
    ActiveJson(Vec<UninitializedEnvironment>),
    /// The active and the inactive environments, as one structured value.
    AllJson { active: Vec<UninitializedEnvironment>, inactive: Vec<UninitializedEnvironment> },
    /// The notice that no environment is active.
    NoActive,
    /// The active environments under their heading; there is at least one.
    ActiveText(Vec<UninitializedEnvironment>),
    /// The notice that no environment is known at all.
    NoneKnown,
    /// The active and the inactive environments, each under its heading
    /// where it is not empty; one of them is not.
    AllText { active: Vec<UninitializedEnvironment>, inactive: Vec<UninitializedEnvironment> },
}

impl View for Report {
    type V = ReportView;

    open spec fn view(&self) -> ReportView {
        match self {
            Report::ActiveJson(a) => ReportView::ActiveJson(env_views(a@)),
            Report::AllJson { active, inactive } => ReportView::AllJson {
                active: env_views(active@),
                inactive: env_views(inactive@),
            },
            Report::NoActive => ReportView::NoActive,
            Report::ActiveText(a) => ReportView::ActiveText(env_views(a@)),
            Report::NoneKnown => ReportView::NoneKnown,
            Report::AllText { active, inactive } => ReportView::AllText {
                active: env_views(active@),
                inactive: env_views(inactive@),
            },
        }
    }
}

/// The request to list environments.
#[derive(Clone, Copy, Debug)]
pub struct Envs {
    /// Show the active environments only.
    pub active: bool,
    /// Show structured output.
    pub json: bool,
}

/// What a request shows, given the active environments and what
/// enumerating the registry gave. A request for the active ones alone never
/// looks at the registry; any other fails where the registry did.
pub open spec fn report_spec(
    request: Envs,
    active: Seq<EnvIdentity>,
    registered: Result<Seq<EnvIdentity>, RegistryError>,
) -> Result<ReportView, RegistryError> {
    if request.active {
        if request.json {
            Ok(ReportView::ActiveJson(active))
        } else if active.len() == 0 {
            Ok(ReportView::NoActive)
        } else {
            Ok(ReportView::ActiveText(active))
        }
    } else {
        match registered {
            Err(e) => Err(e),
            Ok(r) => {
                let inactive = inactive_spec(r, active);
                if request.json {
                    Ok(ReportView::AllJson { active, inactive })
                } else if active.len() == 0 && inactive.len() == 0 {
                    Ok(ReportView::NoneKnown)
                } else {
                    Ok(ReportView::AllText { active, inactive })
                }
            },
        }
    }
}

/// The views of what enumerating the registry gave.
pub open spec fn enumeration_view(
    registered: Result<Vec<UninitializedEnvironment>, RegistryError>,
) -> Result<Seq<EnvIdentity>, RegistryError> {
    match registered {
        Ok(r) => Ok(env_views(r@)),
        Err(e) => Err(e),
    }
}

/// The view of a report or of the failure in its place.
pub open spec fn outcome_view(out: Result<Report, RegistryError>) -> Result<
    ReportView,
    RegistryError,
> {
    match out {
        Ok(r) => Ok(r@),
        Err(e) => Err(e),
    }
}

impl Envs {
    /// Decides what the listing shows.
    pub fn handle(
        self,
        active: &ActivatedEnvironments,
        registered: Result<Vec<UninitializedEnvironment>, RegistryError>,
    ) -> (out: Result<Report, RegistryError>)
        ensures
            outcome_view(out) == report_spec(self, active@, enumeration_view(registered)),
    {
        if self.active {
            if self.json {
                return Ok(Report::ActiveJson(copy_envs(active.iter())));
            }
            if active.last_active().is_none() {
                return Ok(Report::NoActive);
            }
            return Ok(Report::ActiveText(copy_envs(active.iter())));
        }
        match registered {
            Err(e) => Err(e),
            Ok(r) => {
                let rest = inactive(&r, active.iter());
                let shown = copy_envs(active.iter());
                if self.json {
                    Ok(Report::AllJson { active: shown, inactive: rest })
                } else if shown.len() == 0 && rest.len() == 0 {
                    Ok(Report::NoneKnown)
                } else {
                    Ok(Report::AllText { active: shown, inactive: rest })
                }
            },
        }
    }
}

} // verus!
