//! Application containers: their paths in the deployment tree, the refs they
//! come from, and the plans that pull, check out and update them.

use vstd::prelude::*;

use crate::action::{Action, ActionV, checkout_options, spec_checkout_options};
use crate::remote::{OstreeOpts, ReconcilePlan, init_container_remote, spec_reconcile_actions};
use crate::revision::{RevisionData, marker_json, write_revision_to_file};
use crate::strutil::{str_chars, string_from};

verus! {

/// The update directive of one chunk of a deployment job. `rev` of `None`
/// means there is nothing to check out for this application.
#[derive(Debug)]
pub struct ChunkMetaData {
    pub rev: Option<String>,
}

/// The directory an application's unit definition is materialized from.
pub fn get_unit_path(unit: &str) -> (p: String)
    ensures
        p@ == "/apps/"@ + unit@ + "/"@,
{
    let mut p = String::from_str("/apps/");
    p.append(unit);
    p.append("/");
    p
}

/// The deployment directory of an application.
pub fn get_application_path(name: &str) -> (p: String)
    ensures
        p@ == "/apps/"@ + name@,
{
    let mut p = String::from_str("/apps/");
    p.append(name);
    p
}

/// The application's marker file, inside its deployment directory. Its
/// presence witnesses a completed checkout.
pub fn get_validation_file(name: &str) -> (p: String)
    ensures
        p@ == "/apps/"@ + name@ + "/CheckoutDone"@,
{
    let mut p = get_application_path(name);
    p.append("/CheckoutDone");
    p
}

/// Where the shared content-store repository lives.
pub fn get_repo_path() -> (p: String)
    ensures
        p@ == "/apps/ostree_repo"@,
{
    String::from_str("/apps/ostree_repo")
}

// ---------------------------------------------------------------------------
// Application names from content-store refs.
// ---------------------------------------------------------------------------

/// The position of the last colon of `s`, or -1 where it has none.
pub open spec fn last_colon(s: Seq<char>) -> int
    decreases s.len(),
{
    if s.len() == 0 {
        -1
    } else if s[s.len() - 1] == ':' {
        s.len() - 1
    } else {
        last_colon(s.take(s.len() - 1))
    }
}

/// The application name a ref denotes: whatever follows its last colon, or
/// the whole ref where it has none.
pub open spec fn spec_ref_name(s: Seq<char>) -> Seq<char> {
    s.skip(last_colon(s) + 1)
}

pub(crate) proof fn lemma_last_colon_at(s: Seq<char>, j: int)
    requires
        0 <= j < s.len(),
        s[j] == ':',
        forall|t: int| j < t < s.len() ==> s[t] != ':',
    ensures
        last_colon(s) == j,
    decreases s.len(),
{
    if j < s.len() - 1 {
        let s1 = s.take(s.len() - 1);
        assert(s1[j] == s[j]);
        assert(forall|t: int| j < t < s1.len() ==> s1[t] == s[t] && s[t] != ':');
        lemma_last_colon_at(s1, j);
    }
}

pub(crate) proof fn lemma_last_colon_none(s: Seq<char>)
    requires
        forall|t: int| 0 <= t < s.len() ==> s[t] != ':',
    ensures
        last_colon(s) == -1,
    decreases s.len(),
{
    if s.len() > 0 {
        let s1 = s.take(s.len() - 1);
        assert(forall|t: int| 0 <= t < s1.len() ==> s1[t] == s[t] && s[t] != ':');
        lemma_last_colon_none(s1);
    }
}

/// The application name a content-store ref denotes.
pub fn app_name_from_ref(r: &str) -> (name: String)
    ensures
        name@ == spec_ref_name(r@),
{
    let v = str_chars(r);
    let mut k = v.len();
    while k > 0
        invariant
            k <= v@.len(),
            v@ == r@,
            forall|t: int| k <= t < v@.len() ==> v@[t] != ':',
        decreases k,
    {
        if v[k - 1] == ':' {
            proof {
                lemma_last_colon_at(r@, k - 1);
            }
            return string_from(&v, k);
        }
        k = k - 1;
    }
    proof {
        lemma_last_colon_none(r@);
        assert(v@.skip(0) =~= r@);
    }
    string_from(&v, 0)
}

/// The applications the agent manages, one name each, in the order their
/// refs were listed by the content store.
#[derive(Debug)]
pub struct Applications(pub Vec<String>);

impl Applications {
    /// The applications named by a list of content-store refs.
    pub fn new(refs: &Vec<String>) -> (a: Applications)
        ensures
            a.0.deep_view() == refs.deep_view().map_values(|r: Seq<char>| spec_ref_name(r)),
    {
        let mut a = Applications(Vec::new());
        let mut i: usize = 0;
        while i < refs.len()
            invariant
                i <= refs@.len(),
                a.0.deep_view() == refs.deep_view().take(i as int).map_values(
                    |r: Seq<char>| spec_ref_name(r),
                ),
            decreases refs@.len() - i,
        {
            let ghost prev = a.0.deep_view();
            a.add(app_name_from_ref(refs[i].as_str()));
            proof {
                let f = |r: Seq<char>| spec_ref_name(r);
                let dv = refs.deep_view();
                assert(prev.len() == i);
                assert(a.0@.len() == prev.len() + 1);
                assert(a.0.deep_view().len() == i + 1);
                assert forall|k: int| 0 <= k <= i implies a.0.deep_view()[k] == dv.take(
                    i + 1 as int,
                ).map_values(f)[k] by {
                    assert(dv.take(i + 1 as int).map_values(f)[k] == f(dv[k]));
                    assert(dv[k] == refs@[k].deep_view());
                    if k < i {
                        assert(a.0.deep_view()[k] == a.0@[k].deep_view());
                        assert(prev[k] == dv.take(i as int).map_values(f)[k]);
                        assert(dv.take(i as int).map_values(f)[k] == f(dv[k]));
                    } else {
                        assert(a.0.deep_view()[k] == a.0@[k].deep_view());
                        assert(a.0@[k].deep_view() == spec_ref_name(refs@[i as int]@));
                    }
                }
                assert(a.0.deep_view() =~= dv.take(i + 1 as int).map_values(f));
            }
            i = i + 1;
        }
        proof {
            assert(refs.deep_view().take(refs@.len() as int) =~= refs.deep_view());
        }
        a
    }

    fn add(&mut self, elem: String)
        ensures
            final(self).0@ == old(self).0@.push(elem),
    {
        self.0.push(elem);
    }

    /// The application names as a plain vector.
    pub fn into_vec(self) -> (v: Vec<String>)
        ensures
            v == self.0,
    {
        self.0
    }
}

// ---------------------------------------------------------------------------
// Pull, checkout and update plans.
// ---------------------------------------------------------------------------

/// How one pull is performed: from which remote, how deep, and which refs.
#[derive(Debug)]
pub struct PullOptions {
    pub remote: String,
    pub depth: u32,
    pub refs: Vec<String>,
}

/// The options of the shallow pull for one chunk: depth one, from the
/// application's own remote, restricted to exactly the requested revision.
/// A chunk without a revision builds no pull at all.
pub fn pull_ostree_ref(metadata: &ChunkMetaData, name: &str) -> (o: Option<PullOptions>)
    ensures
        metadata.rev.deep_view() is None ==> o is None,
        (metadata.rev.deep_view() matches Some(r) ==> (o matches Some(p) && p.remote@ == name@
            && p.depth == 1 && p.refs.deep_view() == seq![r])),
{
    match &metadata.rev {
        None => None,
        Some(r) => {
            let mut refs: Vec<String> = Vec::new();
            refs.push(r.clone());
            proof {
                assert(refs.deep_view() =~= seq![r@]);
            }
            Some(PullOptions { remote: String::from_str(name), depth: 1, refs })
        },
    }
}

/// The filesystem side of checking one revision out: clear the deployment
/// directory where it exists, recreate it, materialize the revision with the
/// fixed checkout options, then store the shifted marker. A chunk without a
/// revision checks nothing out.
pub open spec fn spec_checkout_plan(
    rev: Option<Seq<char>>,
    name: Seq<char>,
    old_cur: Option<Seq<char>>,
    dir_exists: bool,
) -> Seq<ActionV> {
    match rev {
        None => Seq::empty(),
        Some(r) => {
            let dir = "/apps/"@ + name;
            let marker = "/apps/"@ + name + "/CheckoutDone"@;
            let tail = seq![
                ActionV::CreateAppDir { path: dir },
                ActionV::CheckoutRev { path: dir, rev: r, options: spec_checkout_options() },
                ActionV::WriteMarker { path: marker, text: marker_json(Some(r), old_cur) },
            ];
            if dir_exists {
                seq![ActionV::RemoveAppDir { path: dir }] + tail
            } else {
                tail
            }
        },
    }
}

/// Builds the checkout plan for one chunk. `old` is the application's stored
/// revision history and `dir_exists` whether its deployment directory is
/// present; the marker written by the plan records the requested revision as
/// current and the previously current one as previous.
pub fn checkout_container(metadata: &ChunkMetaData, name: &str, old: RevisionData, dir_exists: bool) -> (plan: Vec<Action>)
    ensures
        plan.deep_view() == spec_checkout_plan(
            metadata.rev.deep_view(),
            name@,
            old.current_rev.deep_view(),
            dir_exists,
        ),
{
    let mut plan: Vec<Action> = Vec::new();
    let rev = match &metadata.rev {
        None => {
            proof {
                assert(plan.deep_view() =~= Seq::<ActionV>::empty());
            }
            return plan;
        },
        Some(r) => r.clone(),
    };
    let dir = get_application_path(name);
    let marker = get_validation_file(name);
    if dir_exists {
        plan.push(Action::RemoveAppDir { path: dir.clone() });
    }
    plan.push(Action::CreateAppDir { path: dir.clone() });
    plan.push(Action::CheckoutRev { path: dir, rev: rev.clone(), options: checkout_options() });
    let shifted = RevisionData { current_rev: Some(rev), previous_rev: old.current_rev };
    let text = write_revision_to_file(&shifted);
    plan.push(Action::WriteMarker { path: marker, text });
    proof {
        assert(plan.deep_view() =~= spec_checkout_plan(
            metadata.rev.deep_view(),
            name@,
            old.current_rev.deep_view(),
            dir_exists,
        ));
    }
    plan
}

/// The whole content-side update of one chunk: reconcile the remote, pull
/// the revision, then check it out. A chunk without a revision mutates
/// nothing at all.
pub open spec fn spec_update_plan(
    name: Seq<char>,
    rev: Option<Seq<char>>,
    registered: Option<Seq<char>>,
    expected: Seq<char>,
    gpg: bool,
    old_cur: Option<Seq<char>>,
    dir_exists: bool,
) -> Seq<ActionV> {
    match rev {
        None => Seq::empty(),
        Some(r) => spec_reconcile_actions(name, registered, expected, gpg) + seq![
            ActionV::Pull { remote: name, depth: 1, refs: seq![r] },
        ] + spec_checkout_plan(Some(r), name, old_cur, dir_exists),
    }
}

/// Builds the content-side update plan for one chunk. `registered_url` is
/// the URL the content store currently has for the application's remote, if
/// any; `old` and `dir_exists` are as in `checkout_container`.
pub fn update_container(
    name: &str,
    metadata: ChunkMetaData,
    options: &OstreeOpts,
    registered_url: Option<&String>,
    old: RevisionData,
    dir_exists: bool,
) -> (plan: Vec<Action>)
    ensures
        plan.deep_view() == spec_update_plan(
            name@,
            metadata.rev.deep_view(),
            registered_url.deep_view(),
            options.hostname@,
            options.ostree_gpg_verify,
            old.current_rev.deep_view(),
            dir_exists,
        ),
{
    let mut plan: Vec<Action> = Vec::new();
    if metadata.rev.is_none() {
        proof {
            assert(plan.deep_view() =~= Seq::<ActionV>::empty());
        }
        return plan;
    }
    match init_container_remote(registered_url, options) {
        ReconcilePlan::Create => {
            plan.push(Action::AddRemote {
                name: String::from_str(name),
                url: options.hostname.clone(),
                gpg_verify: options.ostree_gpg_verify,
            });
        },
        ReconcilePlan::Reuse => {},
        ReconcilePlan::Replace => {
            plan.push(Action::DeleteRemote { name: String::from_str(name) });
            plan.push(Action::AddRemote {
                name: String::from_str(name),
                url: options.hostname.clone(),
                gpg_verify: options.ostree_gpg_verify,
            });
        },
    }
    if let Some(pull) = pull_ostree_ref(&metadata, name) {
        plan.push(Action::Pull { remote: pull.remote, depth: pull.depth, refs: pull.refs });
    }
    let mut rest = checkout_container(&metadata, name, old, dir_exists);
    plan.append(&mut rest);
    proof {
        assert(plan.deep_view() =~= spec_update_plan(
            name@,
            metadata.rev.deep_view(),
            registered_url.deep_view(),
            options.hostname@,
            options.ostree_gpg_verify,
            old.current_rev.deep_view(),
            dir_exists,
        ));
    }
    plan
}

/// Checking out shifts the stored history: the marker a checkout plan writes
/// records the requested revision as current and the previously current
/// revision as previous — that is what reading it back yields.
pub proof fn lemma_checkout_shifts_history(
    rev: Seq<char>,
    name: Seq<char>,
    old_cur: Option<Seq<char>>,
    dir_exists: bool,
)
    ensures
        ({
            let plan = spec_checkout_plan(Some(rev), name, old_cur, dir_exists);
            let last = plan[plan.len() - 1];
            &&& last matches ActionV::WriteMarker { text, .. } && crate::revision::p_marker(text)
                == Some((Some(rev), old_cur))
        }),
{
    crate::revision::lemma_marker_round_trip(Some(rev), old_cur);
}

} // verus!
