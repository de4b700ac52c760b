//! Remote reconciliation: keeping each application's content-store remote
//! pointed at the configured source URL.

use vstd::prelude::*;

use crate::action::ActionV;

verus! {

/// Settings of the content-store side of the agent: where remotes point and
/// whether pulls are GPG-verified.
#[derive(Debug)]
pub struct OstreeOpts {
    pub hostname: String,
    pub ostree_name_remote: String,
    pub ostree_gpg_verify: bool,
    pub ostreepush_ssh_port: String,
    pub ostreepush_ssh_user: String,
    pub ostreepush_ssh_pwd: String,
}

/// What reconciliation decides to do with an application's remote.
#[derive(Debug, PartialEq, Eq, Structural, Clone, Copy)]
pub enum ReconcilePlan {
    /// No registration yet: add one pointing at the expected URL.
    Create,
    /// Registered at the expected URL already: touch nothing.
    Reuse,
    /// Registered at some other URL: delete the registration, then recreate
    /// it at the expected URL.
    Replace,
}

/// The decision as a function of the registered URL (if any) and the
/// expected one. URL equality is the sole criterion; the verification flag
/// does not participate.
pub open spec fn spec_reconcile(registered: Option<Seq<char>>, expected: Seq<char>) -> ReconcilePlan {
    match registered {
        None => ReconcilePlan::Create,
        Some(url) => if url == expected {
            ReconcilePlan::Reuse
        } else {
            ReconcilePlan::Replace
        },
    }
}

/// How many registrations the plan deletes.
pub open spec fn plan_deletes(p: ReconcilePlan) -> nat {
    match p {
        ReconcilePlan::Replace => 1,
        _ => 0,
    }
}

/// How many registrations the plan adds.
pub open spec fn plan_adds(p: ReconcilePlan) -> nat {
    match p {
        ReconcilePlan::Reuse => 0,
        _ => 1,
    }
}

/// The URL registered for the application once the plan has been executed.
pub open spec fn registry_after(
    registered: Option<Seq<char>>,
    p: ReconcilePlan,
    expected: Seq<char>,
) -> Option<Seq<char>> {
    match p {
        ReconcilePlan::Reuse => registered,
        _ => Some(expected),
    }
}

/// The store mutations that execute a reconciliation decision: nothing for
/// a reuse, an add for a missing registration, a delete followed by an add
/// for a replacement.
pub open spec fn spec_reconcile_actions(
    name: Seq<char>,
    registered: Option<Seq<char>>,
    expected: Seq<char>,
    gpg: bool,
) -> Seq<ActionV> {
    match spec_reconcile(registered, expected) {
        ReconcilePlan::Create => seq![
            ActionV::AddRemote { name: name, url: expected, gpg_verify: gpg },
        ],
        ReconcilePlan::Reuse => Seq::empty(),
        ReconcilePlan::Replace => seq![
            ActionV::DeleteRemote { name: name },
            ActionV::AddRemote { name: name, url: expected, gpg_verify: gpg },
        ],
    }
}

/// Decides what to do with the application's remote: `registered_url` is the
/// URL of its current registration in the content store, or `None` where it
/// has none, and the expected URL is `options.hostname`.
///
/// The caller executes the plan against the store: a delete and/or an add,
/// both at `options.hostname` with `options.ostree_gpg_verify`, or nothing.
pub fn init_container_remote(registered_url: Option<&String>, options: &OstreeOpts) -> (p:
    ReconcilePlan)
    ensures
        p == spec_reconcile(registered_url.deep_view(), options.hostname@),
{
    match registered_url {
        None => ReconcilePlan::Create,
        Some(url) => {
            if *url == options.hostname {
                ReconcilePlan::Reuse
            } else {
                ReconcilePlan::Replace
            }
        },
    }
}

/// For each registered remote, whether its URL already is the configured
/// one: matches are reused as they stand, the rest are reported as
/// mismatches. Inspection only; no registration is touched.
pub fn _init_ostree_remotes(remotes: &Vec<(String, String)>, options: &OstreeOpts) -> (r: Vec<
    (String, bool),
>)
    ensures
        r.deep_view() == remotes.deep_view().map_values(
            |p: (Seq<char>, Seq<char>)|
                {
                    (p.0, p.1 == options.hostname@)
                },
        ),
{
    let mut out: Vec<(String, bool)> = Vec::new();
    let mut i: usize = 0;
    while i < remotes.len()
        invariant
            i <= remotes@.len(),
            out.deep_view() == remotes.deep_view().take(i as int).map_values(
                |p: (Seq<char>, Seq<char>)|
                    {
                        (p.0, p.1 == options.hostname@)
                    },
            ),
        decreases remotes@.len() - i,
    {
        let ghost prev = out.deep_view();
        let name = remotes[i].0.clone();
        let matches = remotes[i].1 == options.hostname;
        out.push((name, matches));
        proof {
            let f = |p: (Seq<char>, Seq<char>)|
                {
                    (p.0, p.1 == options.hostname@)
                };
            let dv = remotes.deep_view();
            assert(prev.len() == i);
            assert(out@.len() == prev.len() + 1);
            assert forall|k: int| 0 <= k <= i implies out.deep_view()[k] == dv.take(
                i + 1 as int,
            ).map_values(f)[k] by {
                assert(dv.take(i + 1 as int).map_values(f)[k] == f(dv[k]));
                assert(dv[k] == remotes@[k].deep_view());
                assert(out.deep_view()[k] == out@[k].deep_view());
                if k < i {
                    assert(prev[k] == dv.take(i as int).map_values(f)[k]);
                    assert(dv.take(i as int).map_values(f)[k] == f(dv[k]));
                }
            }
            assert(out.deep_view() =~= dv.take(i + 1 as int).map_values(f));
        }
        i = i + 1;
    }
    proof {
        assert(remotes.deep_view().take(remotes@.len() as int) =~= remotes.deep_view());
    }
    out
}

/// After a reconciliation completes, whatever was registered before, the
/// registered URL is the configured one.
pub proof fn lemma_reconcile_establishes_url(registered: Option<Seq<char>>, url: Seq<char>)
    ensures
        registry_after(registered, spec_reconcile(registered, url), url) == Some(url),
{
}

/// Reconciliation is idempotent: once a reconciliation with some URL has run,
/// reconciling again with the same URL decides to reuse the registration and
/// mutates nothing.
pub proof fn lemma_reconcile_idempotent(registered: Option<Seq<char>>, url: Seq<char>)
    ensures
        ({
            let after = registry_after(registered, spec_reconcile(registered, url), url);
            &&& spec_reconcile(after, url) == ReconcilePlan::Reuse
            &&& plan_deletes(spec_reconcile(after, url)) == 0
            &&& plan_adds(spec_reconcile(after, url)) == 0
            &&& registry_after(after, spec_reconcile(after, url), url) == after
        }),
{
}

/// Reconciling against a changed URL always performs exactly one delete
/// followed by one add, and afterwards the registered URL is the new one.
pub proof fn lemma_reconcile_replaces(old_url: Seq<char>, new_url: Seq<char>)
    requires
        old_url != new_url,
    ensures
        spec_reconcile(Some(old_url), new_url) == ReconcilePlan::Replace,
        plan_deletes(spec_reconcile(Some(old_url), new_url)) == 1,
        plan_adds(spec_reconcile(Some(old_url), new_url)) == 1,
        registry_after(Some(old_url), spec_reconcile(Some(old_url), new_url), new_url) == Some(
            new_url,
        ),
{
}

} // verus!
