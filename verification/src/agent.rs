//! The agent's per-cycle decisions: interpreting chunk metadata, resolving
//! revisions from version strings, choosing the log level, and sequencing
//! one chunk's whole update.

use vstd::prelude::*;

use crate::action::{
    Action, ActionV, is_checkout_step, is_content_mutation, is_marker_write, is_service_start,
    is_service_stop,
};
use crate::container::{
    ChunkMetaData, get_unit_path, spec_checkout_plan, spec_ref_name, spec_update_plan,
    update_container,
};
use crate::remote::OstreeOpts;
use crate::revision::RevisionData;
use crate::strutil::{str_chars, string_from};

verus! {

// ---------------------------------------------------------------------------
// Log levels.
// ---------------------------------------------------------------------------

/// The verbosity the agent logs with.
#[derive(Debug, PartialEq, Eq, Structural, Clone, Copy)]
pub enum LogLevel {
    Debug,
    Info,
    Warn,
    Error,
}

/// A character with an ASCII lowercase letter folded to its uppercase form,
/// as a code point.
pub open spec fn up_u(c: char) -> int {
    if 97 <= c as u32 <= 122 {
        c as int - 32
    } else {
        c as int
    }
}

/// A string folded to ASCII uppercase, as code points.
pub open spec fn up_seq(s: Seq<char>) -> Seq<int> {
    s.map_values(|c: char| up_u(c))
}

/// Whether two strings are equal up to ASCII case.
fn eq_ignore_ascii_case(a: &str, b: &str) -> (r: bool)
    ensures
        r == (up_seq(a@) == up_seq(b@)),
{
    let an = a.unicode_len();
    let bn = b.unicode_len();
    if an != bn {
        proof {
            assert(up_seq(a@).len() != up_seq(b@).len());
        }
        return false;
    }
    let mut i: usize = 0;
    while i < an
        invariant
            i <= an,
            an == a@.len(),
            an == b@.len(),
            forall|t: int| 0 <= t < i ==> up_u(a@[t]) == up_u(b@[t]),
        decreases an - i,
    {
        let ca = a.get_char(i) as u32;
        let cb = b.get_char(i) as u32;
        let ua = if ca >= 97 && ca <= 122 {
            ca - 32
        } else {
            ca
        };
        let ub = if cb >= 97 && cb <= 122 {
            cb - 32
        } else {
            cb
        };
        if ua != ub {
            proof {
                assert(up_seq(a@)[i as int] != up_seq(b@)[i as int]);
            }
            return false;
        }
        i = i + 1;
    }
    proof {
        assert(up_seq(a@) =~= up_seq(b@));
    }
    true
}

/// The level a configured level name selects. Unknown names mean the
/// default; the fatal name maps to the highest severity the agent logs.
pub open spec fn spec_log_level(s: Seq<char>) -> LogLevel {
    if up_seq(s) == up_seq("DEBUG"@) {
        LogLevel::Debug
    } else if up_seq(s) == up_seq("INFO"@) {
        LogLevel::Info
    } else if up_seq(s) == up_seq("WARN"@) {
        LogLevel::Warn
    } else if up_seq(s) == up_seq("ERROR"@) {
        LogLevel::Error
    } else if up_seq(s) == up_seq("FATAL"@) {
        LogLevel::Error
    } else {
        LogLevel::Info
    }
}

/// The log level a configured name selects, compared without regard to
/// case.
pub fn get_log_level(level: &str) -> (l: LogLevel)
    ensures
        l == spec_log_level(level@),
{
    if eq_ignore_ascii_case(level, "DEBUG") {
        LogLevel::Debug
    } else if eq_ignore_ascii_case(level, "INFO") {
        LogLevel::Info
    } else if eq_ignore_ascii_case(level, "WARN") {
        LogLevel::Warn
    } else if eq_ignore_ascii_case(level, "ERROR") {
        LogLevel::Error
    } else if eq_ignore_ascii_case(level, "FATAL") {
        LogLevel::Error
    } else {
        LogLevel::Info
    }
}

// ---------------------------------------------------------------------------
// Chunk metadata and revision resolution.
// ---------------------------------------------------------------------------

/// The value of the last metadata entry whose key names a revision, if any:
/// later entries override earlier ones.
pub open spec fn last_rev(pairs: Seq<(Seq<char>, Seq<char>)>) -> Option<Seq<char>>
    decreases pairs.len(),
{
    if pairs.len() == 0 {
        None
    } else if pairs.last().0 == "rev"@ {
        Some(pairs.last().1)
    } else {
        last_rev(pairs.drop_last())
    }
}

/// Reads a chunk's key/value metadata into the closed directive struct.
/// Only the revision key is recognized; unknown keys are ignored.
pub fn parse_chunk_metadata(pairs: &Vec<(String, String)>) -> (m: ChunkMetaData)
    ensures
        m.rev.deep_view() == last_rev(pairs.deep_view()),
{
    let rev_key = String::from_str("rev");
    let mut rev: Option<String> = None;
    let mut i: usize = 0;
    while i < pairs.len()
        invariant
            i <= pairs@.len(),
            rev_key@ == "rev"@,
            rev.deep_view() == last_rev(pairs.deep_view().take(i as int)),
        decreases pairs@.len() - i,
    {
        let k: &String = &pairs[i].0;
        if *k == rev_key {
            rev = Some(pairs[i].1.clone());
        }
        proof {
            let dv = pairs.deep_view();
            assert(dv.take(i + 1 as int).drop_last() =~= dv.take(i as int));
            assert(dv.take(i + 1 as int).last() == dv[i as int]);
            assert(dv[i as int] == pairs@[i as int].deep_view());
        }
        i = i + 1;
    }
    proof {
        assert(pairs.deep_view().take(pairs@.len() as int) =~= pairs.deep_view());
    }
    ChunkMetaData { rev }
}

/// How many colons a string holds.
pub open spec fn colon_count(s: Seq<char>) -> nat
    decreases s.len(),
{
    if s.len() == 0 {
        0
    } else {
        (if s[0] == ':' {
            1nat
        } else {
            0nat
        }) + colon_count(s.drop_first())
    }
}

proof fn lemma_colon_count_concat(a: Seq<char>, b: Seq<char>)
    ensures
        colon_count(a + b) == colon_count(a) + colon_count(b),
    decreases a.len(),
{
    if a.len() == 0 {
        assert(a + b =~= b);
    } else {
        assert((a + b)[0] == a[0]);
        assert((a + b).drop_first() =~= a.drop_first() + b);
        lemma_colon_count_concat(a.drop_first(), b);
    }
}

proof fn lemma_colon_count_snoc(s: Seq<char>, i: int)
    requires
        0 <= i < s.len(),
    ensures
        colon_count(s.take(i + 1)) == colon_count(s.take(i)) + (if s[i] == ':' {
            1nat
        } else {
            0nat
        }),
{
    assert(s.take(i + 1) =~= s.take(i) + seq![s[i]]);
    lemma_colon_count_concat(s.take(i), seq![s[i]]);
    assert(seq![s[i]].drop_first() =~= Seq::<char>::empty());
    assert(colon_count(Seq::<char>::empty()) == 0);
    assert(colon_count(seq![s[i]]) == (if s[i] == ':' {
        1nat
    } else {
        0nat
    }));
}

/// The revision a version string encodes: versions carry one colon and the
/// commit after it. A version with any other shape encodes none.
pub fn rev_from_version(version: &str) -> (r: Option<String>)
    ensures
        colon_count(version@) == 1 ==> (r matches Some(c) && c@ == spec_ref_name(version@)),
        colon_count(version@) != 1 ==> r is None,
{
    let v = str_chars(version);
    let mut count: usize = 0;
    let mut pos: usize = 0;
    let mut i: usize = 0;
    while i < v.len()
        invariant
            i <= v@.len(),
            v@ == version@,
            count == colon_count(v@.take(i as int)),
            count <= i,
            count > 0 ==> 1 <= pos <= i && v@[pos - 1] == ':' && (forall|t: int|
                pos <= t < i ==> v@[t] != ':'),
            count == 0 ==> forall|t: int| 0 <= t < i ==> v@[t] != ':',
        decreases v@.len() - i,
    {
        proof {
            lemma_colon_count_snoc(v@, i as int);
        }
        if v[i] == ':' {
            count = count + 1;
            pos = i + 1;
        }
        i = i + 1;
    }
    proof {
        assert(v@.take(v@.len() as int) =~= v@);
    }
    if count == 1 {
        proof {
            crate::container::lemma_last_colon_at(version@, pos - 1);
        }
        Some(string_from(&v, pos))
    } else {
        None
    }
}

/// The revision one chunk asks the agent to apply: the commit from the
/// version string where that is configured and the version has the expected
/// shape, the metadata revision everywhere else.
pub open spec fn spec_resolve(
    meta_rev: Option<Seq<char>>,
    version: Seq<char>,
    from_version: bool,
) -> Option<Seq<char>> {
    if from_version && colon_count(version) == 1 {
        Some(spec_ref_name(version))
    } else {
        meta_rev
    }
}

/// Resolves the revision for one chunk, preferring the version string's
/// commit where the agent is configured to and the version carries one.
pub fn resolve_revision(metadata_rev: Option<String>, version: &str, commit_from_version: bool) -> (r:
    Option<String>)
    ensures
        r.deep_view() == spec_resolve(metadata_rev.deep_view(), version@, commit_from_version),
{
    if commit_from_version {
        match rev_from_version(version) {
            Some(c) => Some(c),
            None => metadata_rev,
        }
    } else {
        metadata_rev
    }
}

// ---------------------------------------------------------------------------
// Sequencing one chunk's update.
// ---------------------------------------------------------------------------

/// The whole plan for one chunk, strictly in order: quiesce the unit, update
/// the content, then materialize, enable and start the unit again. A chunk
/// without a revision is a no-op.
pub open spec fn spec_apply(
    name: Seq<char>,
    rev: Option<Seq<char>>,
    registered: Option<Seq<char>>,
    expected: Seq<char>,
    gpg: bool,
    old_cur: Option<Seq<char>>,
    dir_exists: bool,
) -> Seq<ActionV> {
    match rev {
        None => Seq::empty(),
        Some(r) => seq![
            ActionV::StopUnit { unit: name },
            ActionV::DisableUnit { unit: name, runtime: false },
        ] + spec_update_plan(name, Some(r), registered, expected, gpg, old_cur, dir_exists)
            + seq![
            ActionV::CreateUnit { unit: name, unit_path: "/apps/"@ + name + "/"@ },
            ActionV::EnableUnit { unit: name, runtime: false, force: false },
            ActionV::Reload,
            ActionV::StartUnit { unit: name },
        ],
    }
}

/// Builds the plan for one chunk. The environment inputs are as in
/// `update_container`; the unit actions bracket the content update.
pub fn apply(
    name: &str,
    metadata: ChunkMetaData,
    options: &OstreeOpts,
    registered_url: Option<&String>,
    old: RevisionData,
    dir_exists: bool,
) -> (plan: Vec<Action>)
    ensures
        plan.deep_view() == spec_apply(
            name@,
            metadata.rev.deep_view(),
            registered_url.deep_view(),
            options.hostname@,
            options.ostree_gpg_verify,
            old.current_rev.deep_view(),
            dir_exists,
        ),
{
    let mut plan: Vec<Action> = Vec::new();
    if metadata.rev.is_none() {
        proof {
            assert(plan.deep_view() =~= Seq::<ActionV>::empty());
        }
        return plan;
    }
    plan.push(Action::StopUnit { unit: String::from_str(name) });
    plan.push(Action::DisableUnit { unit: String::from_str(name), runtime: false });
    let mut mid = update_container(name, metadata, options, registered_url, old, dir_exists);
    plan.append(&mut mid);
    plan.push(Action::CreateUnit { unit: String::from_str(name), unit_path: get_unit_path(name) });
    plan.push(Action::EnableUnit { unit: String::from_str(name), runtime: false, force: false });
    plan.push(Action::Reload);
    plan.push(Action::StartUnit { unit: String::from_str(name) });
    proof {
        assert(plan.deep_view() =~= spec_apply(
            name@,
            metadata.rev.deep_view(),
            registered_url.deep_view(),
            options.hostname@,
            options.ostree_gpg_verify,
            old.current_rev.deep_view(),
            dir_exists,
        ));
    }
    plan
}

/// The plan that brings an application found in the content store, but never
/// checked out, into service: the same checkout pipeline under a synthesized
/// revision named after the application, then materialize and enable its
/// unit. Nothing runs yet, so nothing is stopped first; an application with
/// a marker only has its unit refreshed and enabled.
pub open spec fn spec_bootstrap_plan(
    name: Seq<char>,
    has_marker: bool,
    old_cur: Option<Seq<char>>,
    dir_exists: bool,
) -> Seq<ActionV> {
    (if has_marker {
        Seq::<ActionV>::empty()
    } else {
        spec_checkout_plan(Some(name + ":"@ + name), name, old_cur, dir_exists)
    }) + seq![
        ActionV::CreateUnit { unit: name, unit_path: "/apps/"@ + name + "/"@ },
        ActionV::EnableUnit { unit: name, runtime: false, force: false },
    ]
}

/// Builds the bootstrap plan for one discovered application. `has_marker`
/// says whether its marker file exists; `old` and `dir_exists` are as in
/// `checkout_container`.
pub fn bootstrap_container(name: &str, has_marker: bool, old: RevisionData, dir_exists: bool) -> (plan:
    Vec<Action>)
    ensures
        plan.deep_view() == spec_bootstrap_plan(
            name@,
            has_marker,
            old.current_rev.deep_view(),
            dir_exists,
        ),
{
    let mut plan: Vec<Action> = Vec::new();
    if !has_marker {
        let mut rev = String::from_str(name);
        rev.append(":");
        rev.append(name);
        let metadata = ChunkMetaData { rev: Some(rev) };
        let mut checkout = crate::container::checkout_container(&metadata, name, old, dir_exists);
        plan.append(&mut checkout);
    }
    plan.push(Action::CreateUnit { unit: String::from_str(name), unit_path: get_unit_path(name) });
    plan.push(Action::EnableUnit { unit: String::from_str(name), runtime: false, force: false });
    proof {
        assert(plan.deep_view() =~= spec_bootstrap_plan(
            name@,
            has_marker,
            old.current_rev.deep_view(),
            dir_exists,
        ));
    }
    plan
}

/// A chunk without a revision is applied by doing nothing: no filesystem,
/// content-store or service-manager mutation at all.
pub proof fn lemma_apply_none_is_noop(
    name: Seq<char>,
    registered: Option<Seq<char>>,
    expected: Seq<char>,
    gpg: bool,
    old_cur: Option<Seq<char>>,
    dir_exists: bool,
)
    ensures
        spec_apply(name, None, registered, expected, gpg, old_cur, dir_exists)
            == Seq::<ActionV>::empty(),
{
}

/// No action is of two kinds at once.
proof fn lemma_action_kinds_disjoint(a: ActionV)
    ensures
        !(is_service_stop(a) && is_content_mutation(a)),
        !(is_service_start(a) && is_content_mutation(a)),
        !(is_service_stop(a) && is_service_start(a)),
{
}

/// Every step of a content update plan mutates content.
proof fn lemma_update_plan_all_content(
    name: Seq<char>,
    r: Seq<char>,
    registered: Option<Seq<char>>,
    expected: Seq<char>,
    gpg: bool,
    old_cur: Option<Seq<char>>,
    dir_exists: bool,
)
    ensures
        ({
            let mid = spec_update_plan(name, Some(r), registered, expected, gpg, old_cur, dir_exists);
            forall|k: int| 0 <= k < mid.len() ==> is_content_mutation(#[trigger] mid[k])
        }),
{
    let a = crate::remote::spec_reconcile_actions(name, registered, expected, gpg);
    let b = seq![ActionV::Pull { remote: name, depth: 1, refs: seq![r] }];
    let c = spec_checkout_plan(Some(r), name, old_cur, dir_exists);
    let mid = spec_update_plan(name, Some(r), registered, expected, gpg, old_cur, dir_exists);
    assert(mid == a + b + c);
    assert forall|k: int| 0 <= k < a.len() implies is_content_mutation(#[trigger] a[k]) by {
        match crate::remote::spec_reconcile(registered, expected) {
            crate::remote::ReconcilePlan::Create => {
                assert(k == 0);
            },
            crate::remote::ReconcilePlan::Reuse => {},
            crate::remote::ReconcilePlan::Replace => {
                assert(k == 0 || k == 1);
            },
        }
    }
    assert forall|k: int| 0 <= k < c.len() implies is_content_mutation(#[trigger] c[k]) by {
        if dir_exists {
            assert(k == 0 || k == 1 || k == 2 || k == 3);
        } else {
            assert(k == 0 || k == 1 || k == 2);
        }
    }
    assert forall|k: int| 0 <= k < mid.len() implies is_content_mutation(#[trigger] mid[k]) by {
        if k < a.len() {
            assert(mid[k] == a[k]);
        } else if k < a.len() + b.len() {
            assert(mid[k] == b[k - a.len()]);
        } else {
            assert(mid[k] == c[k - a.len() - b.len()]);
        }
    }
}

/// The sequencing invariant of a chunk's plan: the unit is stopped and
/// disabled strictly before any content mutation, and materialized, enabled,
/// reloaded and started strictly after all of them.
pub proof fn lemma_apply_sequencing(
    name: Seq<char>,
    r: Seq<char>,
    registered: Option<Seq<char>>,
    expected: Seq<char>,
    gpg: bool,
    old_cur: Option<Seq<char>>,
    dir_exists: bool,
)
    ensures
        ({
            let plan = spec_apply(name, Some(r), registered, expected, gpg, old_cur, dir_exists);
            &&& forall|i: int, j: int|
                0 <= i < plan.len() && 0 <= j < plan.len() && is_service_stop(#[trigger] plan[i])
                    && is_content_mutation(#[trigger] plan[j]) ==> i < j
            &&& forall|i: int, j: int|
                0 <= i < plan.len() && 0 <= j < plan.len() && is_service_start(#[trigger] plan[i])
                    && is_content_mutation(#[trigger] plan[j]) ==> j < i
        }),
{
    let plan = spec_apply(name, Some(r), registered, expected, gpg, old_cur, dir_exists);
    let pre = seq![
        ActionV::StopUnit { unit: name },
        ActionV::DisableUnit { unit: name, runtime: false },
    ];
    let mid = spec_update_plan(name, Some(r), registered, expected, gpg, old_cur, dir_exists);
    let post = seq![
        ActionV::CreateUnit { unit: name, unit_path: "/apps/"@ + name + "/"@ },
        ActionV::EnableUnit { unit: name, runtime: false, force: false },
        ActionV::Reload,
        ActionV::StartUnit { unit: name },
    ];
    assert(plan == pre + mid + post);
    lemma_update_plan_all_content(name, r, registered, expected, gpg, old_cur, dir_exists);
    assert forall|j: int| 0 <= j < plan.len() && is_content_mutation(#[trigger] plan[j]) implies 2
        <= j < 2 + mid.len() by {
        if j < 2 {
            assert(plan[j] == pre[j]);
        } else if j < 2 + mid.len() {
        } else {
            assert(plan[j] == post[j - 2 - mid.len()]);
            lemma_action_kinds_disjoint(plan[j]);
        }
    }
    assert forall|i: int| 0 <= i < plan.len() && is_service_stop(#[trigger] plan[i]) implies i
        < 2 by {
        if 2 <= i < 2 + mid.len() {
            assert(plan[i] == mid[i - 2]);
            lemma_action_kinds_disjoint(plan[i]);
        } else if i >= 2 + mid.len() {
            assert(plan[i] == post[i - 2 - mid.len()]);
            lemma_action_kinds_disjoint(plan[i]);
        }
    }
    assert forall|i: int| 0 <= i < plan.len() && is_service_start(#[trigger] plan[i]) implies i >= 2
        + mid.len() by {
        if i < 2 {
            assert(plan[i] == pre[i]);
        } else if i < 2 + mid.len() {
            assert(plan[i] == mid[i - 2]);
            lemma_action_kinds_disjoint(plan[i]);
        }
    }
}

/// What may still run after step `k` of a chunk's plan ended: the next step
/// where step `k` succeeded and one exists, nothing otherwise. A failed step
/// aborts the whole chunk; by `lemma_checkout_gates_marker_and_start`, a
/// chunk aborted at or before its checkout never writes the marker and never
/// touches the unit again.
pub fn continue_chunk(plan: &Vec<Action>, k: usize, failed: bool) -> (r: Option<usize>)
    ensures
        failed ==> r is None,
        !failed && k + 1 < plan@.len() ==> (r matches Some(n) && n == k + 1),
        !failed && k + 1 >= plan@.len() ==> r is None,
{
    if failed {
        None
    } else if k < plan.len() && k + 1 < plan.len() {
        Some(k + 1)
    } else {
        None
    }
}

/// The marker write and every service action that brings the unit back come
/// strictly after the checkout step in a chunk's plan. A run cut at a failed
/// checkout therefore contains neither: the marker stays a true witness of a
/// completed checkout, and no partial unit mutation follows the failure.
pub proof fn lemma_checkout_gates_marker_and_start(
    name: Seq<char>,
    r: Seq<char>,
    registered: Option<Seq<char>>,
    expected: Seq<char>,
    gpg: bool,
    old_cur: Option<Seq<char>>,
    dir_exists: bool,
)
    ensures
        ({
            let plan = spec_apply(name, Some(r), registered, expected, gpg, old_cur, dir_exists);
            &&& forall|i: int, j: int|
                0 <= i < plan.len() && 0 <= j < plan.len() && is_checkout_step(#[trigger] plan[j])
                    && is_marker_write(#[trigger] plan[i]) ==> j < i
            &&& forall|i: int, j: int|
                0 <= i < plan.len() && 0 <= j < plan.len() && is_checkout_step(#[trigger] plan[j])
                    && is_service_start(#[trigger] plan[i]) ==> j < i
        }),
{
    let plan = spec_apply(name, Some(r), registered, expected, gpg, old_cur, dir_exists);
    let pre = seq![
        ActionV::StopUnit { unit: name },
        ActionV::DisableUnit { unit: name, runtime: false },
    ];
    let a = crate::remote::spec_reconcile_actions(name, registered, expected, gpg);
    let b = seq![ActionV::Pull { remote: name, depth: 1, refs: seq![r] }];
    let c = spec_checkout_plan(Some(r), name, old_cur, dir_exists);
    let mid = spec_update_plan(name, Some(r), registered, expected, gpg, old_cur, dir_exists);
    let post = seq![
        ActionV::CreateUnit { unit: name, unit_path: "/apps/"@ + name + "/"@ },
        ActionV::EnableUnit { unit: name, runtime: false, force: false },
        ActionV::Reload,
        ActionV::StartUnit { unit: name },
    ];
    assert(mid == a + b + c);
    assert(plan == pre + mid + post);
    let base = 2 + a.len() + 1;
    let cpos: int = if dir_exists {
        1
    } else {
        0
    };
    // Inside the checkout part, the checkout sits right before the marker
    // write, which is last.
    assert(c.len() == cpos + 3);
    assert forall|j: int| 0 <= j < plan.len() && is_checkout_step(#[trigger] plan[j]) implies j
        == base + cpos + 1 by {
        if j < 2 {
            assert(plan[j] == pre[j]);
        } else if j < 2 + a.len() {
            assert(plan[j] == a[j - 2]);
            match crate::remote::spec_reconcile(registered, expected) {
                crate::remote::ReconcilePlan::Create => {
                    assert(j == 2);
                },
                crate::remote::ReconcilePlan::Reuse => {},
                crate::remote::ReconcilePlan::Replace => {
                    assert(j == 2 || j == 3);
                },
            }
        } else if j < base {
            assert(plan[j] == b[0]);
        } else if j < base + c.len() {
            assert(plan[j] == c[j - base]);
            if dir_exists {
                assert(j - base == 0 || j - base == 1 || j - base == 2 || j - base == 3);
            } else {
                assert(j - base == 0 || j - base == 1 || j - base == 2);
            }
        } else {
            assert(plan[j] == post[j - base - c.len()]);
        }
    }
    assert forall|i: int| 0 <= i < plan.len() && is_marker_write(#[trigger] plan[i]) implies i
        == base + cpos + 2 by {
        if i < 2 {
            assert(plan[i] == pre[i]);
        } else if i < 2 + a.len() {
            assert(plan[i] == a[i - 2]);
            match crate::remote::spec_reconcile(registered, expected) {
                crate::remote::ReconcilePlan::Create => {
                    assert(i == 2);
                },
                crate::remote::ReconcilePlan::Reuse => {},
                crate::remote::ReconcilePlan::Replace => {
                    assert(i == 2 || i == 3);
                },
            }
        } else if i < base {
            assert(plan[i] == b[0]);
        } else if i < base + c.len() {
            assert(plan[i] == c[i - base]);
            if dir_exists {
                assert(i - base == 0 || i - base == 1 || i - base == 2 || i - base == 3);
            } else {
                assert(i - base == 0 || i - base == 1 || i - base == 2);
            }
        } else {
            assert(plan[i] == post[i - base - c.len()]);
        }
    }
    lemma_apply_sequencing(name, r, registered, expected, gpg, old_cur, dir_exists);
    assert forall|i: int, j: int|
        0 <= i < plan.len() && 0 <= j < plan.len() && is_checkout_step(#[trigger] plan[j])
            && is_service_start(#[trigger] plan[i]) implies j < i by {
        assert(is_content_mutation(plan[j]));
    }
}

} // verus!
