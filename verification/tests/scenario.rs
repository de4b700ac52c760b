use ostree_upgrader::action::{Action, CheckoutOptions, checkout_options};
use ostree_upgrader::agent::{apply, bootstrap_container, continue_chunk, resolve_revision};
use ostree_upgrader::container::ChunkMetaData;
use ostree_upgrader::remote::OstreeOpts;
use ostree_upgrader::revision::{RevisionData, read_revision_from_file};

fn opts(hostname: &str) -> OstreeOpts {
    OstreeOpts {
        hostname: hostname.to_string(),
        ostree_name_remote: String::new(),
        ostree_gpg_verify: false,
        ostreepush_ssh_port: String::new(),
        ostreepush_ssh_user: String::new(),
        ostreepush_ssh_pwd: String::new(),
    }
}

/// A tiny mock of the world a plan executes against: it records the service
/// manager calls, the revision checked out and its options, and the marker
/// file written.
struct MockWorld {
    manager_calls: Vec<&'static str>,
    checked_out: Option<String>,
    checkout_opts: Option<CheckoutOptions>,
    marker: Option<String>,
}

impl MockWorld {
    /// Executes the plan as the agent does: one step at a time, asking the
    /// library after every step whether the chunk may continue.
    /// `checkout_fails` makes the checkout step report failure.
    fn run(plan: &Vec<Action>, checkout_fails: bool) -> MockWorld {
        let mut w = MockWorld {
            manager_calls: Vec::new(),
            checked_out: None,
            checkout_opts: None,
            marker: None,
        };
        if plan.is_empty() {
            return w;
        }
        let mut k: usize = 0;
        loop {
            let failed = !w.execute(&plan[k], checkout_fails);
            match continue_chunk(plan, k, failed) {
                Some(next) => k = next,
                None => break,
            }
        }
        w
    }

    fn execute(&mut self, action: &Action, checkout_fails: bool) -> bool {
        match action {
            Action::StopUnit { .. } => self.manager_calls.push("Stop"),
            Action::DisableUnit { .. } => self.manager_calls.push("Disable"),
            Action::EnableUnit { .. } => self.manager_calls.push("Enable"),
            Action::Reload => self.manager_calls.push("Reload"),
            Action::StartUnit { .. } => self.manager_calls.push("Start"),
            Action::CheckoutRev { rev, options, .. } => {
                if checkout_fails {
                    return false;
                }
                self.checked_out = Some(rev.clone());
                self.checkout_opts = Some(*options);
            },
            Action::WriteMarker { text, .. } => self.marker = Some(text.clone()),
            _ => {},
        }
        true
    }
}

#[test]
fn apply_skips_without_revision() {
    // A chunk without a revision mutates nothing and succeeds.
    let o = opts("http://server:8080/repo");
    let metadata = ChunkMetaData { rev: None };
    let old = RevisionData { current_rev: Some("v1".to_string()), previous_rev: None };
    let plan = apply("demo", metadata, &o, None, old, true);
    assert!(plan.is_empty());
}

#[test]
fn apply_end_to_end() {
    // Stored history {current: v1, previous: none}; a chunk arrives with
    // revision v2.
    let o = opts("http://server:8080/repo");
    let registered = o.hostname.clone();
    let metadata = ChunkMetaData { rev: Some("v2".to_string()) };
    let old = RevisionData { current_rev: Some("v1".to_string()), previous_rev: None };
    let plan = apply("demo", metadata, &o, Some(&registered), old, true);

    let world = MockWorld::run(&plan, false);
    assert_eq!(world.manager_calls, vec!["Stop", "Disable", "Enable", "Reload", "Start"]);
    assert_eq!(world.checked_out, Some("v2".to_string()));
    assert_eq!(world.checkout_opts, Some(checkout_options()));

    let marker = world.marker.expect("the plan must write a marker");
    let stored = read_revision_from_file(Some(&marker));
    assert_eq!(stored.current_rev, Some("v2".to_string()));
    assert_eq!(stored.previous_rev, Some("v1".to_string()));
    let value: serde_json::Value = serde_json::from_str(&marker).unwrap();
    assert_eq!(value["current_rev"], serde_json::Value::String("v2".to_string()));
    assert_eq!(value["previous_rev"], serde_json::Value::String("v1".to_string()));
}

#[test]
fn version_string_overrides_metadata() {
    // Revision-from-version resolves the commit after the colon, overriding
    // the metadata revision.
    let resolved = resolve_revision(Some("metadata-rev".to_string()), "1.4.2:abcd1234", true);
    assert_eq!(resolved, Some("abcd1234".to_string()));
    // Without the option the metadata revision stands.
    let resolved = resolve_revision(Some("metadata-rev".to_string()), "1.4.2:abcd1234", false);
    assert_eq!(resolved, Some("metadata-rev".to_string()));
    // A version without the expected shape falls back to the metadata.
    let resolved = resolve_revision(Some("metadata-rev".to_string()), "1.4.2", true);
    assert_eq!(resolved, Some("metadata-rev".to_string()));
}

#[test]
fn checkout_shifts_history() {
    // {current: A, previous: X}, checkout to B: the marker says {B, A}.
    let o = opts("http://server:8080/repo");
    let registered = o.hostname.clone();
    let metadata = ChunkMetaData { rev: Some("B".to_string()) };
    let old = RevisionData {
        current_rev: Some("A".to_string()),
        previous_rev: Some("X".to_string()),
    };
    let plan = apply("demo", metadata, &o, Some(&registered), old, true);
    let world = MockWorld::run(&plan, false);
    let stored = read_revision_from_file(Some(&world.marker.unwrap()));
    assert_eq!(stored.current_rev, Some("B".to_string()));
    assert_eq!(stored.previous_rev, Some("A".to_string()));
}

#[test]
fn apply_sequencing_order() {
    // Stop and disable come strictly before every content mutation,
    // enable, reload and start strictly after.
    let o = opts("http://new:8080/repo");
    let registered = "http://old:8080/repo".to_string();
    let metadata = ChunkMetaData { rev: Some("v2".to_string()) };
    let old = RevisionData { current_rev: None, previous_rev: None };
    let plan = apply("demo", metadata, &o, Some(&registered), old, true);

    let is_content = |a: &Action| {
        matches!(
            a,
            Action::DeleteRemote { .. }
                | Action::AddRemote { .. }
                | Action::Pull { .. }
                | Action::RemoveAppDir { .. }
                | Action::CreateAppDir { .. }
                | Action::CheckoutRev { .. }
                | Action::WriteMarker { .. }
        )
    };
    let first_content = plan.iter().position(&is_content).unwrap();
    let last_content = plan.len() - 1 - plan.iter().rev().position(&is_content).unwrap();
    for (i, a) in plan.iter().enumerate() {
        match a {
            Action::StopUnit { .. } | Action::DisableUnit { .. } => assert!(i < first_content),
            Action::CreateUnit { .. }
            | Action::EnableUnit { .. }
            | Action::Reload
            | Action::StartUnit { .. } => assert!(i > last_content),
            _ => {},
        }
    }
}

#[test]
fn bootstrap_uses_synthesized_revision() {
    let old = RevisionData { current_rev: None, previous_rev: None };
    let plan = bootstrap_container("demo", false, old, false);
    let world = MockWorld::run(&plan, false);
    assert_eq!(world.checked_out, Some("demo:demo".to_string()));
    // Nothing runs yet, so nothing is stopped or disabled.
    assert_eq!(world.manager_calls, vec!["Enable"]);

    let old = RevisionData { current_rev: Some("x".to_string()), previous_rev: None };
    let plan = bootstrap_container("demo", true, old, true);
    let world = MockWorld::run(&plan, false);
    assert_eq!(world.checked_out, None);
    assert_eq!(world.manager_calls, vec!["Enable"]);
}

#[test]
fn abort_on_failed_checkout() {
    // A failed checkout aborts the chunk: the marker is never written, so it
    // keeps witnessing the last completed checkout, and no unit action
    // follows the failure.
    let o = opts("http://server:8080/repo");
    let registered = o.hostname.clone();
    let metadata = ChunkMetaData { rev: Some("v2".to_string()) };
    let old = RevisionData { current_rev: Some("v1".to_string()), previous_rev: None };
    let plan = apply("demo", metadata, &o, Some(&registered), old, true);
    let world = MockWorld::run(&plan, true);
    assert!(world.marker.is_none());
    assert!(world.checked_out.is_none());
    assert_eq!(world.manager_calls, vec!["Stop", "Disable"]);
}

#[test]
fn chunk_continuation() {
    let o = opts("http://server:8080/repo");
    let metadata = ChunkMetaData { rev: Some("v2".to_string()) };
    let old = RevisionData { current_rev: None, previous_rev: None };
    let plan = apply("demo", metadata, &o, None, old, false);
    assert_eq!(continue_chunk(&plan, 0, false), Some(1));
    assert_eq!(continue_chunk(&plan, 0, true), None);
    assert_eq!(continue_chunk(&plan, 3, true), None);
    assert_eq!(continue_chunk(&plan, plan.len() - 1, false), None);
}
