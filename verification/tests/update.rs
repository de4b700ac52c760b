use ostree_upgrader::action::Action;
use ostree_upgrader::agent::{LogLevel, get_log_level, parse_chunk_metadata, resolve_revision,
    rev_from_version};
use ostree_upgrader::container::{Applications, ChunkMetaData, app_name_from_ref,
    get_application_path, get_repo_path, get_unit_path, get_validation_file, pull_ostree_ref,
    update_container};
use ostree_upgrader::remote::{OstreeOpts, ReconcilePlan, _init_ostree_remotes, init_container_remote};
use ostree_upgrader::revision::RevisionData;
use ostree_upgrader::systemd::{ManagerCall, create_unit, disable_unit_file, enable_unit_file,
    reload, start_unit, stop_unit};

fn opts(hostname: &str) -> OstreeOpts {
    OstreeOpts {
        hostname: hostname.to_string(),
        ostree_name_remote: String::new(),
        ostree_gpg_verify: false,
        ostreepush_ssh_port: String::new(),
        ostreepush_ssh_user: String::new(),
        ostreepush_ssh_pwd: String::new(),
    }
}

#[test]
fn log_levels() {
    assert_eq!(get_log_level("DEBUG"), LogLevel::Debug);
    assert_eq!(get_log_level("debug"), LogLevel::Debug);
    assert_eq!(get_log_level("Info"), LogLevel::Info);
    assert_eq!(get_log_level("WARN"), LogLevel::Warn);
    assert_eq!(get_log_level("ERROR"), LogLevel::Error);
    assert_eq!(get_log_level("FATAL"), LogLevel::Error);
    assert_eq!(get_log_level("whatever"), LogLevel::Info);
    assert_eq!(get_log_level(""), LogLevel::Info);
}

#[test]
fn reconcile_decisions() {
    let o = opts("http://server:8080/repo");
    assert_eq!(init_container_remote(None, &o), ReconcilePlan::Create);
    let same = "http://server:8080/repo".to_string();
    assert_eq!(init_container_remote(Some(&same), &o), ReconcilePlan::Reuse);
    let other = "http://elsewhere:8080/repo".to_string();
    assert_eq!(init_container_remote(Some(&other), &o), ReconcilePlan::Replace);
}

#[test]
fn reconcile_idempotent_scenario() {
    // After a first reconciliation registered the URL, a second run reuses it.
    let o = opts("http://server:8080/repo");
    assert_eq!(init_container_remote(None, &o), ReconcilePlan::Create);
    let registered = o.hostname.clone();
    assert_eq!(init_container_remote(Some(&registered), &o), ReconcilePlan::Reuse);
}

#[test]
fn remote_inventory() {
    let o = opts("http://server:8080/repo");
    let remotes = vec![
        ("a".to_string(), "http://server:8080/repo".to_string()),
        ("b".to_string(), "http://old:1/repo".to_string()),
    ];
    let classified = _init_ostree_remotes(&remotes, &o);
    assert_eq!(
        classified,
        vec![("a".to_string(), true), ("b".to_string(), false)]
    );
}

#[test]
fn paths() {
    assert_eq!(get_unit_path("demo"), "/apps/demo/");
    assert_eq!(get_application_path("demo"), "/apps/demo");
    assert_eq!(get_validation_file("demo"), "/apps/demo/CheckoutDone");
    assert_eq!(get_repo_path(), "/apps/ostree_repo");
}

#[test]
fn ref_names() {
    assert_eq!(app_name_from_ref("remote:demo"), "demo");
    assert_eq!(app_name_from_ref("demo"), "demo");
    assert_eq!(app_name_from_ref("a:b:c"), "c");
    assert_eq!(app_name_from_ref("trailing:"), "");
}

#[test]
fn applications_from_refs() {
    let refs = vec!["remote:alpha".to_string(), "beta".to_string()];
    let apps = Applications::new(&refs).into_vec();
    assert_eq!(apps, vec!["alpha".to_string(), "beta".to_string()]);
}

#[test]
fn chunk_metadata_last_rev_wins() {
    let pairs = vec![
        ("other".to_string(), "x".to_string()),
        ("rev".to_string(), "a".to_string()),
        ("rev".to_string(), "b".to_string()),
    ];
    assert_eq!(parse_chunk_metadata(&pairs).rev, Some("b".to_string()));
    let none: Vec<(String, String)> = vec![("other".to_string(), "x".to_string())];
    assert_eq!(parse_chunk_metadata(&none).rev, None);
}

#[test]
fn version_revisions() {
    assert_eq!(rev_from_version("1.4.2:abcd1234"), Some("abcd1234".to_string()));
    assert_eq!(rev_from_version("1.4.2"), None);
    assert_eq!(rev_from_version("a:b:c"), None);
}

#[test]
fn pull_options() {
    // The shallow pull names exactly the requested revision.
    let with_rev = ChunkMetaData { rev: Some("abc".to_string()) };
    let o = pull_ostree_ref(&with_rev, "demo").unwrap();
    assert_eq!(o.remote, "demo");
    assert_eq!(o.depth, 1);
    assert_eq!(o.refs, vec!["abc".to_string()]);

    // A chunk without a revision builds no pull at all.
    let without = ChunkMetaData { rev: None };
    assert!(pull_ostree_ref(&without, "demo").is_none());
}

#[test]
fn unit_calls() {
    match stop_unit("demo") {
        ManagerCall::StopUnit { unit, mode } => {
            assert_eq!(unit, "demo.service");
            assert_eq!(mode, "replace");
        },
        other => panic!("unexpected call {:?}", other),
    }
    match start_unit("demo") {
        ManagerCall::StartUnit { unit, mode } => {
            assert_eq!(unit, "demo.service");
            assert_eq!(mode, "replace");
        },
        other => panic!("unexpected call {:?}", other),
    }
    match enable_unit_file("demo", false, true) {
        ManagerCall::EnableUnitFiles { unit_file, runtime, force } => {
            assert_eq!(unit_file, "demo.service");
            assert!(!runtime);
            assert!(force);
        },
        other => panic!("unexpected call {:?}", other),
    }
    match disable_unit_file("demo", true) {
        ManagerCall::DisableUnitFiles { unit_file, runtime } => {
            assert_eq!(unit_file, "demo.service");
            assert!(runtime);
        },
        other => panic!("unexpected call {:?}", other),
    }
    assert!(matches!(reload(), ManagerCall::Reload));
}

#[test]
fn unit_file_paths() {
    let (source, destination) = create_unit("demo", "/apps/demo/");
    assert_eq!(source, "/apps/demo//systemd.service");
    assert_eq!(destination, "/etc/systemd/system/demo.service");
}

#[test]
fn update_plan_replaces_remote() {
    // A changed URL costs exactly one delete followed by one add.
    let o = opts("http://new:8080/repo");
    let registered = "http://old:8080/repo".to_string();
    let metadata = ChunkMetaData { rev: Some("r1".to_string()) };
    let old = RevisionData { current_rev: None, previous_rev: None };
    let plan = update_container("demo", metadata, &o, Some(&registered), old, false);
    let deletes: Vec<&Action> = plan
        .iter()
        .filter(|a| matches!(a, Action::DeleteRemote { .. }))
        .collect();
    let adds: Vec<&Action> = plan
        .iter()
        .filter(|a| matches!(a, Action::AddRemote { .. }))
        .collect();
    assert_eq!(deletes.len(), 1);
    assert_eq!(adds.len(), 1);
    match (&plan[0], &plan[1]) {
        (Action::DeleteRemote { name }, Action::AddRemote { name: n2, url, gpg_verify }) => {
            assert_eq!(name, "demo");
            assert_eq!(n2, "demo");
            assert_eq!(url, "http://new:8080/repo");
            assert!(!gpg_verify);
        },
        other => panic!("unexpected plan head {:?}", other),
    }
}

#[test]
fn update_plan_reuses_remote() {
    let o = opts("http://server:8080/repo");
    let registered = o.hostname.clone();
    let metadata = ChunkMetaData { rev: Some("r1".to_string()) };
    let old = RevisionData { current_rev: None, previous_rev: None };
    let plan = update_container("demo", metadata, &o, Some(&registered), old, false);
    assert!(!plan.iter().any(|a| matches!(a, Action::DeleteRemote { .. })));
    assert!(!plan.iter().any(|a| matches!(a, Action::AddRemote { .. })));
    match &plan[0] {
        Action::Pull { remote, depth, refs } => {
            assert_eq!(remote, "demo");
            assert_eq!(*depth, 1);
            assert_eq!(refs, &vec!["r1".to_string()]);
        },
        other => panic!("unexpected first action {:?}", other),
    }
}
