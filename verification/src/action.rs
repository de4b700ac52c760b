//! The actions that plans instruct the agent's outer layer to perform.
//!
//! A plan is a sequence of actions; the layer that owns the content store,
//! the filesystem and the service manager executes them in order. Keeping
//! plans as plain data lets every decision about *what* to do, and in what
//! order, be stated and proved here.

use vstd::prelude::*;

verus! {

/// How a revision is materialized into a deployment directory: overwrite
/// with union-identical semantics (byte-identical files are reused rather
/// than rewritten), whiteouts processed (files deleted between revisions are
/// removed), bare-user-only directory handling, and user checkout mode.
#[derive(Debug, PartialEq, Eq, Structural, Clone, Copy)]
pub struct CheckoutOptions {
    pub overwrite_union_identical: bool,
    pub process_whiteouts: bool,
    pub bareuseronly_dirs: bool,
    pub user_mode: bool,
}

/// The one configuration every checkout runs with.
pub open spec fn spec_checkout_options() -> CheckoutOptions {
    CheckoutOptions {
        overwrite_union_identical: true,
        process_whiteouts: true,
        bareuseronly_dirs: true,
        user_mode: true,
    }
}

/// Builds the checkout configuration.
pub fn checkout_options() -> (o: CheckoutOptions)
    ensures
        o == spec_checkout_options(),
{
    CheckoutOptions {
        overwrite_union_identical: true,
        process_whiteouts: true,
        bareuseronly_dirs: true,
        user_mode: true,
    }
}

/// One step of a plan, with everything its executor needs as plain values.
#[derive(Debug)]
pub enum Action {
    /// Stop the application's service unit.
    StopUnit { unit: String },
    /// Disable the application's service unit.
    DisableUnit { unit: String, runtime: bool },
    /// Delete the application's remote registration from the content store.
    DeleteRemote { name: String },
    /// Register the application's remote at `url` in the content store.
    AddRemote { name: String, url: String, gpg_verify: bool },
    /// Shallow-pull exactly the listed refs from the application's remote.
    Pull { remote: String, depth: u32, refs: Vec<String> },
    /// Remove the application's deployment directory recursively.
    RemoveAppDir { path: String },
    /// Create the application's deployment directory.
    CreateAppDir { path: String },
    /// Check the revision out of the content store into the directory.
    CheckoutRev { path: String, rev: String, options: CheckoutOptions },
    /// Store `text` as the application's marker file.
    WriteMarker { path: String, text: String },
    /// Copy the unit definition from the checked-out tree into the system
    /// unit directory.
    CreateUnit { unit: String, unit_path: String },
    /// Enable the application's service unit.
    EnableUnit { unit: String, runtime: bool, force: bool },
    /// Make the service manager reload its unit files.
    Reload,
    /// Start the application's service unit.
    StartUnit { unit: String },
}

/// An action as a mathematical value.
pub enum ActionV {
    StopUnit { unit: Seq<char> },
    DisableUnit { unit: Seq<char>, runtime: bool },
    DeleteRemote { name: Seq<char> },
    AddRemote { name: Seq<char>, url: Seq<char>, gpg_verify: bool },
    Pull { remote: Seq<char>, depth: u32, refs: Seq<Seq<char>> },
    RemoveAppDir { path: Seq<char> },
    CreateAppDir { path: Seq<char> },
    CheckoutRev { path: Seq<char>, rev: Seq<char>, options: CheckoutOptions },
    WriteMarker { path: Seq<char>, text: Seq<char> },
    CreateUnit { unit: Seq<char>, unit_path: Seq<char> },
    EnableUnit { unit: Seq<char>, runtime: bool, force: bool },
    Reload,
    StartUnit { unit: Seq<char> },
}

impl View for Action {
    type V = ActionV;

    open spec fn view(&self) -> ActionV {
        match self {
            Action::StopUnit { unit } => ActionV::StopUnit { unit: unit@ },
            Action::DisableUnit { unit, runtime } => ActionV::DisableUnit {
                unit: unit@,
                runtime: *runtime,
            },
            Action::DeleteRemote { name } => ActionV::DeleteRemote { name: name@ },
            Action::AddRemote { name, url, gpg_verify } => ActionV::AddRemote {
                name: name@,
                url: url@,
                gpg_verify: *gpg_verify,
            },
            Action::Pull { remote, depth, refs } => ActionV::Pull {
                remote: remote@,
                depth: *depth,
                refs: refs.deep_view(),
            },
            Action::RemoveAppDir { path } => ActionV::RemoveAppDir { path: path@ },
            Action::CreateAppDir { path } => ActionV::CreateAppDir { path: path@ },
            Action::CheckoutRev { path, rev, options } => ActionV::CheckoutRev {
                path: path@,
                rev: rev@,
                options: *options,
            },
            Action::WriteMarker { path, text } => ActionV::WriteMarker {
                path: path@,
                text: text@,
            },
            Action::CreateUnit { unit, unit_path } => ActionV::CreateUnit {
                unit: unit@,
                unit_path: unit_path@,
            },
            Action::EnableUnit { unit, runtime, force } => ActionV::EnableUnit {
                unit: unit@,
                runtime: *runtime,
                force: *force,
            },
            Action::Reload => ActionV::Reload,
            Action::StartUnit { unit } => ActionV::StartUnit { unit: unit@ },
        }
    }
}

impl DeepView for Action {
    type V = ActionV;

    open spec fn deep_view(&self) -> ActionV {
        self.view()
    }
}

/// Actions that quiesce the service before its content changes.
pub open spec fn is_service_stop(a: ActionV) -> bool {
    match a {
        ActionV::StopUnit { .. } => true,
        ActionV::DisableUnit { .. } => true,
        _ => false,
    }
}

/// Actions that mutate the content store, the deployment directory or the
/// marker.
pub open spec fn is_content_mutation(a: ActionV) -> bool {
    match a {
        ActionV::DeleteRemote { .. } => true,
        ActionV::AddRemote { .. } => true,
        ActionV::Pull { .. } => true,
        ActionV::RemoveAppDir { .. } => true,
        ActionV::CreateAppDir { .. } => true,
        ActionV::CheckoutRev { .. } => true,
        ActionV::WriteMarker { .. } => true,
        _ => false,
    }
}

/// The checkout step itself: the one action that materializes the revision.
pub open spec fn is_checkout_step(a: ActionV) -> bool {
    match a {
        ActionV::CheckoutRev { .. } => true,
        _ => false,
    }
}

/// The marker write: the durable witness that a checkout completed.
pub open spec fn is_marker_write(a: ActionV) -> bool {
    match a {
        ActionV::WriteMarker { .. } => true,
        _ => false,
    }
}

/// Actions that bring the service back up after its content changed.
pub open spec fn is_service_start(a: ActionV) -> bool {
    match a {
        ActionV::CreateUnit { .. } => true,
        ActionV::EnableUnit { .. } => true,
        ActionV::Reload => true,
        ActionV::StartUnit { .. } => true,
        _ => false,
    }
}

} // verus!
