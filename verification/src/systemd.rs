//! Service manager calls: what the agent asks of the unit manager, as plain
//! data ready to be marshalled onto the system bus and sent.

use vstd::prelude::*;

verus! {

/// One call to the service manager.
#[derive(Debug)]
pub enum ManagerCall {
    /// Enable a unit file, optionally only for this boot, optionally
    /// overriding existing symlinks.
    EnableUnitFiles { unit_file: String, runtime: bool, force: bool },
    /// Disable a unit file, optionally only for this boot.
    DisableUnitFiles { unit_file: String, runtime: bool },
    /// Start a unit; the mode says what happens to queued jobs.
    StartUnit { unit: String, mode: String },
    /// Stop a unit; the mode says what happens to queued jobs.
    StopUnit { unit: String, mode: String },
    /// Reload the manager's unit files.
    Reload,
}

/// A manager call as a mathematical value.
pub enum ManagerCallV {
    EnableUnitFiles { unit_file: Seq<char>, runtime: bool, force: bool },
    DisableUnitFiles { unit_file: Seq<char>, runtime: bool },
    StartUnit { unit: Seq<char>, mode: Seq<char> },
    StopUnit { unit: Seq<char>, mode: Seq<char> },
    Reload,
}

impl View for ManagerCall {
    type V = ManagerCallV;

    open spec fn view(&self) -> ManagerCallV {
        match self {
            ManagerCall::EnableUnitFiles { unit_file, runtime, force } => (
            ManagerCallV::EnableUnitFiles {
                unit_file: unit_file@,
                runtime: *runtime,
                force: *force,
            }),
            ManagerCall::DisableUnitFiles { unit_file, runtime } => (
            ManagerCallV::DisableUnitFiles { unit_file: unit_file@, runtime: *runtime }),
            ManagerCall::StartUnit { unit, mode } => (ManagerCallV::StartUnit {
                unit: unit@,
                mode: mode@,
            }),
            ManagerCall::StopUnit { unit, mode } => (ManagerCallV::StopUnit {
                unit: unit@,
                mode: mode@,
            }),
            ManagerCall::Reload => ManagerCallV::Reload,
        }
    }
}

/// The file name of an application's service unit: its name with the
/// service suffix.
fn unit_file_name(unit: &str) -> (s: String)
    ensures
        s@ == unit@ + ".service"@,
{
    let mut s = String::from_str(unit);
    s.append(".service");
    s
}

/// The two paths of a unit materialization: the definition inside the
/// checked-out tree, and its place in the system unit directory.
pub fn create_unit(unit: &str, unit_path: &str) -> (files: (String, String))
    ensures
        files.0@ == unit_path@ + "/systemd.service"@,
        files.1@ == "/etc/systemd/system/"@ + unit@ + ".service"@,
{
    let mut source = String::from_str(unit_path);
    source.append("/systemd.service");
    let mut destination = String::from_str("/etc/systemd/system/");
    destination.append(unit);
    destination.append(".service");
    (source, destination)
}

/// The call that enables an application's unit file.
pub fn enable_unit_file(unit: &str, runtime: bool, force: bool) -> (c: ManagerCall)
    ensures
        c@ == (ManagerCallV::EnableUnitFiles {
            unit_file: unit@ + ".service"@,
            runtime,
            force,
        }),
{
    ManagerCall::EnableUnitFiles { unit_file: unit_file_name(unit), runtime, force }
}

/// The call that disables an application's unit file.
pub fn disable_unit_file(unit: &str, runtime: bool) -> (c: ManagerCall)
    ensures
        c@ == (ManagerCallV::DisableUnitFiles { unit_file: unit@ + ".service"@, runtime }),
{
    ManagerCall::DisableUnitFiles { unit_file: unit_file_name(unit), runtime }
}

/// The start or stop call for an application's unit. Both use the replace
/// queuing mode: a new job supersedes whatever is queued for the unit.
fn startstop_manager(start: bool, unit: &str) -> (c: ManagerCall)
    ensures
        c@ == if start {
            (ManagerCallV::StartUnit { unit: unit@ + ".service"@, mode: "replace"@ })
        } else {
            (ManagerCallV::StopUnit { unit: unit@ + ".service"@, mode: "replace"@ })
        },
{
    if start {
        ManagerCall::StartUnit { unit: unit_file_name(unit), mode: String::from_str("replace") }
    } else {
        ManagerCall::StopUnit { unit: unit_file_name(unit), mode: String::from_str("replace") }
    }
}

/// The call that starts an application's unit.
pub fn start_unit(unit: &str) -> (c: ManagerCall)
    ensures
        c@ == (ManagerCallV::StartUnit { unit: unit@ + ".service"@, mode: "replace"@ }),
{
    startstop_manager(true, unit)
}

/// The call that stops an application's unit.
pub fn stop_unit(unit: &str) -> (c: ManagerCall)
    ensures
        c@ == (ManagerCallV::StopUnit { unit: unit@ + ".service"@, mode: "replace"@ }),
{
    startstop_manager(false, unit)
}

/// The call that makes the manager reload its unit files.
pub fn reload() -> (c: ManagerCall)
    ensures
        c@ == ManagerCallV::Reload,
{
    ManagerCall::Reload
}

} // verus!
