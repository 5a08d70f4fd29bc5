//! Whether the input driver is installed and running.
//!
//! Detection works in two layers: first try to open a driver context (a
//! success settles it), and on failure ask the service manager about the
//! driver's services to tell "not installed" from "installed but not
//! running".

use vstd::prelude::*;

verus! {

#[derive(Debug, Clone, Copy, PartialEq, Eq, Structural)]
pub enum DriverStatus {
    /// The driver's services are not present.
    NotInstalled,
    /// The services exist but are not running.
    InstalledNotRunning,
    /// The services run and a context can be opened.
    Running,
}

/// What the service manager says about the driver's services.
#[derive(Debug, Clone, Copy, PartialEq, Eq, Structural)]
pub enum ServiceState {
    AllRunning,
    AllPresentSomeStopped,
    AnyMissing,
}

/// Asks the service manager about a set of services.
pub trait ServiceQuery {
    fn query_all(&self, names: &[&str]) -> ServiceState;
}

/// The names of the driver's services.
pub fn service_names() -> (r: [&'static str; 2])
    ensures
        r@[0]@ == "keyboard"@,
        r@[1]@ == "mouse"@,
{
    ["keyboard", "mouse"]
}

/// The status given whether a context opened and what the services report:
/// an opened context means running; otherwise the services decide.
pub open spec fn spec_status(opened: bool, services: ServiceState) -> DriverStatus {
    if opened {
        DriverStatus::Running
    } else {
        match services {
            ServiceState::AllRunning => DriverStatus::Running,
            ServiceState::AllPresentSomeStopped => DriverStatus::InstalledNotRunning,
            ServiceState::AnyMissing => DriverStatus::NotInstalled,
        }
    }
}

/// The status given whether a context opened and what the services report.
pub fn status_from_probe(opened: bool, services: ServiceState) -> (r: DriverStatus)
    ensures
        r == spec_status(opened, services),
{
    if opened {
        return DriverStatus::Running;
    }
    match services {
        ServiceState::AllRunning => DriverStatus::Running,
        ServiceState::AllPresentSomeStopped => DriverStatus::InstalledNotRunning,
        ServiceState::AnyMissing => DriverStatus::NotInstalled,
    }
}

/// Probes the driver: `open_ctx` tries to open a context; only when it fails
/// are the services (named by [`service_names`]) queried, and their state
/// then decides the status.
pub fn detect_status_with<F: FnOnce() -> bool, S: ServiceQuery>(open_ctx: F, services: &S) -> (r:
    DriverStatus)
    requires
        call_requires(open_ctx, ()),
    ensures
        exists|opened: bool, st: ServiceState|
            call_ensures(open_ctx, (), opened) && r == spec_status(opened, st) && (!opened
                ==> exists|names: &[&str]|
                names@.len() == 2 && names@[0]@ == "keyboard"@ && names@[1]@ == "mouse"@
                    && call_ensures(S::query_all, (services, names), st)),
{
    let opened = open_ctx();
    if opened {
        return status_from_probe(true, ServiceState::AnyMissing);
    }
    let names = service_names();
    let queried: &[&str] = &names;
    let st = services.query_all(queried);
    proof {
        assert(queried@ == names@);
        assert(queried@.len() == 2 && queried@[0]@ == "keyboard"@ && queried@[1]@ == "mouse"@
            && call_ensures(S::query_all, (services, queried), st));
    }
    status_from_probe(false, st)
}


/// What the service manager reports about one service.
#[derive(Debug, Clone, Copy, PartialEq, Eq, Structural)]
pub enum ServiceProbe {
    /// The service does not exist (or could not be opened).
    Missing,
    /// The service exists but is not running (or its status is unknown).
    Stopped,
    Running,
}

/// The combined state of several services: any missing one makes them
/// missing; otherwise they run only when every one runs.
pub open spec fn spec_service_state(probes: Seq<ServiceProbe>) -> ServiceState {
    if exists|i: int| 0 <= i < probes.len() && probes[i] == ServiceProbe::Missing {
        ServiceState::AnyMissing
    } else if forall|i: int| 0 <= i < probes.len() ==> probes[i] == ServiceProbe::Running {
        ServiceState::AllRunning
    } else {
        ServiceState::AllPresentSomeStopped
    }
}

/// The combined state of the probed services.
pub fn service_state(probes: &[ServiceProbe]) -> (r: ServiceState)
    ensures
        r == spec_service_state(probes@),
{
    let mut all_running = true;
    let mut i: usize = 0;
    while i < probes.len()
        invariant
            i <= probes@.len(),
            forall|j: int| 0 <= j < i ==> probes@[j] != ServiceProbe::Missing,
            all_running <==> forall|j: int| 0 <= j < i ==> probes@[j] == ServiceProbe::Running,
        decreases probes@.len() - i,
    {
        match probes[i] {
            ServiceProbe::Missing => {
                return ServiceState::AnyMissing;
            },
            ServiceProbe::Stopped => {
                all_running = false;
            },
            ServiceProbe::Running => {},
        }
        i = i + 1;
    }
    if all_running {
        ServiceState::AllRunning
    } else {
        ServiceState::AllPresentSomeStopped
    }
}

} // verus!
