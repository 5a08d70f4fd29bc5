//! Decisions around installing the input driver: how the installer's exit is
//! judged, and when the "reboot pending" notice is shown or cleared.

use vstd::prelude::*;

use crate::error::AppError;
use crate::status::DriverStatus;
use crate::text::{decimal, decimal_string};

verus! {

/// The argument that makes the installer install (`true`) or uninstall.
pub fn installer_argument(install: bool) -> (r: &'static str)
    ensures
        install ==> r@ == "/install"@,
        !install ==> r@ == "/uninstall"@,
{
    if install {
        "/install"
    } else {
        "/uninstall"
    }
}

/// The installer succeeded only with exit code 0; any other code is
/// reported with its decimal value.
pub fn installer_exit_result(exit_code: u32) -> (r: Result<(), AppError>)
    ensures
        exit_code == 0 <==> r is Ok,
        r matches Err(e) ==> e matches AppError::Other(msg) && msg@ == "installer exited with code "@
            + decimal(exit_code as nat),
{
    if exit_code == 0 {
        Ok(())
    } else {
        let mut msg = String::from_str("installer exited with code ");
        msg.append(decimal_string(exit_code as u64).as_str());
        Err(AppError::Other(msg))
    }
}

/// What a driver-status query reports about a pending reboot, and whether it
/// clears the stored marker.
#[derive(Debug, Clone, Copy, PartialEq, Eq, Structural)]
pub struct RebootCheck {
    /// The pending-reboot flag to report (and keep).
    pub pending_reboot: bool,
    /// Whether the marker file is to be removed now.
    pub clear_marker: bool,
}

/// A running driver means the reboot took effect: the flag is dropped, and
/// the marker is removed if the flag was set. Otherwise the flag stands.
pub fn reboot_check(status: DriverStatus, pending_flag: bool) -> (r: RebootCheck)
    ensures
        status == DriverStatus::Running ==> !r.pending_reboot && r.clear_marker == pending_flag,
        status != DriverStatus::Running ==> r.pending_reboot == pending_flag && !r.clear_marker,
{
    match status {
        DriverStatus::Running => RebootCheck { pending_reboot: false, clear_marker: pending_flag },
        _ => RebootCheck { pending_reboot: pending_flag, clear_marker: false },
    }
}


/// The error for a driver context that could not be opened, by what the
/// status probe then reports: not installed, not running, or (when the driver
/// runs after all) an I/O failure carrying `detail`.
pub fn open_failure(status: DriverStatus, detail: String) -> (r: AppError)
    ensures
        status == DriverStatus::NotInstalled ==> r == AppError::DriverNotInstalled,
        status == DriverStatus::InstalledNotRunning ==> r == AppError::DriverNotRunning,
        status == DriverStatus::Running ==> r == AppError::DriverIo(detail),
{
    match status {
        DriverStatus::NotInstalled => AppError::DriverNotInstalled,
        DriverStatus::InstalledNotRunning => AppError::DriverNotRunning,
        DriverStatus::Running => AppError::DriverIo(detail),
    }
}

/// The lines that report a driver status to a user.
pub fn status_report(status: DriverStatus) -> (r: Vec<&'static str>)
    ensures
        status == DriverStatus::Running ==> r@.len() == 1 && r@[0]@
            == "Interception driver: Running."@,
        status == DriverStatus::InstalledNotRunning ==> r@.len() == 2 && r@[0]@
            == "Interception driver: Installed but not running."@ && r@[1]@
            == "A reboot may be required after installation."@,
        status == DriverStatus::NotInstalled ==> r@.len() == 3 && r@[0]@
            == "Interception driver: Not installed."@ && r@[1]@
            == "Install from: https://github.com/oblitum/Interception/releases"@ && r@[2]@
            == "Run the installer as Administrator; a reboot is required."@,
{
    let mut r: Vec<&'static str> = Vec::new();
    match status {
        DriverStatus::Running => {
            r.push("Interception driver: Running.");
        },
        DriverStatus::InstalledNotRunning => {
            r.push("Interception driver: Installed but not running.");
            r.push("A reboot may be required after installation.");
        },
        DriverStatus::NotInstalled => {
            r.push("Interception driver: Not installed.");
            r.push("Install from: https://github.com/oblitum/Interception/releases");
            r.push("Run the installer as Administrator; a reboot is required.");
        },
    }
    r
}

} // verus!
