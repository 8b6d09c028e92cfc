//! Pid liveness: on one machine, `kill(pid, 0)` answers whether a process
//! exists. `EPERM` means it exists but belongs to someone else.

use vstd::prelude::*;

verus! {

/// What `kill(pid, 0)` reported.
#[derive(Debug, Clone, Copy, PartialEq, Eq, Structural)]
pub enum KillProbe {
    /// The call succeeded.
    Delivered,
    /// The call failed with `EPERM`.
    PermissionDenied,
    /// The call failed otherwise (`ESRCH`: no such process).
    Failed,
}

/// Whether the process `pid` is alive, given what probing it reported.
/// Non-positive pids name no single process and are never alive.
pub fn pid_alive(pid: i32, probe: KillProbe) -> (alive: bool)
    ensures
        alive == (0 < pid && probe != KillProbe::Failed),
{
    if pid <= 0 {
        return false;
    }
    match probe {
        KillProbe::Delivered => true,
        KillProbe::PermissionDenied => true,
        KillProbe::Failed => false,
    }
}

} // verus!
