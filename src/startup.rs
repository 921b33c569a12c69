use vstd::prelude::*;
use vstd::string::*;

verus! {

/// The step of daemon startup whose outcome is being reported.
#[derive(Debug, Clone, Copy, PartialEq, Eq, Structural)]
pub enum PrepareStep {
    /// Looking for a file at the socket path.
    CheckPath,
    /// Connecting to the socket found there, to see whether a daemon answers.
    ProbeListener,
    /// Removing a socket file that nothing answers on.
    RemoveStale,
}

/// What startup does next.
#[derive(Debug, Clone, Copy, PartialEq, Eq, Structural)]
pub enum PrepareAction {
    /// Connect to the socket at the path.
    Probe,
    /// Remove the stale socket file.
    Remove,
    /// The path is free: the daemon may bind it.
    Ready,
    /// The path cannot be used: a live daemon owns it, or its stale file stays.
    Refuse,
}

/// The next startup action once `step` has been tried; `ok` tells whether a file
/// is at the path, the connect succeeded, or the removal succeeded.
pub fn prepare_next(step: PrepareStep, ok: bool) -> (r: PrepareAction)
    ensures
        step is CheckPath ==> r == (if ok {
            PrepareAction::Probe
        } else {
            PrepareAction::Ready
        }),
        step is ProbeListener ==> r == (if ok {
            PrepareAction::Refuse
        } else {
            PrepareAction::Remove
        }),
        step is RemoveStale ==> r == (if ok {
            PrepareAction::Ready
        } else {
            PrepareAction::Refuse
        }),
{
    match step {
        PrepareStep::CheckPath => if ok {
            PrepareAction::Probe
        } else {
            PrepareAction::Ready
        },
        PrepareStep::ProbeListener => if ok {
            PrepareAction::Refuse
        } else {
            PrepareAction::Remove
        },
        PrepareStep::RemoveStale => if ok {
            PrepareAction::Ready
        } else {
            PrepareAction::Refuse
        },
    }
}

/// Whether the daemon may bind: only once startup ended ready.
pub fn may_start(is_ready: Option<bool>) -> (r: bool)
    ensures
        r == (is_ready == Some(true)),
{
    match is_ready {
        Some(ready) => ready,
        None => false,
    }
}

/// The socket path: `hyprvisor.sock` under the session's runtime directory, or
/// `/tmp/hyprvisor.sock` when there is none.
pub fn socket_path_for(runtime_dir: Option<String>) -> (r: String)
    ensures
        runtime_dir matches Some(d) ==> r@ == d@ + "/hyprvisor.sock"@,
        runtime_dir is None ==> r@ == "/tmp/hyprvisor.sock"@,
{
    match runtime_dir {
        Some(dir) => {
            let mut path = dir;
            path.append("/hyprvisor.sock");
            path
        },
        None => "/tmp/hyprvisor.sock".to_owned(),
    }
}

} // verus!
