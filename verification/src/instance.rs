//! Keeping a single instance running: a named mutex, and a named pipe over
//! which a second start asks the first one to show its window.
use vstd::prelude::*;

verus! {

/// The name of the mutex that only the first instance can own.
pub const MUTEX_NAME: &'static str = "Local\\ChronographSingleInstance";

/// The pipe over which a later start asks the running instance to show itself.
pub const PIPE_NAME: &'static str = "\\\\.\\pipe\\ChronographShowWindow";

/// How long a later start waits for the pipe, in milliseconds.
pub const PIPE_WAIT_MS: u32 = 2000;

/// How long the listener waits before trying to create the pipe again.
pub const PIPE_RETRY_MS: u64 = 1000;

/// What creating the named mutex found.
#[derive(Debug, Clone, Copy, PartialEq, Eq, Structural)]
pub enum InstanceCheck {
    /// This is the first instance; it keeps the mutex.
    First,
    /// Another instance runs: signal it to show its window, then stop.
    AlreadyRunning,
}

/// The mutex existed already exactly when another instance runs.
pub fn instance_check(mutex_existed: bool) -> (r: InstanceCheck)
    ensures
        r == (if mutex_existed { InstanceCheck::AlreadyRunning } else { InstanceCheck::First }),
{
    if mutex_existed {
        InstanceCheck::AlreadyRunning
    } else {
        InstanceCheck::First
    }
}

/// A client reached the pipe when connecting succeeded, or when it had
/// connected before the listener started waiting.
pub fn client_arrived(connect_ok: bool, connected_before: bool) -> (r: bool)
    ensures
        r == (connect_ok || connected_before),
{
    connect_ok || connected_before
}

} // verus!
