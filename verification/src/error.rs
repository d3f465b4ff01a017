//! The ways in which a run can fail.

use vstd::prelude::*;

verus! {

/// Why no host could be probed, or why the probe counts as failed.
#[derive(Debug, Clone, Copy, PartialEq, Eq)]
pub enum Error {
    /// The home directory could not be determined, or the configuration
    /// could not be read.
    ConfigUnreadable,
    /// The configuration names no host.
    NoHostsFound,
    /// The user left the list of hosts without choosing one.
    SelectionCancelled,
    /// The SSH client could not be run, or ended with a code that stands for
    /// failure. The code is recorded where there is one.
    SshInvocationFailed(Option<i32>),
}

} // verus!
