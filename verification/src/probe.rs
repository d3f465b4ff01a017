//! The authentication probe: the command to run and what its exit code means.

use crate::error::Error;
use crate::host::SshHost;
use vstd::prelude::*;
use vstd::string::*;

verus! {

/// The exit code with which the SSH client ends a probe that authenticated
/// at a hosting service that offers no shell: such a service closes the
/// session, and the client reports that as code 1.
pub const AUTHENTICATED_WITHOUT_SHELL: i32 = 1;

/// Whether a probe that ended with `code` succeeded: with code 0, or with
/// [`AUTHENTICATED_WITHOUT_SHELL`]. A client that ended without a code did
/// not succeed.
pub open spec fn succeeded(code: Option<i32>) -> bool {
    code == Some(0i32) || code == Some(AUTHENTICATED_WITHOUT_SHELL)
}

/// The words of the command that probes the host called `name`: the SSH
/// client, the flag that asks for no terminal, and the git user at the host.
pub open spec fn command_for(name: Seq<char>) -> Seq<Seq<char>> {
    seq!["ssh"@, "-T"@, "git@"@ + name]
}

/// The command that probes `host`: its first word is the program, the
/// others are its arguments. The host is named by its alias, not by its
/// address, so that the client applies its own configuration.
pub fn probe_command(host: &SshHost) -> (command: Vec<String>)
    ensures
        command.deep_view() == command_for(host@.name),
{
    let mut target = "git@".to_owned();
    target.append(host.name.as_str());
    let mut command: Vec<String> = Vec::new();
    command.push("ssh".to_owned());
    command.push("-T".to_owned());
    command.push(target);
    assert(command.deep_view() =~= command_for(host@.name));
    command
}

/// Judges a probe by the exit code of the SSH client, where it ended with
/// one.
pub fn exit_outcome(code: Option<i32>) -> (r: Result<(), Error>)
    ensures
        succeeded(code) ==> r == Ok::<(), Error>(()),
        !succeeded(code) ==> r == Err::<(), Error>(Error::SshInvocationFailed(code)),
{
    match code {
        Some(0) => Ok(()),
        Some(AUTHENTICATED_WITHOUT_SHELL) => Ok(()),
        _ => Err(Error::SshInvocationFailed(code)),
    }
}

} // verus!
