//! Choosing the host to probe.

use crate::error::Error;
use crate::host::{HostView, SshHost};
use vstd::prelude::*;

verus! {

/// How the host to probe is found in a list of hosts.
#[derive(Debug, PartialEq, Eq)]
pub enum Selection {
    /// The list is empty: there is nothing to choose.
    Nothing,
    /// The list holds one host. It is chosen, and the user is not asked.
    Only,
    /// The user is asked to choose among these lines: the summaries of the
    /// hosts, in the order of the list.
    Ask(Vec<String>),
}

/// The summaries of `hosts`, in order.
pub open spec fn summaries(hosts: Seq<HostView>) -> Seq<Seq<char>> {
    Seq::new(hosts.len(), |i: int| hosts[i].summary())
}

/// The host that is picked from `hosts` when the user, if asked, gave
/// `answer`: the position of a host, or nothing to cancel. Without hosts
/// there is nothing to pick; a host alone is picked whatever the answer.
pub open spec fn picked(hosts: Seq<SshHost>, answer: Option<usize>) -> Result<SshHost, Error> {
    if hosts.len() == 0 {
        Err(Error::NoHostsFound)
    } else if hosts.len() == 1 {
        Ok(hosts[0])
    } else {
        match answer {
            Some(i) => Ok(hosts[i as int]),
            None => Err(Error::SelectionCancelled),
        }
    }
}

/// Tells how the host to probe is found in `hosts`, and with it whether the
/// user has to be asked: only where there are two hosts or more.
pub fn selection(hosts: &[SshHost]) -> (s: Selection)
    ensures
        hosts@.len() == 0 <==> s is Nothing,
        hosts@.len() == 1 <==> s is Only,
        hosts@.len() >= 2 <==> s is Ask,
        s matches Selection::Ask(lines) ==> lines.deep_view() == summaries(hosts.deep_view()),
{
    if hosts.len() == 0 {
        Selection::Nothing
    } else if hosts.len() == 1 {
        Selection::Only
    } else {
        let mut lines: Vec<String> = Vec::new();
        let mut i: usize = 0;
        while i < hosts.len()
            invariant
                i <= hosts.len(),
                lines.len() == i,
                forall|j: int| 0 <= j < i ==> lines[j]@ == #[trigger] hosts[j]@.summary(),
            decreases hosts.len() - i,
        {
            lines.push(hosts[i].summary());
            i += 1;
        }
        assert(lines.deep_view() =~= summaries(hosts.deep_view()));
        Selection::Ask(lines)
    }
}

/// Picks the host to probe from `hosts`. `answer` is what the user chose
/// when asked: the position of a host in the list, or nothing to cancel. It
/// is looked at only where [`selection`] says that the user is asked, and
/// must then be a position in the list.
pub fn pick_host<'a>(hosts: &'a [SshHost], answer: Option<usize>) -> (r: Result<
    &'a SshHost,
    Error,
>)
    requires
        hosts@.len() >= 2 ==> (answer matches Some(i) ==> i < hosts@.len()),
    ensures
        match r {
            Ok(host) => picked(hosts@, answer) == Ok::<SshHost, Error>(*host),
            Err(e) => picked(hosts@, answer) == Err::<SshHost, Error>(e),
        },
        hosts@.len() == 1 ==> (r matches Ok(host) && *host == hosts@[0]),
{
    if hosts.len() == 0 {
        Err(Error::NoHostsFound)
    } else if hosts.len() == 1 {
        Ok(&hosts[0])
    } else {
        match answer {
            Some(i) => Ok(&hosts[i]),
            None => Err(Error::SelectionCancelled),
        }
    }
}

} // verus!
