//! A configured host and its one-line summary.

use vstd::prelude::*;
use vstd::string::*;

verus! {

/// One `Host` block of a configuration.
#[derive(Debug, Clone, PartialEq, Eq)]
pub struct SshHost {
    /// The alias written after `Host`.
    pub name: String,
    /// The address or name to connect to.
    pub hostname: Option<String>,
    /// The path of the private key, with a leading `~/` already resolved.
    pub identity_file: Option<String>,
    /// The login user at the remote end.
    pub user: Option<String>,
}

/// What an [`SshHost`] holds, as sequences of characters.
pub struct HostView {
    pub name: Seq<char>,
    pub hostname: Option<Seq<char>>,
    pub identity_file: Option<Seq<char>>,
    pub user: Option<Seq<char>>,
}

impl View for SshHost {
    type V = HostView;

    open spec fn view(&self) -> HostView {
        HostView {
            name: self.name@,
            hostname: self.hostname.deep_view(),
            identity_file: self.identity_file.deep_view(),
            user: self.user.deep_view(),
        }
    }
}

impl DeepView for SshHost {
    type V = HostView;

    open spec fn deep_view(&self) -> HostView {
        self@
    }
}

impl HostView {
    /// The host called `name` of which nothing else is known.
    pub open spec fn named(name: Seq<char>) -> HostView {
        HostView { name, hostname: None, identity_file: None, user: None }
    }

    /// A host is well formed when its name is no pattern: it holds no `*`.
    pub open spec fn wf(self) -> bool {
        !self.name.contains('*')
    }

    /// The part of the summary that shows the address, with its separator.
    pub open spec fn hostname_part(self) -> Seq<char> {
        match self.hostname {
            Some(h) => " \u{2192} "@ + h,
            None => Seq::empty(),
        }
    }

    /// The part of the summary that shows the key, with its separator.
    pub open spec fn identity_part(self) -> Seq<char> {
        match self.identity_file {
            Some(k) => " ["@ + k + "]"@,
            None => Seq::empty(),
        }
    }

    /// The part of the summary that shows the user, with its separator.
    pub open spec fn user_part(self) -> Seq<char> {
        match self.user {
            Some(u) => " ("@ + u + ")"@,
            None => Seq::empty(),
        }
    }

    /// The one-line summary of the host: its name, then an arrow and the
    /// address, the key in square brackets and the user in round brackets,
    /// each only if known, with one space between the parts.
    pub open spec fn summary(self) -> Seq<char> {
        self.name + self.hostname_part() + self.identity_part() + self.user_part()
    }
}

impl SshHost {
    /// A host called `name` of which nothing else is known.
    pub fn new(name: String) -> (host: SshHost)
        ensures
            host@ == HostView::named(name@),
    {
        SshHost { name, hostname: None, identity_file: None, user: None }
    }

    /// The one-line summary of the host, as it is shown in a list to choose
    /// from.
    pub fn summary(&self) -> (line: String)
        ensures
            line@ == self@.summary(),
    {
        let mut line = self.name.clone();
        if let Some(h) = &self.hostname {
            line.append(" \u{2192} ");
            line.append(h.as_str());
        }
        assert(line@ =~= self@.name + self@.hostname_part());
        if let Some(k) = &self.identity_file {
            line.append(" [");
            line.append(k.as_str());
            line.append("]");
        }
        assert(line@ =~= self@.name + self@.hostname_part() + self@.identity_part());
        if let Some(u) = &self.user {
            line.append(" (");
            line.append(u.as_str());
            line.append(")");
        }
        assert(line@ =~= self@.summary());
        line
    }
}

} // verus!
