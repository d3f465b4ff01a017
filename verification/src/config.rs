//! The configuration parser: from text to the hosts it names.

use crate::chars::{holds, line_end, split_lines, to_chars};
use crate::error::Error;
use crate::home::home_dir;
use crate::host::{HostView, SshHost};
use crate::laws::{hosts_opened_by, law_hosts_are_well_formed, law_hosts_in_order, names};
use crate::line::{directive_of, read_directive, Directive, Found, Keyword};
use crate::path::{resolve, resolved};
use vstd::prelude::*;
use vstd::string::*;

verus! {

/// How far a configuration has been read: the hosts whose blocks are
/// complete, in order, and the host whose block is being read, if any.
pub struct Progress {
    pub finished: Seq<HostView>,
    pub current: Option<HostView>,
}

impl HostView {
    /// The host after `directive`, which is not a `Host` line, was read in
    /// its block: the field that the keyword names holds the new value, and
    /// a key's leading `~/` is resolved against `home`.
    pub open spec fn set(self, directive: Directive, home: Seq<char>) -> HostView {
        match directive.keyword {
            Keyword::Host => self,
            Keyword::HostName => HostView { hostname: Some(directive.value), ..self },
            Keyword::IdentityFile => HostView {
                identity_file: Some(resolved(directive.value, home)),
                ..self
            },
            Keyword::User => HostView { user: Some(directive.value), ..self },
        }
    }
}

impl Progress {
    /// Nothing read yet.
    pub open spec fn start() -> Progress {
        Progress { finished: Seq::empty(), current: None }
    }

    /// The hosts read so far, with the block being read taken as complete.
    pub open spec fn flush(self) -> Seq<HostView> {
        match self.current {
            Some(host) => self.finished.push(host),
            None => self.finished,
        }
    }

    /// The progress after `directive`. A `Host` line completes the block
    /// being read and opens a new one, unless its value holds `*`: then no
    /// block is open. Any other directive sets a field of the host whose
    /// block is open, and is dropped if none is.
    pub open spec fn apply(self, directive: Directive, home: Seq<char>) -> Progress {
        match directive.keyword {
            Keyword::Host => Progress {
                finished: self.flush(),
                current: if directive.value.contains('*') {
                    None
                } else {
                    Some(HostView::named(directive.value))
                },
            },
            _ => match self.current {
                Some(host) => Progress { current: Some(host.set(directive, home)), ..self },
                None => self,
            },
        }
    }

    /// The progress after `line`.
    pub open spec fn read_line(self, line: Seq<char>, home: Seq<char>) -> Progress {
        match directive_of(line) {
            Some(directive) => self.apply(directive, home),
            None => self,
        }
    }

    /// The progress after `lines`, read in order.
    pub open spec fn read_lines(self, lines: Seq<Seq<char>>, home: Seq<char>) -> Progress
        decreases lines.len(),
    {
        if lines.len() == 0 {
            self
        } else {
            self.read_line(lines.first(), home).read_lines(lines.drop_first(), home)
        }
    }
}

/// The hosts that `lines` name, for a user whose home directory is `home`.
pub open spec fn parse_lines(lines: Seq<Seq<char>>, home: Seq<char>) -> Seq<HostView> {
    Progress::start().read_lines(lines, home).flush()
}

/// The hosts that the configuration `text` names, for a user whose home
/// directory is `home`.
pub open spec fn parse(text: Seq<char>, home: Seq<char>) -> Seq<HostView> {
    parse_lines(split_lines(text), home)
}

/// The state of a parser between two lines.
struct Parser {
    finished: Vec<SshHost>,
    current: Option<SshHost>,
}

impl View for Parser {
    type V = Progress;

    closed spec fn view(&self) -> Progress {
        Progress { finished: self.finished.deep_view(), current: self.current.deep_view() }
    }
}

impl Parser {
    fn new() -> (parser: Parser)
        ensures
            parser@ == Progress::start(),
    {
        let parser = Parser { finished: Vec::new(), current: None };
        assert(parser.finished.deep_view() =~= Seq::empty());
        parser
    }

    /// Completes the block being read, if there is one.
    fn flush(&mut self)
        ensures
            final(self)@ == (Progress { finished: old(self)@.flush(), current: None }),
    {
        let ghost before = self.finished.deep_view();
        if let Some(host) = self.current.take() {
            self.finished.push(host);
            assert(self.finished.deep_view() =~= before.push(host@));
        }
    }

    /// Reads the line in the window `from..to` of `text`, whose characters
    /// are `chars`.
    fn read_line(&mut self, text: &str, chars: &[char], from: usize, to: usize, home: &str)
        requires
            chars@ == text@,
            from <= to <= chars.len(),
        ensures
            final(self)@ == old(self)@.read_line(text@.subrange(from as int, to as int), home@),
    {
        let found = match read_directive(chars, from, to) {
            Some(found) => found,
            None => {
                return ;
            },
        };
        let Found { keyword, start, end } = found;
        let ghost directive = Directive {
            keyword,
            value: text@.subrange(start as int, end as int),
        };
        match keyword {
            Keyword::Host => {
                self.flush();
                if !holds(chars, start, end, '*') {
                    let name = text.substring_char(start, end).to_owned();
                    self.current = Some(SshHost::new(name));
                }
            },
            _ => {
                if let Some(mut host) = self.current.take() {
                    let ghost before = host@;
                    let value = text.substring_char(start, end);
                    match keyword {
                        Keyword::HostName => {
                            host.hostname = Some(value.to_owned());
                        },
                        Keyword::IdentityFile => {
                            host.identity_file = Some(resolve(value, home));
                        },
                        _ => {
                            host.user = Some(value.to_owned());
                        },
                    }
                    assert(host@ == before.set(directive, home@));
                    self.current = Some(host);
                }
            },
        }
    }

    /// The hosts read, with the block being read taken as complete.
    fn finish(self) -> (hosts: Vec<SshHost>)
        ensures
            hosts.deep_view() == self@.flush(),
    {
        let mut parser = self;
        parser.flush();
        parser.finished
    }
}

/// Parses the configuration `content` for a user whose home directory is
/// `home`. Every text is a configuration: what is not understood is skipped.
pub fn parse_hosts(content: &str, home: &str) -> (hosts: Vec<SshHost>)
    ensures
        hosts.deep_view() == parse(content@, home@),
        forall|i: int| 0 <= i < hosts.len() ==> (#[trigger] hosts[i])@.wf(),
{
    let chars = to_chars(content);
    let mut parser = Parser::new();
    let mut pos: usize = 0;
    assert(chars@.skip(0) == chars@);
    loop
        invariant_except_break
            parser@.read_lines(split_lines(chars@.skip(pos as int)), home@)
                == Progress::start().read_lines(split_lines(chars@), home@),
        invariant
            chars@ == content@,
            pos <= chars.len(),
        ensures
            parser@ == Progress::start().read_lines(split_lines(chars@), home@),
        decreases chars.len() - pos,
    {
        let end: usize = line_end(chars.as_slice(), pos);
        let ghost before = parser@;
        let ghost rest = chars@.skip(pos as int);
        let ghost line = chars@.subrange(pos as int, end as int);
        parser.read_line(content, chars.as_slice(), pos, end, home);
        if end >= chars.len() {
            proof {
                assert(rest == line);
                assert(split_lines(rest) == seq![line]);
                assert(seq![line].first() == line);
                assert(seq![line].drop_first() == Seq::<Seq<char>>::empty());
                assert(before.read_lines(seq![line], home@) == parser@.read_lines(
                    Seq::empty(),
                    home@,
                ));
            }
            break ;
        }
        proof {
            let n = end - pos;
            let tail = split_lines(rest.skip(n + 1));
            assert(rest.take(n) == line);
            assert(rest.skip(n + 1) == chars@.skip(end + 1));
            assert(split_lines(rest) == seq![line] + tail);
            assert((seq![line] + tail).first() == line);
            assert((seq![line] + tail).drop_first() == tail);
        }
        pos = end + 1;
    }
    let hosts = parser.finish();
    proof {
        law_hosts_are_well_formed(split_lines(content@), home@);
        assert forall|i: int| 0 <= i < hosts.len() implies (#[trigger] hosts[i])@.wf() by {
            assert(hosts.deep_view()[i] == hosts[i]@);
            assert(parse_lines(split_lines(content@), home@)[i].wf());
        }
    }
    hosts
}

/// Parses the configuration `content` for a user whose home directory is
/// `home`, if there is one: a configuration cannot be read for a user
/// without a home directory.
pub fn parse_for(content: &str, home: Option<String>) -> (r: Result<Vec<SshHost>, Error>)
    ensures
        match home {
            Some(dir) => {
                &&& r matches Ok(hosts)
                &&& hosts.deep_view() == parse(content@, dir@)
                &&& forall|i: int| 0 <= i < hosts.len() ==> (#[trigger] hosts[i])@.wf()
            },
            None => r == Err::<Vec<SshHost>, Error>(Error::ConfigUnreadable),
        },
{
    match home {
        Some(dir) => Ok(parse_hosts(content, dir.as_str())),
        None => Err(Error::ConfigUnreadable),
    }
}

/// Parses the configuration `content` for the current user. Their home
/// directory is looked up once, before anything is read; the only failure is
/// that there is none. Which directory it is cannot be said here, but it
/// matters to the keys alone: the hosts and their names are those of the
/// `Host` lines that name one, in order.
pub fn parse_ssh_config(content: &str) -> (r: Result<Vec<SshHost>, Error>)
    ensures
        match r {
            Ok(hosts) => {
                &&& exists|home: Seq<char>| hosts.deep_view() == parse(content@, home)
                &&& names(hosts.deep_view()) == hosts_opened_by(split_lines(content@))
                &&& forall|i: int| 0 <= i < hosts.len() ==> (#[trigger] hosts[i])@.wf()
            },
            Err(e) => e == Error::ConfigUnreadable,
        },
{
    let home = home_dir();
    proof {
        if home is Some {
            law_hosts_in_order(split_lines(content@), home->0@);
        }
    }
    parse_for(content, home)
}

} // verus!
