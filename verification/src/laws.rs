//! What holds of every configuration.
//!
//! Three facts say what a configuration means without reading it line by
//! line: lines before the first `Host` line count for nothing; a `Host` line
//! starts afresh, so that the hosts of a configuration are those before the
//! line followed by those from the line on; and a block for itself gives one
//! host, or none if its name is a pattern, with each field taken from the
//! last line of the block that sets it.

use crate::chars::{is_line_feed, lemma_line_len, lemma_line_len_is, line_len, split_lines};
use crate::config::{parse, parse_lines, Progress};
use crate::host::HostView;
use crate::line::{directive_of, Keyword};
use crate::path::resolved;
use vstd::prelude::*;

verus! {

/// Whether `line` is a `Host` line, which ends a block.
pub open spec fn is_host_line(line: Seq<char>) -> bool {
    directive_of(line) matches Some(d) && d.keyword == Keyword::Host
}

/// Whether `line` is a `Host` line whose value is a pattern: it holds `*`.
pub open spec fn is_pattern_line(line: Seq<char>) -> bool {
    directive_of(line) matches Some(d) && d.keyword == Keyword::Host && d.value.contains('*')
}

/// Whether none of `lines` is a `Host` line.
pub open spec fn no_host_line(lines: Seq<Seq<char>>) -> bool {
    forall|i: int| 0 <= i < lines.len() ==> !is_host_line(#[trigger] lines[i])
}

/// The name of the host that `line` opens a block for: the value of a `Host`
/// line, unless it holds `*`.
pub open spec fn host_opened_by(line: Seq<char>) -> Option<Seq<char>> {
    match directive_of(line) {
        Some(d) => if d.keyword == Keyword::Host && !d.value.contains('*') {
            Some(d.value)
        } else {
            None
        },
        None => None,
    }
}

/// The names of the hosts that `lines` open a block for, in order.
pub open spec fn hosts_opened_by(lines: Seq<Seq<char>>) -> Seq<Seq<char>>
    decreases lines.len(),
{
    if lines.len() == 0 {
        Seq::empty()
    } else {
        match host_opened_by(lines.first()) {
            Some(name) => seq![name] + hosts_opened_by(lines.drop_first()),
            None => hosts_opened_by(lines.drop_first()),
        }
    }
}

/// The names of `hosts`, in order.
pub open spec fn names(hosts: Seq<HostView>) -> Seq<Seq<char>> {
    Seq::new(hosts.len(), |i: int| hosts[i].name)
}

/// The value that the last of `lines` with `keyword` gives it, if any does.
pub open spec fn last_value(lines: Seq<Seq<char>>, keyword: Keyword) -> Option<Seq<char>>
    decreases lines.len(),
{
    if lines.len() == 0 {
        None
    } else {
        match directive_of(lines.last()) {
            Some(d) => if d.keyword == keyword {
                Some(d.value)
            } else {
                last_value(lines.drop_last(), keyword)
            },
            None => last_value(lines.drop_last(), keyword),
        }
    }
}

/// The host called `name` whose block holds `lines` after its `Host` line:
/// each field is what the last line that sets it says.
pub open spec fn host_of_block(name: Seq<char>, lines: Seq<Seq<char>>, home: Seq<char>) -> HostView {
    HostView {
        name,
        hostname: last_value(lines, Keyword::HostName),
        identity_file: match last_value(lines, Keyword::IdentityFile) {
            Some(value) => Some(resolved(value, home)),
            None => None,
        },
        user: last_value(lines, Keyword::User),
    }
}

/// Reading `a` and then `b` is reading `a + b`.
pub proof fn lemma_read_lines_concat(
    st: Progress,
    a: Seq<Seq<char>>,
    b: Seq<Seq<char>>,
    home: Seq<char>,
)
    ensures
        st.read_lines(a + b, home) == st.read_lines(a, home).read_lines(b, home),
    decreases a.len(),
{
    if a.len() == 0 {
        assert(a + b == b);
    } else {
        assert((a + b).first() == a.first());
        assert((a + b).drop_first() == a.drop_first() + b);
        lemma_read_lines_concat(st.read_line(a.first(), home), a.drop_first(), b, home);
    }
}

/// Reading one line more.
pub proof fn lemma_read_lines_push(
    st: Progress,
    lines: Seq<Seq<char>>,
    line: Seq<char>,
    home: Seq<char>,
)
    ensures
        st.read_lines(lines.push(line), home) == st.read_lines(lines, home).read_line(line, home),
{
    let st1 = st.read_lines(lines, home);
    assert(lines.push(line) == lines + seq![line]);
    lemma_read_lines_concat(st, lines, seq![line], home);
    assert(seq![line].first() == line);
    assert(seq![line].drop_first().len() == 0);
    assert(st1.read_lines(seq![line], home) == st1.read_line(line, home).read_lines(
        seq![line].drop_first(),
        home,
    ));
}

/// The hosts whose blocks are complete play no part in what is read after
/// them: they stay where they are, in front.
pub proof fn lemma_finished_hosts_stay(
    front: Seq<HostView>,
    st: Progress,
    lines: Seq<Seq<char>>,
    home: Seq<char>,
)
    ensures
        (Progress { finished: front + st.finished, current: st.current }).read_lines(lines, home)
            == (Progress {
            finished: front + st.read_lines(lines, home).finished,
            current: st.read_lines(lines, home).current,
        }),
    decreases lines.len(),
{
    if lines.len() > 0 {
        let shifted = Progress { finished: front + st.finished, current: st.current };
        let next = st.read_line(lines.first(), home);
        assert(shifted.flush() == front + st.flush());
        assert(shifted.read_line(lines.first(), home) == (Progress {
            finished: front + next.finished,
            current: next.current,
        }));
        lemma_finished_hosts_stay(front, next, lines.drop_first(), home);
    }
}

/// A host whose block is complete is never taken back: whatever is read
/// next, the complete hosts so far stay, in front and in order.
pub proof fn law_finished_hosts_are_kept(st: Progress, lines: Seq<Seq<char>>, home: Seq<char>)
    ensures
        st.finished.is_prefix_of(st.read_lines(lines, home).finished),
{
    let fresh = Progress { finished: Seq::empty(), current: st.current };
    assert(st.finished + fresh.finished == st.finished);
    lemma_finished_hosts_stay(st.finished, fresh, lines, home);
    let end = fresh.read_lines(lines, home);
    assert((st.finished + end.finished).subrange(0, st.finished.len() as int) == st.finished);
}

/// While no block is open, lines other than `Host` lines change nothing.
pub proof fn lemma_no_block_open(st: Progress, lines: Seq<Seq<char>>, home: Seq<char>)
    requires
        st.current is None,
        no_host_line(lines),
    ensures
        st.read_lines(lines, home) == st,
    decreases lines.len(),
{
    if lines.len() > 0 {
        assert(!is_host_line(lines[0]));
        assert forall|i: int| 0 <= i < lines.drop_first().len() implies !is_host_line(
            #[trigger] lines.drop_first()[i],
        ) by {
            assert(lines.drop_first()[i] == lines[i + 1]);
        }
        lemma_no_block_open(st, lines.drop_first(), home);
    }
}

/// A configuration without a `Host` line names no host.
pub proof fn law_no_host_line_no_host(text: Seq<char>, home: Seq<char>)
    requires
        no_host_line(split_lines(text)),
    ensures
        parse(text, home) == Seq::<HostView>::empty(),
{
    lemma_no_block_open(Progress::start(), split_lines(text), home);
}

/// Lines before the first `Host` line count for nothing.
pub proof fn law_lines_before_first_host(
    lead: Seq<Seq<char>>,
    rest: Seq<Seq<char>>,
    home: Seq<char>,
)
    requires
        no_host_line(lead),
    ensures
        parse_lines(lead + rest, home) == parse_lines(rest, home),
{
    lemma_read_lines_concat(Progress::start(), lead, rest, home);
    lemma_no_block_open(Progress::start(), lead, home);
}

/// A `Host` line starts afresh: the hosts of a configuration are those of
/// the lines before a `Host` line, followed by those of the lines from it
/// on. Nothing is carried over the line, whatever the names are.
pub proof fn law_host_line_starts_afresh(
    before: Seq<Seq<char>>,
    line: Seq<char>,
    after: Seq<Seq<char>>,
    home: Seq<char>,
)
    requires
        is_host_line(line),
    ensures
        parse_lines(before + seq![line] + after, home) == parse_lines(before, home) + parse_lines(
            seq![line] + after,
            home,
        ),
{
    let start = Progress::start();
    let reached = start.read_lines(before, home);
    let opened = start.read_line(line, home);
    lemma_read_lines_concat(start, before + seq![line], after, home);
    lemma_read_lines_push(start, before, line, home);
    assert(before + seq![line] == before.push(line));
    assert(reached.read_line(line, home) == (Progress {
        finished: reached.flush() + opened.finished,
        current: opened.current,
    }));
    lemma_finished_hosts_stay(reached.flush(), opened, after, home);
    let end = opened.read_lines(after, home);
    assert((Progress { finished: reached.flush() + end.finished, current: end.current }).flush()
        == reached.flush() + end.flush());
    assert((seq![line] + after).first() == line);
    assert((seq![line] + after).drop_first() == after);
}

/// A `Host` line whose value holds `*` gives no host, and the lines of its
/// block are dropped: they change neither the host before them nor the one
/// after them.
pub proof fn law_pattern_block_is_dropped(
    before: Seq<Seq<char>>,
    line: Seq<char>,
    block: Seq<Seq<char>>,
    after: Seq<Seq<char>>,
    home: Seq<char>,
)
    requires
        is_pattern_line(line),
        no_host_line(block),
    ensures
        parse_lines(before + seq![line] + block + after, home) == parse_lines(before, home)
            + parse_lines(after, home),
{
    let start = Progress::start();
    assert(before + seq![line] + block + after == before + seq![line] + (block + after));
    law_host_line_starts_afresh(before, line, block + after, home);
    assert((seq![line] + (block + after)).first() == line);
    assert((seq![line] + (block + after)).drop_first() == block + after);
    assert(start.read_line(line, home) == start);
    law_lines_before_first_host(block, after, home);
}

/// A line that says nothing (an empty line, a comment, a line without a
/// separator or with an unknown key) can stand anywhere, or be left out: the
/// hosts are the same.
pub proof fn law_silent_line(
    before: Seq<Seq<char>>,
    line: Seq<char>,
    after: Seq<Seq<char>>,
    home: Seq<char>,
)
    requires
        directive_of(line) is None,
    ensures
        parse_lines(before + seq![line] + after, home) == parse_lines(before + after, home),
{
    let start = Progress::start();
    lemma_read_lines_concat(start, before + seq![line], after, home);
    assert(before + seq![line] == before.push(line));
    lemma_read_lines_push(start, before, line, home);
    lemma_read_lines_concat(start, before, after, home);
}

/// The block of a host for itself: a `Host` line that names a host, and
/// after it lines of which none is a `Host` line, give that one host, each
/// field with the value of the last line that sets it.
pub proof fn law_block(line: Seq<char>, block: Seq<Seq<char>>, home: Seq<char>)
    requires
        host_opened_by(line) is Some,
        no_host_line(block),
    ensures
        parse_lines(seq![line] + block, home) == seq![
            host_of_block(host_opened_by(line)->0, block, home),
        ],
{
    let name = host_opened_by(line)->0;
    let start = Progress::start();
    let opened = start.read_line(line, home);
    assert((seq![line] + block).first() == line);
    assert((seq![line] + block).drop_first() == block);
    assert(opened == (Progress { finished: Seq::empty(), current: Some(HostView::named(name)) }));
    lemma_block(name, block, home);
    assert(Seq::<HostView>::empty().push(host_of_block(name, block, home)) == seq![
        host_of_block(name, block, home),
    ]);
}

/// Reading the lines of a block, once it is open.
proof fn lemma_block(name: Seq<char>, block: Seq<Seq<char>>, home: Seq<char>)
    requires
        no_host_line(block),
    ensures
        (Progress { finished: Seq::empty(), current: Some(HostView::named(name)) }).read_lines(
            block,
            home,
        ) == (Progress {
            finished: Seq::empty(),
            current: Some(host_of_block(name, block, home)),
        }),
    decreases block.len(),
{
    let opened = Progress { finished: Seq::empty(), current: Some(HostView::named(name)) };
    if block.len() > 0 {
        let lead = block.drop_last();
        let line = block.last();
        assert(!is_host_line(block[block.len() - 1]));
        assert forall|i: int| 0 <= i < lead.len() implies !is_host_line(#[trigger] lead[i]) by {
            assert(lead[i] == block[i]);
        }
        lemma_block(name, lead, home);
        assert(block == lead.push(line));
        lemma_read_lines_push(opened, lead, line, home);
    }
}

/// One host for each `Host` line that names one, in the order of the lines,
/// under the name that the line gives.
pub proof fn law_hosts_in_order(lines: Seq<Seq<char>>, home: Seq<char>)
    ensures
        names(parse_lines(lines, home)) == hosts_opened_by(lines),
{
    lemma_names(Progress::start(), lines, home);
    assert(names(Progress::start().flush()) + hosts_opened_by(lines) == hosts_opened_by(lines));
}

/// The names read after some progress follow those read before.
proof fn lemma_names(st: Progress, lines: Seq<Seq<char>>, home: Seq<char>)
    ensures
        names(st.read_lines(lines, home).flush()) == names(st.flush()) + hosts_opened_by(lines),
    decreases lines.len(),
{
    if lines.len() == 0 {
        assert(names(st.flush()) + hosts_opened_by(lines) == names(st.flush()));
    } else {
        let next = st.read_line(lines.first(), home);
        lemma_names(next, lines.drop_first(), home);
        match host_opened_by(lines.first()) {
            Some(name) => {
                assert(names(next.flush()) == names(st.flush()) + seq![name]);
                assert(names(st.flush()) + seq![name] + hosts_opened_by(lines.drop_first())
                    == names(st.flush()) + (seq![name] + hosts_opened_by(lines.drop_first())));
            },
            None => {
                assert(names(next.flush()) == names(st.flush()));
            },
        }
    }
}

/// No host has a pattern for a name.
pub proof fn law_hosts_are_well_formed(lines: Seq<Seq<char>>, home: Seq<char>)
    ensures
        forall|i: int|
            0 <= i < parse_lines(lines, home).len() ==> (#[trigger] parse_lines(lines, home)[i]).wf(),
{
    lemma_well_formed(Progress::start(), lines, home);
}

/// Whether all the hosts of `st` are well formed.
pub open spec fn well_formed(st: Progress) -> bool {
    forall|i: int| 0 <= i < st.flush().len() ==> (#[trigger] st.flush()[i]).wf()
}

/// Reading keeps the hosts well formed.
proof fn lemma_well_formed(st: Progress, lines: Seq<Seq<char>>, home: Seq<char>)
    requires
        well_formed(st),
    ensures
        well_formed(st.read_lines(lines, home)),
    decreases lines.len(),
{
    if lines.len() > 0 {
        let next = st.read_line(lines.first(), home);
        assert forall|i: int| 0 <= i < next.flush().len() implies (#[trigger] next.flush()[i]).wf() by {
            if i < st.finished.len() {
                assert(st.flush()[i] == st.finished[i]);
            } else if i < st.flush().len() {
                assert(st.flush()[i].wf());
            }
        }
        lemma_well_formed(next, lines.drop_first(), home);
    }
}

/// A text without a line feed is one line.
pub proof fn lemma_one_line(line: Seq<char>)
    requires
        !line.contains('\n'),
    ensures
        split_lines(line) == seq![line],
{
    assert forall|i: int| 0 <= i < line.len() implies !is_line_feed(#[trigger] line[i]) by {
        assert(line.contains(line[i]));
    }
    lemma_line_len_is(line, line.len() as int);
}

/// The lines of two texts with a line feed between them are the lines of the
/// first followed by the lines of the second.
pub proof fn lemma_split_lines_concat(a: Seq<char>, b: Seq<char>)
    ensures
        split_lines(a + seq!['\n'] + b) == split_lines(a) + split_lines(b),
    decreases a.len(),
{
    let text = a + seq!['\n'] + b;
    let n = line_len(a) as int;
    lemma_line_len(a);
    assert forall|i: int| 0 <= i < n implies !is_line_feed(#[trigger] text[i]) by {
        assert(text[i] == a[i]);
    }
    if n < a.len() {
        assert(text[n] == a[n]);
        lemma_line_len_is(text, n);
        assert(text.take(n) == a.take(n));
        assert(text.skip(n + 1) == a.skip(n + 1) + seq!['\n'] + b);
        lemma_split_lines_concat(a.skip(n + 1), b);
        assert(seq![a.take(n)] + (split_lines(a.skip(n + 1)) + split_lines(b)) == seq![a.take(n)]
            + split_lines(a.skip(n + 1)) + split_lines(b));
    } else {
        assert(text[n] == '\n');
        lemma_line_len_is(text, n);
        assert(text.take(n) == a);
        assert(text.skip(n + 1) == b);
    }
}

/// In a text, a line that says nothing can be left out together with its
/// line feed, wherever it stands: between two parts, at the start or at the
/// end.
pub proof fn law_silent_line_in_text(
    before: Seq<char>,
    line: Seq<char>,
    after: Seq<char>,
    home: Seq<char>,
)
    requires
        !line.contains('\n'),
        directive_of(line) is None,
    ensures
        parse(before + seq!['\n'] + line + seq!['\n'] + after, home) == parse(
            before + seq!['\n'] + after,
            home,
        ),
        parse(line + seq!['\n'] + after, home) == parse(after, home),
        parse(before + seq!['\n'] + line, home) == parse(before, home),
{
    lemma_one_line(line);
    let empty = Seq::<Seq<char>>::empty();
    assert(before + seq!['\n'] + line + seq!['\n'] + after == before + seq!['\n'] + (line + seq![
        '\n',
    ] + after));
    lemma_split_lines_concat(line, after);
    lemma_split_lines_concat(before, line + seq!['\n'] + after);
    lemma_split_lines_concat(before, after);
    lemma_split_lines_concat(before, line);
    assert(split_lines(before) + (seq![line] + split_lines(after)) == split_lines(before) + seq![
        line,
    ] + split_lines(after));
    law_silent_line(split_lines(before), line, split_lines(after), home);
    law_silent_line(empty, line, split_lines(after), home);
    assert(empty + seq![line] + split_lines(after) == seq![line] + split_lines(after));
    assert(empty + split_lines(after) == split_lines(after));
    law_silent_line(split_lines(before), line, empty, home);
    assert(split_lines(before) + seq![line] + empty == split_lines(before) + seq![line]);
    assert(split_lines(before) + empty == split_lines(before));
}

} // verus!
