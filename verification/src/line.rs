//! One line of a configuration: a keyword and its value, or nothing.

use crate::chars::{
    is_separator, is_space, key_end, key_len, lemma_key_len_is, lemma_trim_end, lemma_trim_start,
    lemma_trimmed, lowercase, spells, trim_bounds, trim_start, trimmed,
};
use vstd::prelude::*;

verus! {

/// The keywords that are understood.
#[derive(Debug, Clone, Copy, PartialEq, Eq)]
pub enum Keyword {
    Host,
    HostName,
    IdentityFile,
    User,
}

/// A line that says something: a keyword and the value given to it.
pub struct Directive {
    pub keyword: Keyword,
    pub value: Seq<char>,
}

/// Where a directive was found in a slice of characters: its keyword, and
/// the window `start..end` that holds its value.
pub struct Found {
    pub keyword: Keyword,
    pub start: usize,
    pub end: usize,
}

/// The keyword that `key` spells, whatever the case of its ASCII letters.
pub open spec fn keyword_of(key: Seq<char>) -> Option<Keyword> {
    let k = lowercase(key);
    if k == "host"@ {
        Some(Keyword::Host)
    } else if k == "hostname"@ {
        Some(Keyword::HostName)
    } else if k == "identityfile"@ {
        Some(Keyword::IdentityFile)
    } else if k == "user"@ {
        Some(Keyword::User)
    } else {
        None
    }
}

/// What `line` says. The line is trimmed; an empty line and one that starts
/// with `#` say nothing. The key is what stands before the first separator
/// (white space or `=`), the value what stands after it, trimmed. A line
/// without a separator, or with a key that is no keyword, says nothing.
pub open spec fn directive_of(line: Seq<char>) -> Option<Directive> {
    let text = trimmed(line);
    let k = key_len(text) as int;
    if text.len() == 0 || text.first() == '#' || k >= text.len() {
        None
    } else {
        match keyword_of(text.take(k)) {
            Some(keyword) => Some(Directive { keyword, value: trimmed(text.skip(k + 1)) }),
            None => None,
        }
    }
}

/// A line of white space says nothing.
pub proof fn law_blank_line_says_nothing(line: Seq<char>)
    requires
        forall|i: int| 0 <= i < line.len() ==> is_space(#[trigger] line[i]),
    ensures
        directive_of(line) is None,
{
    let (a, b) = lemma_trimmed(line);
}

/// A line whose first character after leading white space is `#` says
/// nothing.
pub proof fn law_comment_says_nothing(line: Seq<char>)
    requires
        trim_start(line).len() > 0,
        trim_start(line).first() == '#',
    ensures
        directive_of(line) is None,
{
    lemma_trim_start(line);
    lemma_trim_end(trim_start(line));
    let t = trim_start(line);
    assert(!is_space('#'));
    assert(trimmed(line).len() > 0) by {
        if trimmed(line).len() == 0 {
            assert(is_space(t[0]));
        }
    }
    assert(trimmed(line).first() == t.first());
}

/// A line without white space and without `=` says nothing.
pub proof fn law_line_without_separator_says_nothing(line: Seq<char>)
    requires
        forall|i: int| 0 <= i < line.len() ==> !is_separator(#[trigger] line[i]),
    ensures
        directive_of(line) is None,
{
    let (a, b) = lemma_trimmed(line);
    let text = trimmed(line);
    assert forall|i: int| 0 <= i < text.len() implies !is_separator(#[trigger] text[i]) by {
        assert(text[i] == line[a + i]);
    }
    lemma_key_len_is(text, text.len() as int);
}

/// Tells which keyword the window `from..to` of `s` spells.
pub fn keyword(s: &[char], from: usize, to: usize) -> (k: Option<Keyword>)
    requires
        from <= to <= s.len(),
    ensures
        k == keyword_of(s@.subrange(from as int, to as int)),
{
    if spells(s, from, to, "host") {
        Some(Keyword::Host)
    } else if spells(s, from, to, "hostname") {
        Some(Keyword::HostName)
    } else if spells(s, from, to, "identityfile") {
        Some(Keyword::IdentityFile)
    } else if spells(s, from, to, "user") {
        Some(Keyword::User)
    } else {
        None
    }
}

/// Reads the line in the window `from..to` of `s`.
pub fn read_directive(s: &[char], from: usize, to: usize) -> (r: Option<Found>)
    requires
        from <= to <= s.len(),
    ensures
        match r {
            Some(found) => {
                &&& from <= found.start <= found.end <= to
                &&& directive_of(s@.subrange(from as int, to as int)) == Some(
                    Directive {
                        keyword: found.keyword,
                        value: s@.subrange(found.start as int, found.end as int),
                    },
                )
            },
            None => directive_of(s@.subrange(from as int, to as int)) is None,
        },
{
    let (a, b) = trim_bounds(s, from, to);
    let ghost text = s@.subrange(a as int, b as int);
    if a == b || s[a] == '#' {
        return None;
    }
    let k: usize = key_end(s, a, b);
    if k >= b {
        return None;
    }
    assert(text.take(k - a) == s@.subrange(a as int, k as int));
    assert(text.skip(k - a + 1) == s@.subrange(k + 1, b as int));
    match keyword(s, a, k) {
        Some(keyword) => {
            let (start, end) = trim_bounds(s, k + 1, b);
            Some(Found { keyword, start, end })
        },
        None => None,
    }
}

} // verus!
