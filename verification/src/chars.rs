//! Character classes and the text operations built on them.
//!
//! Text is modelled as a sequence of characters. The executable functions work
//! on a window `from..to` of a slice of characters, so that a position found
//! in a window is also a position in the text the window was cut from.

use vstd::prelude::*;
use vstd::string::*;

verus! {

/// Whether `c` is white space: a code point with the Unicode property
/// `White_Space`.
pub open spec fn is_space(c: char) -> bool {
    let n = c as u32;
    ||| 0x09 <= n <= 0x0D
    ||| n == 0x20
    ||| n == 0x85
    ||| n == 0xA0
    ||| n == 0x1680
    ||| 0x2000 <= n <= 0x200A
    ||| n == 0x2028
    ||| n == 0x2029
    ||| n == 0x202F
    ||| n == 0x205F
    ||| n == 0x3000
}

/// Whether `c` ends a key: white space or `=`.
pub open spec fn is_separator(c: char) -> bool {
    is_space(c) || c == '='
}

/// Whether `c` ends a line.
pub open spec fn is_line_feed(c: char) -> bool {
    c == '\n'
}

/// `c`, with an upper-case ASCII letter replaced by its lower-case form.
pub open spec fn lower(c: char) -> char {
    if 'A' as u32 <= c as u32 <= 'Z' as u32 {
        ((c as u32) + 0x20) as char
    } else {
        c
    }
}

/// `s` with every upper-case ASCII letter replaced by its lower-case form.
pub open spec fn lowercase(s: Seq<char>) -> Seq<char> {
    Seq::new(s.len(), |i: int| lower(s[i]))
}

/// `s` without its leading white space.
pub open spec fn trim_start(s: Seq<char>) -> Seq<char>
    decreases s.len(),
{
    if s.len() > 0 && is_space(s.first()) {
        trim_start(s.drop_first())
    } else {
        s
    }
}

/// `s` without its trailing white space.
pub open spec fn trim_end(s: Seq<char>) -> Seq<char>
    decreases s.len(),
{
    if s.len() > 0 && is_space(s.last()) {
        trim_end(s.drop_last())
    } else {
        s
    }
}

/// `s` without its leading and trailing white space.
pub open spec fn trimmed(s: Seq<char>) -> Seq<char> {
    trim_end(trim_start(s))
}

/// The number of characters of `s` before its first separator, or the length
/// of `s` if it holds none.
pub open spec fn key_len(s: Seq<char>) -> nat
    decreases s.len(),
{
    if s.len() == 0 || is_separator(s.first()) {
        0
    } else {
        1 + key_len(s.drop_first())
    }
}

/// The number of characters of `s` before its first line feed, or the length
/// of `s` if it holds none.
pub open spec fn line_len(s: Seq<char>) -> nat
    decreases s.len(),
{
    if s.len() == 0 || is_line_feed(s.first()) {
        0
    } else {
        1 + line_len(s.drop_first())
    }
}

/// The lines of `text`: the pieces between its line feeds, in order. A text
/// with `n` line feeds has `n + 1` lines, some of which may be empty.
pub open spec fn split_lines(text: Seq<char>) -> Seq<Seq<char>>
    decreases text.len(),
{
    let n = line_len(text) as int;
    if 0 <= n < text.len() {
        seq![text.take(n)] + split_lines(text.skip(n + 1))
    } else {
        seq![text]
    }
}

/// A position `k` before which `s` holds no separator, and which is the end
/// of `s` or holds one, is `key_len(s)`.
pub proof fn lemma_key_len_is(s: Seq<char>, k: int)
    requires
        0 <= k <= s.len(),
        forall|i: int| 0 <= i < k ==> !is_separator(#[trigger] s[i]),
        k < s.len() ==> is_separator(s[k]),
    ensures
        key_len(s) == k,
    decreases s.len(),
{
    if k > 0 {
        let rest = s.drop_first();
        assert(!is_separator(s[0]));
        assert forall|i: int| 0 <= i < k - 1 implies !is_separator(#[trigger] rest[i]) by {
            assert(rest[i] == s[i + 1]);
        }
        lemma_key_len_is(rest, k - 1);
    }
}

/// `line_len(s)` is the position of the first line feed of `s`.
pub proof fn lemma_line_len(s: Seq<char>)
    ensures
        line_len(s) <= s.len(),
        forall|i: int| 0 <= i < line_len(s) ==> !is_line_feed(#[trigger] s[i]),
        line_len(s) < s.len() ==> is_line_feed(s[line_len(s) as int]),
    decreases s.len(),
{
    if s.len() > 0 && !is_line_feed(s.first()) {
        let rest = s.drop_first();
        lemma_line_len(rest);
        assert forall|i: int| 0 <= i < line_len(s) implies !is_line_feed(#[trigger] s[i]) by {
            if i > 0 {
                assert(s[i] == rest[i - 1]);
            }
        }
        assert(line_len(s) < s.len() ==> s[line_len(s) as int] == rest[line_len(rest) as int]);
    }
}

/// A position `k` before which `s` holds no line feed, and which is the end
/// of `s` or holds one, is `line_len(s)`.
pub proof fn lemma_line_len_is(s: Seq<char>, k: int)
    requires
        0 <= k <= s.len(),
        forall|i: int| 0 <= i < k ==> !is_line_feed(#[trigger] s[i]),
        k < s.len() ==> is_line_feed(s[k]),
    ensures
        line_len(s) == k,
    decreases s.len(),
{
    if k > 0 {
        let rest = s.drop_first();
        assert(!is_line_feed(s[0]));
        assert forall|i: int| 0 <= i < k - 1 implies !is_line_feed(#[trigger] rest[i]) by {
            assert(rest[i] == s[i + 1]);
        }
        lemma_line_len_is(rest, k - 1);
    }
}

/// `trim_start(s)` is `s` without some leading white space, and does not
/// start with white space.
pub proof fn lemma_trim_start(s: Seq<char>)
    ensures
        trim_start(s).len() <= s.len(),
        trim_start(s) == s.skip(s.len() - trim_start(s).len()),
        forall|i: int| 0 <= i < s.len() - trim_start(s).len() ==> is_space(#[trigger] s[i]),
        trim_start(s).len() > 0 ==> !is_space(trim_start(s).first()),
    decreases s.len(),
{
    if s.len() > 0 && is_space(s.first()) {
        let rest = s.drop_first();
        lemma_trim_start(rest);
        let k = rest.len() - trim_start(rest).len();
        assert(rest.skip(k) == s.skip(k + 1));
        assert forall|i: int| 0 <= i < k + 1 implies is_space(#[trigger] s[i]) by {
            if i > 0 {
                assert(s[i] == rest[i - 1]);
            }
        }
    } else {
        assert(s.skip(0) == s);
    }
}

/// `trim_end(s)` is `s` without some trailing white space, and does not end
/// with white space.
pub proof fn lemma_trim_end(s: Seq<char>)
    ensures
        trim_end(s).len() <= s.len(),
        trim_end(s) == s.take(trim_end(s).len() as int),
        forall|i: int| trim_end(s).len() <= i < s.len() ==> is_space(#[trigger] s[i]),
        trim_end(s).len() > 0 ==> !is_space(trim_end(s).last()),
    decreases s.len(),
{
    if s.len() > 0 && is_space(s.last()) {
        let rest = s.drop_last();
        lemma_trim_end(rest);
        let k = trim_end(rest).len() as int;
        assert(rest.take(k) == s.take(k));
        assert forall|i: int| k <= i < s.len() implies is_space(#[trigger] s[i]) by {
            if i < s.len() - 1 {
                assert(s[i] == rest[i]);
            }
        }
    } else {
        assert(s.take(s.len() as int) == s);
    }
}

/// `trimmed(s)` is a window of `s` that neither starts nor ends with white
/// space, and all that `s` holds outside of it is white space.
pub proof fn lemma_trimmed(s: Seq<char>) -> (window: (int, int))
    ensures
        0 <= window.0 <= window.1 <= s.len(),
        trimmed(s) == s.subrange(window.0, window.1),
        forall|i: int| 0 <= i < window.0 ==> is_space(#[trigger] s[i]),
        forall|i: int| window.1 <= i < s.len() ==> is_space(#[trigger] s[i]),
        window.0 < window.1 ==> !is_space(s[window.0]) && !is_space(s[window.1 - 1]),
{
    lemma_trim_start(s);
    let t = trim_start(s);
    let a = s.len() - t.len();
    lemma_trim_end(t);
    let b = a + trim_end(t).len();
    assert(t.take(trim_end(t).len() as int) == s.subrange(a, b));
    assert forall|i: int| b <= i < s.len() implies is_space(#[trigger] s[i]) by {
        assert(s[i] == t[i - a]);
    }
    if a < b {
        assert(t.first() == s[a]);
        assert(trim_end(t).last() == s[b - 1]);
    }
    (a, b)
}

/// Tells whether `c` is white space.
pub fn is_whitespace(c: char) -> (b: bool)
    ensures
        b == is_space(c),
{
    let n: u32 = c as u32;
    (0x09 <= n && n <= 0x0D) || n == 0x20 || n == 0x85 || n == 0xA0 || n == 0x1680 || (0x2000 <= n
        && n <= 0x200A) || n == 0x2028 || n == 0x2029 || n == 0x202F || n == 0x205F || n == 0x3000
}

/// The characters of `text`, in order.
pub fn to_chars(text: &str) -> (chars: Vec<char>)
    ensures
        chars@ == text@,
{
    broadcast use vstd::string::group_string_axioms;

    let mut chars: Vec<char> = Vec::new();
    for c in it: text.chars()
        invariant
            it.seq() == text@,
            chars@ == text@.take(it.index()),
    {
        chars.push(c);
    }
    chars
}

/// Finds the end of the line that starts at `from`: the position of the first
/// line feed at or after `from`, or the end of `s`.
pub fn line_end(s: &[char], from: usize) -> (end: usize)
    requires
        from <= s.len(),
    ensures
        from <= end <= s.len(),
        end - from == line_len(s@.skip(from as int)),
{
    let mut end: usize = from;
    while end < s.len() && s[end] != '\n'
        invariant
            from <= end <= s.len(),
            forall|i: int| from <= i < end ==> !is_line_feed(#[trigger] s@[i]),
        decreases s.len() - end,
    {
        end += 1;
    }
    proof {
        lemma_line_len_is(s@.skip(from as int), end - from);
    }
    end
}

/// Finds the end of the key of the window `from..to` of `s`: the position of
/// its first separator, or `to`.
pub fn key_end(s: &[char], from: usize, to: usize) -> (end: usize)
    requires
        from <= to <= s.len(),
    ensures
        from <= end <= to,
        end - from == key_len(s@.subrange(from as int, to as int)),
{
    let mut end: usize = from;
    while end < to && !(is_whitespace(s[end]) || s[end] == '=')
        invariant
            from <= end <= to <= s.len(),
            forall|i: int| from <= i < end ==> !is_separator(#[trigger] s@[i]),
        decreases to - end,
    {
        end += 1;
    }
    proof {
        lemma_key_len_is(s@.subrange(from as int, to as int), end - from);
    }
    end
}

/// Trims the window `from..to` of `s`: returns the bounds of the window
/// without its leading and trailing white space.
pub fn trim_bounds(s: &[char], from: usize, to: usize) -> (r: (usize, usize))
    requires
        from <= to <= s.len(),
    ensures
        from <= r.0 <= r.1 <= to,
        s@.subrange(r.0 as int, r.1 as int) == trimmed(s@.subrange(from as int, to as int)),
{
    let mut a: usize = from;
    while a < to && is_whitespace(s[a])
        invariant
            from <= a <= to <= s.len(),
            trim_start(s@.subrange(from as int, to as int)) == trim_start(
                s@.subrange(a as int, to as int),
            ),
        decreases to - a,
    {
        assert(s@.subrange(a as int, to as int).drop_first() == s@.subrange(a + 1, to as int));
        a += 1;
    }
    let mut b: usize = to;
    while a < b && is_whitespace(s[b - 1])
        invariant
            a <= b <= to <= s.len(),
            trim_end(s@.subrange(a as int, to as int)) == trim_end(s@.subrange(a as int, b as int)),
        decreases b - a,
    {
        assert(s@.subrange(a as int, b as int).drop_last() == s@.subrange(a as int, b - 1));
        b -= 1;
    }
    (a, b)
}

/// Tells whether the window `from..to` of `s` holds `c`.
pub fn holds(s: &[char], from: usize, to: usize, c: char) -> (b: bool)
    requires
        from <= to <= s.len(),
    ensures
        b == s@.subrange(from as int, to as int).contains(c),
{
    let mut i: usize = from;
    while i < to
        invariant
            from <= i <= to <= s.len(),
            forall|j: int| from <= j < i ==> s@[j] != c,
        decreases to - i,
    {
        if s[i] == c {
            assert(s@.subrange(from as int, to as int)[i - from] == c);
            return true;
        }
        i += 1;
    }
    false
}

/// Tells whether the window `from..to` of `s` spells `word` once its
/// upper-case ASCII letters are replaced by their lower-case forms.
pub fn spells(s: &[char], from: usize, to: usize, word: &str) -> (b: bool)
    requires
        from <= to <= s.len(),
    ensures
        b == (lowercase(s@.subrange(from as int, to as int)) == word@),
{
    let n: usize = word.unicode_len();
    if to - from != n {
        return false;
    }
    let ghost key = s@.subrange(from as int, to as int);
    let mut i: usize = 0;
    while i < n
        invariant
            from <= to <= s.len(),
            to - from == n == word@.len(),
            key == s@.subrange(from as int, to as int),
            0 <= i <= n,
            forall|j: int| 0 <= j < i ==> lowercase(key)[j] == word@[j],
        decreases n - i,
    {
        let c = s[from + i];
        let w = word.get_char(i);
        let code: u32 = c as u32;
        let folded: u32 = if 0x41 <= code && code <= 0x5A {
            code + 0x20
        } else {
            code
        };
        assert(folded == lower(key[i as int]) as u32);
        if folded != w as u32 {
            assert(lowercase(key)[i as int] != word@[i as int]);
            return false;
        }
        i += 1;
    }
    assert(lowercase(key) =~= word@);
    true
}

} // verus!
