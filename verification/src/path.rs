//! Paths as text: joining, and resolving a leading `~/`.

use vstd::prelude::*;
use vstd::string::*;

verus! {

/// `rest` adjoined to the path `base`, with `/` as the separator: a `rest`
/// that starts at the root replaces `base`; otherwise `rest` follows `base`,
/// after a separator unless `base` is empty or already ends in one.
pub open spec fn joined(base: Seq<char>, rest: Seq<char>) -> Seq<char> {
    if rest.len() > 0 && rest.first() == '/' {
        rest
    } else if base.len() == 0 || base.last() == '/' {
        base + rest
    } else {
        base + seq!['/'] + rest
    }
}

/// Whether `value` starts with `~/`.
pub open spec fn in_home(value: Seq<char>) -> bool {
    value.len() >= 2 && value[0] == '~' && value[1] == '/'
}

/// The path that `value` stands for: what follows a leading `~/` adjoined to
/// `home`, and any other value as it is.
pub open spec fn resolved(value: Seq<char>, home: Seq<char>) -> Seq<char> {
    if in_home(value) {
        joined(home, value.skip(2))
    } else {
        value
    }
}

/// Adjoins `rest` to the path `base`.
pub fn join(base: &str, rest: &str) -> (path: String)
    ensures
        path@ == joined(base@, rest@),
{
    let base_len: usize = base.unicode_len();
    if rest.unicode_len() > 0 && rest.get_char(0) == '/' {
        return rest.to_owned();
    }
    let mut path = base.to_owned();
    if base_len > 0 && base.get_char(base_len - 1) != '/' {
        proof {
            reveal_strlit("/");
        }
        path.append("/");
        assert(path@ =~= base@ + seq!['/']);
    }
    path.append(rest);
    path
}

/// Resolves a leading `~/` of `value` against `home`.
pub fn resolve(value: &str, home: &str) -> (path: String)
    ensures
        path@ == resolved(value@, home@),
{
    let len: usize = value.unicode_len();
    if len >= 2 && value.get_char(0) == '~' && value.get_char(1) == '/' {
        join(home, value.substring_char(2, len))
    } else {
        value.to_owned()
    }
}

} // verus!
