//! The home directory of the current user.

use vstd::prelude::*;

verus! {

/// Asks `dirs::home_dir` for the home directory of the current user and
/// turns the path into text, with `U+FFFD` in place of what is not UTF-8.
///
/// Nothing is claimed of the answer: it depends on the environment of the
/// process, and there may be none.
#[verifier::external_body]
pub(crate) fn home_dir() -> (home: Option<String>) {
    dirs::home_dir().map(|path| path.to_string_lossy().into_owned())
}

} // verus!
