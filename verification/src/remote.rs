//! The browsable address of a project, from what its version-control
//! client prints as the address of the remote `origin`.

use vstd::prelude::*;
use crate::text::{
    append, ends_with, from_chars, has_prefix, has_suffix, slice, starts_with, to_chars, trim,
    trimmed,
};

verus! {

/// `s` without the suffix, where it ends with it.
pub open spec fn without_suffix(s: Seq<char>, suffix: Seq<char>) -> Seq<char> {
    if has_suffix(s, suffix) {
        s.take(s.len() - suffix.len())
    } else {
        s
    }
}

/// The address under which the project can be browsed.
///
/// The output is trimmed. A remote in secure-shell form,
/// `git@github.com:owner/name.git`, becomes
/// `https://github.com/owner/name`; one that begins with
/// `https://github.com/` is kept, without a trailing `.git`. Any other
/// remote gives nothing.
pub open spec fn github_url_of(output: Seq<char>) -> Option<Seq<char>> {
    let remote = trimmed(output);
    if has_prefix(remote, "git@github.com:"@) {
        Some(
            "https://github.com/"@ + without_suffix(
                remote.skip("git@github.com:"@.len() as int),
                ".git"@,
            ),
        )
    } else if has_prefix(remote, "https://github.com/"@) {
        Some(without_suffix(remote, ".git"@))
    } else {
        None
    }
}

/// The characters of `s` without the suffix, where it ends with it.
fn strip_suffix(s: &Vec<char>, suffix: &Vec<char>) -> (r: Vec<char>)
    ensures
        r@ == without_suffix(s@, suffix@),
{
    if ends_with(s, suffix) {
        slice(s, 0, s.len() - suffix.len())
    } else {
        assert(s@.subrange(0, s.len() as int) == s@);
        slice(s, 0, s.len())
    }
}

/// The address under which a project can be browsed, from the output of
/// the query for its remote `origin`.
pub fn get_github_url(remote_output: &str) -> (r: Option<String>)
    ensures
        r.deep_view() == github_url_of(remote_output@),
{
    let output = to_chars(remote_output);
    let remote = trim(&output);
    let ssh = to_chars("git@github.com:");
    let https = to_chars("https://github.com/");
    let git = to_chars(".git");
    if starts_with(&remote, &ssh) {
        let rest = slice(&remote, ssh.len(), remote.len());
        let path = strip_suffix(&rest, &git);
        let mut url = to_chars("https://github.com/");
        append(&mut url, &path);
        Some(from_chars(&url))
    } else if starts_with(&remote, &https) {
        let url = strip_suffix(&remote, &git);
        Some(from_chars(&url))
    } else {
        None
    }
}

} // verus!
