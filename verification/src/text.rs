//! Shared text handling: container names as the engine reports them (with a
//! leading `/`) and the request path handed to the transformation filter.

use vstd::prelude::*;
use vstd::string::StrSliceExecFns;
use vstd::string::StringExecFns;

verus! {

/// The characters of `s` with one leading `/` removed, if present.
pub open spec fn spec_strip_leading_slash(s: Seq<char>) -> Seq<char> {
    if s.len() > 0 && s[0] == '/' {
        s.subrange(1, s.len() as int)
    } else {
        s
    }
}

/// The characters of `s` with one trailing `/` removed, if present.
pub open spec fn spec_strip_trailing_slash(s: Seq<char>) -> Seq<char> {
    if s.len() > 0 && s[s.len() - 1] == '/' {
        s.subrange(0, s.len() - 1)
    } else {
        s
    }
}

/// The path handed to the filter for a creation request: `/job/` followed by
/// the captured sub-path, with one trailing `/` trimmed.
pub open spec fn spec_job_path(sub: Seq<char>) -> Seq<char> {
    spec_strip_trailing_slash("/job/"@ + sub)
}

/// A container name as reported by the engine, with the leading `/` the
/// engine prefixes removed.
pub fn strip_leading_slash(name: &str) -> (r: String)
    ensures
        r@ == spec_strip_leading_slash(name@),
{
    let n = name.unicode_len();
    if n > 0 && name.get_char(0) == '/' {
        name.substring_char(1, n).to_owned()
    } else {
        name.to_owned()
    }
}

/// `s` with one trailing `/` removed, if present.
pub fn strip_trailing_slash(s: &str) -> (r: String)
    ensures
        r@ == spec_strip_trailing_slash(s@),
{
    let n = s.unicode_len();
    if n > 0 && s.get_char(n - 1) == '/' {
        s.substring_char(0, n - 1).to_owned()
    } else {
        s.to_owned()
    }
}

/// Build the path given to the filter from the sub-path captured after
/// `/job/` (empty when the request was `POST /job`).
pub fn job_path(sub: &str) -> (r: String)
    ensures
        r@ == spec_job_path(sub@),
{
    let mut p = String::from_str("/job/");
    p.append(sub);
    strip_trailing_slash(p.as_str())
}

/// A creation request with a trailing slash on its path behaves exactly as
/// the same request without it: both reach the filter as the same path.
pub proof fn lemma_trailing_slash_collapses(sub: Seq<char>)
    requires
        sub.len() > 0,
        sub[sub.len() - 1] != '/',
    ensures
        spec_job_path(sub.push('/')) == spec_job_path(sub),
{
    reveal_strlit("/job/");
    let with = "/job/"@ + sub.push('/');
    let without = "/job/"@ + sub;
    assert(with[with.len() - 1] == '/');
    assert(with.subrange(0, with.len() - 1) =~= without);
    assert(without[without.len() - 1] != '/');
}

} // verus!
