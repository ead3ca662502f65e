//! The naming policy: slugs for branch names, and the convention that a
//! branch associated with issue `i` starts with `"<i>-"`.

use vstd::prelude::*;
use crate::strutil::dec_str_of;
use crate::strutil::str_starts_with;
use crate::strutil::u64_to_string;

verus! {

/// The slug that `slugify::slugify` produces for a text: a pure function
/// of the characters alone.
pub uninterp spec fn slug_of(s: Seq<char>) -> Seq<char>;

/// Relies on `slugify::slugify` (no stop words, separator `"-"`, no length
/// cap) to turn free text into a branch-safe slug.  The result depends on
/// the text alone.
#[verifier::external_body]
pub(crate) fn slug(s: &str) -> (r: String)
    ensures
        r@ == slug_of(s@),
{
    slugify::slugify(s, "", "-", None)
}

/// The required prefix for a branch tied to issue `id`: the decimal id
/// followed by a dash.
pub open spec fn issue_prefix(id: u64) -> Seq<char> {
    dec_str_of(id as nat) + seq!['-']
}

/// True iff `name` carries the prefix that ties it to issue `id`.
pub open spec fn spec_issue_prefixed(name: Seq<char>, id: u64) -> bool {
    issue_prefix(id).is_prefix_of(name)
}

/// The issue prefix, rendered: `"<id>-"`.
pub fn issue_prefix_string(id: u64) -> (r: String)
    ensures
        r@ == issue_prefix(id),
{
    let mut s = u64_to_string(id);
    proof {
        reveal_strlit("-");
        assert("-"@ =~= seq!['-']);
    }
    s.append("-");
    s
}

/// True iff `branch` starts with `"<id>-"`, exactly and case-sensitively.
pub fn branch_prefixed_with_issue_id(branch: &str, id: u64) -> (r: bool)
    ensures
        r == spec_issue_prefixed(branch@, id),
{
    let p = issue_prefix_string(id);
    str_starts_with(branch, p.as_str())
}

/// Builds `"<id>-<slug of s>"`, the conventional name for a fresh branch
/// tied to an issue.
pub fn slug_and_prefix(id: u64, s: &str) -> (r: String)
    ensures
        r@ == issue_prefix(id) + slug_of(s@),
{
    let mut p = issue_prefix_string(id);
    let sl = slug(s);
    p.append(sl.as_str());
    p
}

/// A name built by `slug_and_prefix` always satisfies the issue-prefix
/// convention for its issue.
pub proof fn lemma_prefix_of_prefixed(id: u64, rest: Seq<char>)
    ensures
        spec_issue_prefixed(issue_prefix(id) + rest, id),
{
    assert((issue_prefix(id) + rest).subrange(0, issue_prefix(id).len() as int)
        =~= issue_prefix(id));
}

} // verus!
