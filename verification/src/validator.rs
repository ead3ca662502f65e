//! String validators for command-line arguments: numbers, dates,
//! durations, URLs, project slugs and branch names.
//!
//! Each validator returns `Ok(())` exactly on the values it accepts and
//! the user-facing message otherwise.

use vstd::prelude::*;
use vstd::string::StrSliceExecFns;
use crate::strutil::is_digit;
use crate::strutil::is_u32_str;
use crate::strutil::is_u64_str;
use crate::strutil::parse_u32;
use crate::strutil::parse_u64;
use crate::strutil::str_ends_with;
use crate::strutil::str_starts_with;

verus! {

/// Whether `humantime::parse_duration` accepts a text: a pure function of
/// the characters alone.
pub uninterp spec fn humantime_duration_ok(s: Seq<char>) -> bool;

/// Relies on `humantime::parse_duration` to decide whether a text is a
/// human-friendly duration; on refusal its message is returned.
#[verifier::external_body]
fn parse_humantime_duration(s: &str) -> (r: Result<(), String>)
    ensures
        r is Ok <==> humantime_duration_ok(s@),
{
    match humantime::parse_duration(s) {
        Ok(_) => Ok(()),
        Err(e) => Err(e.to_string()),
    }
}

/// Whether `chrono::NaiveDate::parse_from_str` with the `%Y-%m-%d` format
/// accepts a text: a pure function of the characters alone.
pub uninterp spec fn ymd_date_ok(s: Seq<char>) -> bool;

/// Relies on `chrono::NaiveDate::parse_from_str` with the fixed
/// `%Y-%m-%d` format to decide whether a text is a calendar date.
#[verifier::external_body]
fn parse_ymd_date(s: &str) -> (r: bool)
    ensures
        r == ymd_date_ok(s@),
{
    chrono::NaiveDate::parse_from_str(s, "%Y-%m-%d").is_ok()
}

/// Whether `url::Url::parse` accepts a text: a pure function of the
/// characters alone.
pub uninterp spec fn url_ok(s: Seq<char>) -> bool;

/// Relies on `url::Url::parse` to decide whether a text is an absolute
/// URL.
#[verifier::external_body]
fn parse_url(s: &str) -> (r: bool)
    ensures
        r == url_ok(s@),
{
    url::Url::parse(s).is_ok()
}

/// Whether `git2::Reference::is_valid_name` accepts a full reference
/// name: a pure function of the characters alone.
pub uninterp spec fn git_ref_name_ok(s: Seq<char>) -> bool;

/// Relies on `git2::Reference::is_valid_name`, libgit2's reference-name
/// validation.
#[verifier::external_body]
fn git_ref_name_valid(s: &str) -> (r: bool)
    ensures
        r == git_ref_name_ok(s@),
{
    git2::Reference::is_valid_name(s)
}

/// Checks a human-friendly duration such as `2hr 30m`.
pub fn check_valid_humantime_duration(dur: &str) -> (r: Result<(), String>)
    ensures
        r is Ok <==> humantime_duration_ok(dur@),
{
    parse_humantime_duration(dur)
}

/// Checks a decimal `u32`, or accepts the empty string.
pub fn check_u32_or_empty(v: &str) -> (r: Result<(), String>)
    ensures
        r is Ok <==> v@.len() == 0 || is_u32_str(v@),
        r matches Err(m) ==> m@ == "The value is not a positive 32-bit integer"@,
{
    if v.unicode_len() == 0 {
        Ok(())
    } else {
        check_u32(v)
    }
}

/// Checks a decimal `u32`.
pub fn check_u32(v: &str) -> (r: Result<(), String>)
    ensures
        r is Ok <==> is_u32_str(v@),
        r matches Err(m) ==> m@ == "The value is not a positive 32-bit integer"@,
{
    match parse_u32(v) {
        Some(_) => Ok(()),
        None => Err("The value is not a positive 32-bit integer".to_owned()),
    }
}

/// Checks a decimal `u64`.
pub fn check_u64(v: &str) -> (r: Result<(), String>)
    ensures
        r is Ok <==> is_u64_str(v@),
        r matches Err(m) ==> m@ == "The value is not a positive 64-bit integer"@,
{
    match parse_u64(v) {
        Some(_) => Ok(()),
        None => Err("The value is not a positive 64-bit integer".to_owned()),
    }
}

/// Checks a `YYYY-MM-DD` date, or accepts the empty string.
pub fn check_yyyy_mm_dd_or_empty(v: &str) -> (r: Result<(), String>)
    ensures
        r is Ok <==> v@.len() == 0 || ymd_date_ok(v@),
        r matches Err(m) ==> m@ == "The value is not date of form YYYY-MM-YY"@,
{
    if v.unicode_len() == 0 {
        Ok(())
    } else {
        check_yyyy_mm_dd(v)
    }
}

/// Checks a `YYYY-MM-DD` date.
pub fn check_yyyy_mm_dd(v: &str) -> (r: Result<(), String>)
    ensures
        r is Ok <==> ymd_date_ok(v@),
        r matches Err(m) ==> m@ == "The value is not date of form YYYY-MM-YY"@,
{
    if parse_ymd_date(v) {
        Ok(())
    } else {
        Err("The value is not date of form YYYY-MM-YY".to_owned())
    }
}

/// True iff `c` may open a project slug: a letter, a digit, `_` or `.`.
pub open spec fn slug_head_char(c: char) -> bool {
    ||| 65 <= c as u32 <= 90
    ||| 97 <= c as u32 <= 122
    ||| is_digit(c)
    ||| c == '_'
    ||| c == '.'
}

/// True iff `c` may continue a project slug: a head character or `-`.
pub open spec fn slug_tail_char(c: char) -> bool {
    slug_head_char(c) || c == '-'
}

/// The project-slug rules: letters, digits, `_`, `-` and `.` only, not
/// opening with `-`, not ending in `.git` or `.atom`.
pub open spec fn project_slug_ok(s: Seq<char>) -> bool {
    &&& s.len() > 0
    &&& slug_head_char(s[0])
    &&& forall|i: int| 1 <= i < s.len() ==> slug_tail_char(#[trigger] s[i])
    &&& !".git"@.is_suffix_of(s)
    &&& !".atom"@.is_suffix_of(s)
}

/// Checks a project slug against [`project_slug_ok`].
pub fn check_project_slug(v: &str) -> (r: Result<(), String>)
    ensures
        r is Ok <==> project_slug_ok(v@),
{
    let len = v.unicode_len();
    if len == 0 {
        return Err(slug_rules_message());
    }
    let c0 = v.get_char(0);
    let u0 = c0 as u32;
    if !((65 <= u0 && u0 <= 90) || (97 <= u0 && u0 <= 122) || (48 <= u0 && u0 <= 57)
        || c0 == '_' || c0 == '.') {
        proof {
            assert(!slug_head_char(v@[0]));
        }
        return Err(slug_rules_message());
    }
    let mut i: usize = 1;
    while i < len
        invariant
            len == v@.len(),
            1 <= i <= len,
            forall|k: int| 1 <= k < i ==> slug_tail_char(#[trigger] v@[k]),
        decreases len - i,
    {
        let c = v.get_char(i);
        let u = c as u32;
        if !((65 <= u && u <= 90) || (97 <= u && u <= 122) || (48 <= u && u <= 57)
            || c == '_' || c == '.' || c == '-') {
            proof {
                assert(!slug_tail_char(v@[i as int]));
            }
            return Err(slug_rules_message());
        }
        i = i + 1;
    }
    if str_ends_with(v, ".git") || str_ends_with(v, ".atom") {
        return Err(slug_rules_message());
    }
    Ok(())
}

/// The user-facing statement of the slug rules.
fn slug_rules_message() -> (r: String)
    ensures
        r@ == "\nOnly alphanumeric characters, `_`, `-` and `.` permitted\nCannot start with `-`\nCannot end with `.git` or `.atom`"@,
{
    "\nOnly alphanumeric characters, `_`, `-` and `.` permitted\nCannot start with `-`\nCannot end with `.git` or `.atom`".to_owned()
}

/// Checks a branch name: valid for git as `refs/heads/<name>` and not
/// opening with `-`.
pub fn check_branch_name(v: &str) -> (r: Result<(), String>)
    ensures
        r is Ok <==> git_ref_name_ok("refs/heads/"@ + v@) && !"-"@.is_prefix_of(v@),
        r matches Err(m) ==> m@
            == "Bad git ref name, see git-check-ref-format(1) for details"@,
{
    let mut full = String::new();
    full.append("refs/heads/");
    full.append(v);
    if git_ref_name_valid(full.as_str()) && !str_starts_with(v, "-") {
        Ok(())
    } else {
        Err("Bad git ref name, see git-check-ref-format(1) for details".to_owned())
    }
}

/// Checks a URL.
pub fn check_url(v: &str) -> (r: Result<(), String>)
    ensures
        r is Ok <==> url_ok(v@),
        r matches Err(m) ==> m@ == "Bad URL"@,
{
    if parse_url(v) {
        Ok(())
    } else {
        Err("Bad URL".to_owned())
    }
}

} // verus!
